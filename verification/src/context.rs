//! A session as statements see it: the session state, and the slot that
//! holds the handle of the background execution context until shutdown.

use crate::cluster::{
    Cluster, Definition, ObjectId, TableEntry, TableInfo, TableKind, TopicInfo, ViewInfo,
};
use crate::config::{Config, ConfigView};
use crate::error::{EngineError, EngineErrorView};
use crate::registry::{resolved_schema, Id, SchemaRef, TableRef};
use crate::state::{StateView, SynapseState};
use vstd::prelude::*;

verus! {

/// Names the background execution context that runs a session's work.
/// Whoever holds the handle is the one to tear that context down.
#[derive(Clone, Copy, Debug, PartialEq, Eq, Structural)]
pub struct EngineHandle {
    pub id: u64,
}

/// A session: its state, and the engine handle until it is shut down.
#[derive(Debug)]
pub struct SynapseContext {
    state: SynapseState,
    engine: Option<EngineHandle>,
}

/// What a [`SynapseContext`] holds, as plain values.
pub struct ContextView {
    pub state: StateView,
    pub engine: Option<EngineHandle>,
}

impl View for SynapseContext {
    type V = ContextView;

    closed spec fn view(&self) -> ContextView {
        ContextView { state: self.state@, engine: self.engine }
    }
}

impl ContextView {
    /// `USE CATALOG name`: the session afterwards, or the error.
    pub open spec fn use_catalog(self, name: Seq<char>) -> Result<ContextView, EngineErrorView> {
        if self.state.cluster.catalogs.dom().contains(name) {
            Ok(
                ContextView {
                    state: StateView {
                        config: ConfigView { default_catalog: name, ..self.state.config },
                        ..self.state
                    },
                    ..self
                },
            )
        } else {
            Err(EngineErrorView::CatalogNotFound(name))
        }
    }

    /// `USE SCHEMA name`, within the default catalog: the session afterwards, or the error.
    pub open spec fn use_schema(self, name: Seq<char>) -> Result<ContextView, EngineErrorView> {
        let catalog = self.state.config.default_catalog;
        if !self.state.cluster.catalogs.dom().contains(catalog) {
            Err(EngineErrorView::CatalogNotFound(catalog))
        } else if !self.state.cluster.schemas.dom().contains((catalog, name)) {
            Err(EngineErrorView::SchemaNotFound(name))
        } else {
            Ok(
                ContextView {
                    state: StateView {
                        config: ConfigView { default_schema: name, ..self.state.config },
                        ..self.state
                    },
                    ..self
                },
            )
        }
    }

    /// Shutting down: the session afterwards, and the engine to tear down, if any is left.
    pub open spec fn shutdown(self) -> (ContextView, Option<EngineHandle>) {
        (ContextView { engine: None, ..self }, self.engine)
    }
}

impl SynapseContext {
    /// The session's invariant: that of its state.
    pub closed spec fn wf(&self) -> bool {
        self.state.wf()
    }

    /// A well-formed session has a well-formed registry view.
    pub proof fn lemma_wf_view(&self)
        requires
            self.wf(),
        ensures
            self@.state.cluster.wf(),
    {
        self.state.lemma_wf_view();
    }

    /// A session over `state` whose work runs on the engine that `engine` names.
    pub fn new(state: SynapseState, engine: EngineHandle) -> (ctx: SynapseContext)
        requires
            state.wf(),
        ensures
            ctx.wf(),
            ctx@ == (ContextView { state: state@, engine: Some(engine) }),
    {
        SynapseContext { state, engine: Some(engine) }
    }

    /// Makes `catalog` the default catalog, if it is registered. On an error
    /// the session is as it was.
    pub fn use_catalog(&mut self, catalog: &str) -> (r: Result<(), EngineError>)
        requires
            old(self).wf(),
        ensures
            final(self).wf(),
            match (r, old(self)@.use_catalog(catalog@)) {
                (Ok(()), Ok(next)) => final(self)@ == next,
                (Err(e), Err(expected)) => final(self)@ == old(self)@ && e@ == expected,
                _ => false,
            },
    {
        let name: Id = catalog.to_owned();
        if self.state.cluster().catalog(catalog).is_none() {
            return Err(EngineError::CatalogNotFound(name));
        }
        let config = self.state.config().clone().into_builder().default_catalog(name).build();
        self.state.with_config(config);
        Ok(())
    }

    /// Makes `schema` the default schema, if the default catalog is
    /// registered and holds it. On an error the session is as it was.
    pub fn use_schema(&mut self, schema: &str) -> (r: Result<(), EngineError>)
        requires
            old(self).wf(),
        ensures
            final(self).wf(),
            match (r, old(self)@.use_schema(schema@)) {
                (Ok(()), Ok(next)) => final(self)@ == next,
                (Err(e), Err(expected)) => final(self)@ == old(self)@ && e@ == expected,
                _ => false,
            },
    {
        let name: Id = schema.to_owned();
        let catalog: Id = self.state.config().default_catalog().clone();
        if self.state.cluster().catalog(catalog.as_str()).is_none() {
            return Err(EngineError::CatalogNotFound(catalog));
        }
        if self.state.cluster().schema(catalog.as_str(), schema).is_none() {
            return Err(EngineError::SchemaNotFound(name));
        }
        let config = self.state.config().clone().into_builder().default_schema(name).build();
        self.state.with_config(config);
        Ok(())
    }

    /// `CREATE TOPIC`, the name resolved against the session's defaults.
    pub fn create_topic(
        &mut self,
        table: &TableRef,
        info: TopicInfo,
        if_not_exists: bool,
        or_replace: bool,
    ) -> (r: Result<ObjectId, EngineError>)
        requires
            old(self).wf(),
        ensures
            final(self).wf(),
            final(self)@.engine == old(self)@.engine,
            final(self)@.state.config == old(self)@.state.config,
            match (
                r,
                old(self)@.state.cluster.install(
                    old(self)@.state.resolve(table@),
                    Definition::Topic(info),
                    if_not_exists,
                    or_replace,
                ),
            ) {
                (Ok(id), Ok((next, expected))) => final(self)@.state.cluster == next && id
                    == expected,
                (Err(e), Err(expected)) => final(self)@ == old(self)@ && e@ == expected,
                _ => false,
            },
    {
        let name = self.state.resolve(table);
        self.state.create_topic(&name, info, if_not_exists, or_replace)
    }

    /// `CREATE VIEW`, the name resolved against the session's defaults.
    pub fn create_view(
        &mut self,
        table: &TableRef,
        info: ViewInfo,
        if_not_exists: bool,
        or_replace: bool,
    ) -> (r: Result<ObjectId, EngineError>)
        requires
            old(self).wf(),
        ensures
            final(self).wf(),
            final(self)@.engine == old(self)@.engine,
            final(self)@.state.config == old(self)@.state.config,
            match (
                r,
                old(self)@.state.cluster.install(
                    old(self)@.state.resolve(table@),
                    Definition::View(info),
                    if_not_exists,
                    or_replace,
                ),
            ) {
                (Ok(id), Ok((next, expected))) => final(self)@.state.cluster == next && id
                    == expected,
                (Err(e), Err(expected)) => final(self)@ == old(self)@ && e@ == expected,
                _ => false,
            },
    {
        let name = self.state.resolve(table);
        self.state.create_view(&name, info, if_not_exists, or_replace)
    }

    /// `CREATE TABLE`, the name resolved against the session's defaults.
    pub fn create_table(
        &mut self,
        table: &TableRef,
        info: TableInfo,
        if_not_exists: bool,
        or_replace: bool,
    ) -> (r: Result<ObjectId, EngineError>)
        requires
            old(self).wf(),
        ensures
            final(self).wf(),
            final(self)@.engine == old(self)@.engine,
            final(self)@.state.config == old(self)@.state.config,
            match (
                r,
                old(self)@.state.cluster.install(
                    old(self)@.state.resolve(table@),
                    Definition::Table(info),
                    if_not_exists,
                    or_replace,
                ),
            ) {
                (Ok(id), Ok((next, expected))) => final(self)@.state.cluster == next && id
                    == expected,
                (Err(e), Err(expected)) => final(self)@ == old(self)@ && e@ == expected,
                _ => false,
            },
    {
        let name = self.state.resolve(table);
        self.state.create_table(&name, info, if_not_exists, or_replace)
    }

    /// `CREATE SCHEMA`; a reference without a catalog means the default catalog.
    pub fn create_schema(&mut self, schema: &SchemaRef, if_not_exists: bool) -> (r: Result<
        ObjectId,
        EngineError,
    >)
        requires
            old(self).wf(),
        ensures
            final(self).wf(),
            final(self)@.engine == old(self)@.engine,
            final(self)@.state.config == old(self)@.state.config,
            match (
                r,
                old(self)@.state.cluster.create_schema(
                    resolved_schema(schema@, old(self)@.state.config.default_catalog),
                    if_not_exists,
                ),
            ) {
                (Ok(id), Ok((next, expected))) => final(self)@.state.cluster == next && id
                    == expected,
                (Err(e), Err(expected)) => final(self)@ == old(self)@ && e@ == expected,
                _ => false,
            },
    {
        self.state.create_schema(schema, if_not_exists)
    }

    /// `CREATE CATALOG`.
    pub fn create_catalog(&mut self, catalog: &str, if_not_exists: bool) -> (r: Result<
        ObjectId,
        EngineError,
    >)
        requires
            old(self).wf(),
        ensures
            final(self).wf(),
            final(self)@.engine == old(self)@.engine,
            final(self)@.state.config == old(self)@.state.config,
            match (r, old(self)@.state.cluster.create_catalog(catalog@, if_not_exists)) {
                (Ok(id), Ok((next, expected))) => final(self)@.state.cluster == next && id
                    == expected,
                (Err(e), Err(expected)) => final(self)@ == old(self)@ && e@ == expected,
                _ => false,
            },
    {
        self.state.create_catalog(catalog, if_not_exists)
    }

    /// The table that `table` stands for in this session, if there is one.
    pub fn table(&self, table: &TableRef) -> (r: Option<&TableEntry>)
        requires
            self.wf(),
        ensures
            match r {
                Some(entry) => {
                    &&& self@.state.lookup(self@.state.resolve(table@), TableKind::Table) == Some(
                        entry.object,
                    )
                    &&& entry.spec() == self@.state.cluster.tables[self@.state.resolve(table@)]
                    &&& entry.name@ == self@.state.resolve(table@)
                },
                None => self@.state.lookup(self@.state.resolve(table@), TableKind::Table) is None,
            },
    {
        let name = self.state.resolve(table);
        self.state.table(&name)
    }

    /// Takes the engine handle out of its slot. The first call hands out the
    /// engine to tear down; every later call finds the slot empty and hands
    /// out nothing.
    pub fn shutdown(&mut self) -> (engine: Option<EngineHandle>)
        requires
            old(self).wf(),
        ensures
            final(self).wf(),
            (final(self)@, engine) == old(self)@.shutdown(),
    {
        self.engine.take()
    }

    /// Replaces the session's configuration as a whole.
    pub fn with_config(&mut self, config: Config)
        requires
            old(self).wf(),
        ensures
            final(self).wf(),
            final(self)@ == (ContextView {
                state: StateView { config: config@, ..old(self)@.state },
                ..old(self)@
            }),
    {
        self.state.with_config(config);
    }

    /// The table-like object that `table` stands for in this session,
    /// whatever its kind, if there is one.
    pub fn object(&self, table: &TableRef) -> (r: Option<&TableEntry>)
        requires
            self.wf(),
        ensures
            match r {
                Some(entry) => {
                    &&& self@.state.cluster.tables.dom().contains(self@.state.resolve(table@))
                    &&& entry.spec() == self@.state.cluster.tables[self@.state.resolve(table@)]
                    &&& entry.name@ == self@.state.resolve(table@)
                },
                None => !self@.state.cluster.tables.dom().contains(self@.state.resolve(table@)),
            },
    {
        let name = self.state.resolve(table);
        self.state.cluster().table(&name)
    }

    /// Whether the engine handle is still in its slot.
    pub fn is_running(&self) -> (b: bool)
        ensures
            b == self@.engine.is_some(),
    {
        self.engine.is_some()
    }

    /// The session's configuration.
    pub fn config(&self) -> (c: &Config)
        ensures
            c@ == self@.state.config,
    {
        self.state.config()
    }

    /// The registry.
    pub fn cluster(&self) -> (c: &Cluster)
        requires
            self.wf(),
        ensures
            c@ == self@.state.cluster,
            c.wf(),
    {
        self.state.cluster()
    }

    /// The catalog that a reference without one resolves to.
    pub fn default_catalog(&self) -> (name: &Id)
        ensures
            name@ == self@.state.config.default_catalog,
    {
        self.state.config().default_catalog()
    }

    /// The schema that a reference without one resolves to.
    pub fn default_schema(&self) -> (name: &Id)
        ensures
            name@ == self@.state.config.default_schema,
    {
        self.state.config().default_schema()
    }

    /// The session state.
    pub fn state(&self) -> (s: &SynapseState)
        requires
            self.wf(),
        ensures
            s@ == self@.state,
            s.wf(),
    {
        &self.state
    }
}


/// After a `USE CATALOG` that succeeds the default catalog is the one
/// named, and nothing else of the session has changed; it succeeds
/// exactly when the catalog is registered.
pub proof fn lemma_use_catalog(v: ContextView, name: Seq<char>)
    ensures
        v.use_catalog(name) is Ok <==> v.state.cluster.catalogs.dom().contains(name),
        v.use_catalog(name) matches Ok(next) ==> {
            &&& next.state.config.default_catalog == name
            &&& next.state.config.default_schema == v.state.config.default_schema
            &&& next.state.cluster == v.state.cluster
            &&& next.engine == v.engine
        },
        v.use_catalog(name) matches Err(e) ==> e == EngineErrorView::CatalogNotFound(name),
{
}

/// After a `USE SCHEMA` that succeeds the default schema is the one
/// named and the default catalog is as it was; it succeeds exactly when
/// the default catalog is registered and holds the schema.
pub proof fn lemma_use_schema(v: ContextView, name: Seq<char>)
    ensures
        v.use_schema(name) is Ok <==> v.state.cluster.catalogs.dom().contains(
            v.state.config.default_catalog,
        ) && v.state.cluster.schemas.dom().contains((v.state.config.default_catalog, name)),
        v.use_schema(name) matches Ok(next) ==> {
            &&& next.state.config.default_schema == name
            &&& next.state.config.default_catalog == v.state.config.default_catalog
            &&& next.state.cluster == v.state.cluster
            &&& next.engine == v.engine
        },
{
}

/// Shutting down twice tears down once: the second shutdown finds the
/// slot empty, hands out nothing, and leaves the session as the first left it.
pub proof fn lemma_shutdown_idempotent(v: ContextView)
    ensures
        v.shutdown().0.shutdown() == (v.shutdown().0, None::<EngineHandle>),
        v.shutdown().1 == v.engine,
        v.shutdown().0.state == v.state,
{
}

} // verus!
