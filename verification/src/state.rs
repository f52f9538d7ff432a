//! The state of one session: its configuration and the registry it works on.

use crate::cluster::{
    Cluster, ClusterView, Definition, ObjectId, TableEntry, TableInfo, TableKind, TopicInfo,
    ViewInfo,
};
use crate::config::{Config, ConfigView};
use crate::error::EngineError;
use crate::registry::{
    resolved_schema, resolved_table, ResolvedRef, ResolvedSchema, SchemaRef, TableKey, TableRef,
    TableRefView,
};
use vstd::prelude::*;

verus! {

/// A session's configuration together with the registry.
#[derive(Debug)]
pub struct SynapseState {
    config: Config,
    cluster: Cluster,
}

/// What a [`SynapseState`] holds, as plain values.
pub struct StateView {
    pub config: ConfigView,
    pub cluster: ClusterView,
}

impl View for SynapseState {
    type V = StateView;

    closed spec fn view(&self) -> StateView {
        StateView { config: self.config@, cluster: self.cluster@ }
    }
}

impl StateView {
    /// The fully qualified name that `table` stands for in this session.
    pub open spec fn resolve(self, table: TableRefView) -> TableKey {
        resolved_table(table, self.config.default_catalog, self.config.default_schema)
    }

    /// The object registered under `key`, if it is of kind `kind`.
    pub open spec fn lookup(self, key: TableKey, kind: TableKind) -> Option<ObjectId> {
        if self.cluster.tables.dom().contains(key) && self.cluster.tables[key].definition.kind()
            == kind {
            Some(self.cluster.tables[key].object)
        } else {
            None
        }
    }
}

impl SynapseState {
    /// The state's invariant: that of its registry.
    pub closed spec fn wf(&self) -> bool {
        self.cluster.wf()
    }

    /// A well-formed state has a well-formed registry view.
    pub proof fn lemma_wf_view(&self)
        requires
            self.wf(),
        ensures
            self@.cluster.wf(),
    {
        self.cluster.lemma_wf_view();
    }

    /// A session state over the given registry.
    pub fn new(config: Config, cluster: Cluster) -> (s: SynapseState)
        requires
            cluster.wf(),
        ensures
            s.wf(),
            s@ == (StateView { config: config@, cluster: cluster@ }),
    {
        SynapseState { config, cluster }
    }

    /// The session's configuration.
    pub fn config(&self) -> (c: &Config)
        ensures
            c@ == self@.config,
    {
        &self.config
    }

    /// The registry.
    pub fn cluster(&self) -> (c: &Cluster)
        requires
            self.wf(),
        ensures
            c@ == self@.cluster,
            c.wf(),
    {
        &self.cluster
    }

    /// Replaces the session's configuration as a whole.
    pub fn with_config(&mut self, config: Config)
        requires
            old(self).wf(),
        ensures
            final(self).wf(),
            final(self)@ == (StateView { config: config@, ..old(self)@ }),
    {
        self.config = config;
    }

    /// The fully qualified name that `table` stands for in this session.
    pub fn resolve(&self, table: &TableRef) -> (r: ResolvedRef)
        ensures
            r@ == self@.resolve(table@),
    {
        table.resolve(self.config.default_catalog(), self.config.default_schema())
    }

    /// The fully qualified name that `schema` stands for in this session.
    pub fn resolve_schema(&self, schema: &SchemaRef) -> (r: ResolvedSchema)
        ensures
            r@ == resolved_schema(schema@, self@.config.default_catalog),
    {
        schema.resolve(self.config.default_catalog())
    }

    /// `CREATE CATALOG`.
    pub fn create_catalog(&mut self, name: &str, if_not_exists: bool) -> (r: Result<
        ObjectId,
        EngineError,
    >)
        requires
            old(self).wf(),
        ensures
            final(self).wf(),
            final(self)@.config == old(self)@.config,
            match (r, old(self)@.cluster.create_catalog(name@, if_not_exists)) {
                (Ok(id), Ok((next, expected))) => final(self)@.cluster == next && id == expected,
                (Err(e), Err(expected)) => final(self)@ == old(self)@ && e@ == expected,
                _ => false,
            },
    {
        self.cluster.create_catalog(name, if_not_exists)
    }

    /// `CREATE SCHEMA`; a reference without a catalog means the default catalog.
    pub fn create_schema(&mut self, schema: &SchemaRef, if_not_exists: bool) -> (r: Result<
        ObjectId,
        EngineError,
    >)
        requires
            old(self).wf(),
        ensures
            final(self).wf(),
            final(self)@.config == old(self)@.config,
            match (
                r,
                old(self)@.cluster.create_schema(
                    resolved_schema(schema@, old(self)@.config.default_catalog),
                    if_not_exists,
                ),
            ) {
                (Ok(id), Ok((next, expected))) => final(self)@.cluster == next && id == expected,
                (Err(e), Err(expected)) => final(self)@ == old(self)@ && e@ == expected,
                _ => false,
            },
    {
        let resolved = self.resolve_schema(schema);
        self.cluster.create_schema(&resolved, if_not_exists)
    }

    /// Registers a table-like object under a fully qualified name.
    pub fn install(
        &mut self,
        name: &ResolvedRef,
        definition: Definition,
        if_not_exists: bool,
        or_replace: bool,
    ) -> (r: Result<ObjectId, EngineError>)
        requires
            old(self).wf(),
        ensures
            final(self).wf(),
            final(self)@.config == old(self)@.config,
            match (r, old(self)@.cluster.install(name@, definition, if_not_exists, or_replace)) {
                (Ok(id), Ok((next, expected))) => final(self)@.cluster == next && id == expected,
                (Err(e), Err(expected)) => final(self)@ == old(self)@ && e@ == expected,
                _ => false,
            },
    {
        self.cluster.install(name, definition, if_not_exists, or_replace)
    }

    /// `CREATE TABLE`.
    pub fn create_table(
        &mut self,
        name: &ResolvedRef,
        info: TableInfo,
        if_not_exists: bool,
        or_replace: bool,
    ) -> (r: Result<ObjectId, EngineError>)
        requires
            old(self).wf(),
        ensures
            final(self).wf(),
            final(self)@.config == old(self)@.config,
            match (
                r,
                old(self)@.cluster.install(
                    name@,
                    Definition::Table(info),
                    if_not_exists,
                    or_replace,
                ),
            ) {
                (Ok(id), Ok((next, expected))) => final(self)@.cluster == next && id == expected,
                (Err(e), Err(expected)) => final(self)@ == old(self)@ && e@ == expected,
                _ => false,
            },
    {
        self.cluster.install(name, Definition::Table(info), if_not_exists, or_replace)
    }

    /// `CREATE TOPIC`.
    pub fn create_topic(
        &mut self,
        name: &ResolvedRef,
        info: TopicInfo,
        if_not_exists: bool,
        or_replace: bool,
    ) -> (r: Result<ObjectId, EngineError>)
        requires
            old(self).wf(),
        ensures
            final(self).wf(),
            final(self)@.config == old(self)@.config,
            match (
                r,
                old(self)@.cluster.install(
                    name@,
                    Definition::Topic(info),
                    if_not_exists,
                    or_replace,
                ),
            ) {
                (Ok(id), Ok((next, expected))) => final(self)@.cluster == next && id == expected,
                (Err(e), Err(expected)) => final(self)@ == old(self)@ && e@ == expected,
                _ => false,
            },
    {
        self.cluster.install(name, Definition::Topic(info), if_not_exists, or_replace)
    }

    /// `CREATE VIEW`.
    pub fn create_view(
        &mut self,
        name: &ResolvedRef,
        info: ViewInfo,
        if_not_exists: bool,
        or_replace: bool,
    ) -> (r: Result<ObjectId, EngineError>)
        requires
            old(self).wf(),
        ensures
            final(self).wf(),
            final(self)@.config == old(self)@.config,
            match (
                r,
                old(self)@.cluster.install(
                    name@,
                    Definition::View(info),
                    if_not_exists,
                    or_replace,
                ),
            ) {
                (Ok(id), Ok((next, expected))) => final(self)@.cluster == next && id == expected,
                (Err(e), Err(expected)) => final(self)@ == old(self)@ && e@ == expected,
                _ => false,
            },
    {
        self.cluster.install(name, Definition::View(info), if_not_exists, or_replace)
    }

    /// The object registered under `name`, if it is of kind `kind`.
    pub fn lookup(&self, name: &ResolvedRef, kind: TableKind) -> (r: Option<&TableEntry>)
        requires
            self.wf(),
        ensures
            match r {
                Some(entry) => {
                    &&& self@.lookup(name@, kind) == Some(entry.object)
                    &&& entry.spec() == self@.cluster.tables[name@]
                    &&& entry.name@ == name@
                },
                None => self@.lookup(name@, kind) is None,
            },
    {
        match self.cluster.table(name) {
            Some(entry) => {
                if entry.definition.table_kind() == kind {
                    Some(entry)
                } else {
                    None
                }
            },
            None => None,
        }
    }

    /// The table registered under `name`, if there is one.
    pub fn table(&self, name: &ResolvedRef) -> (r: Option<&TableEntry>)
        requires
            self.wf(),
        ensures
            match r {
                Some(entry) => {
                    &&& self@.lookup(name@, TableKind::Table) == Some(entry.object)
                    &&& entry.spec() == self@.cluster.tables[name@]
                    &&& entry.name@ == name@
                },
                None => self@.lookup(name@, TableKind::Table) is None,
            },
    {
        self.lookup(name, TableKind::Table)
    }

    /// The topic registered under `name`, if there is one.
    pub fn topic(&self, name: &ResolvedRef) -> (r: Option<&TableEntry>)
        requires
            self.wf(),
        ensures
            match r {
                Some(entry) => {
                    &&& self@.lookup(name@, TableKind::Topic) == Some(entry.object)
                    &&& entry.spec() == self@.cluster.tables[name@]
                    &&& entry.name@ == name@
                },
                None => self@.lookup(name@, TableKind::Topic) is None,
            },
    {
        self.lookup(name, TableKind::Topic)
    }

    /// The view registered under `name`, if there is one.
    pub fn view_named(&self, name: &ResolvedRef) -> (r: Option<&TableEntry>)
        requires
            self.wf(),
        ensures
            match r {
                Some(entry) => {
                    &&& self@.lookup(name@, TableKind::View) == Some(entry.object)
                    &&& entry.spec() == self@.cluster.tables[name@]
                    &&& entry.name@ == name@
                },
                None => self@.lookup(name@, TableKind::View) is None,
            },
    {
        self.lookup(name, TableKind::View)
    }
}

} // verus!
