//! The engine service: the control plane beside the SQL surface. It
//! creates catalogs, schemas and tables, looks tables up, and reads and
//! sets the configuration of the cluster or of the calling connection.
//!
//! The connections of a cluster share its registry and each have their own
//! configuration. A connection is known by a number; before a statement of
//! a connection runs, `enter` gives the session that connection's
//! configuration.

use crate::cluster::{clone_fields, Definition, TableInfo, TableKind};
use crate::config::{Config, ConfigScope, ConfigView};
use crate::context::SynapseContext;
use crate::flight::{error_code, error_text, status_of, FlightStatus};
use crate::keyed::{
    distinct_keys, lemma_absent, lemma_pair_at, lemma_pairs_empty, lemma_pairs_push,
    lemma_pairs_remove, lemma_pairs_update, pairs_map,
};
use crate::registry::{resolved_schema, SchemaRef, TableRef, TableRefView};
use vstd::prelude::*;

verus! {

/// The control plane of a cluster: the configuration that new sessions
/// start from, and the configuration of each connection that has set one.
#[derive(Debug)]
pub struct EngineService {
    defaults: Config,
    sessions: Vec<SessionConfig>,
}

#[derive(Debug)]
struct SessionConfig {
    connection: u64,
    config: Config,
}

/// The answer to `GetTable` and `CreateTable`: the resolved reference and
/// the info of the table, both there or both left out.
#[derive(Debug)]
pub struct TableReply {
    pub table: Option<TableRef>,
    pub info: Option<TableInfo>,
}

/// What an [`EngineService`] holds, as plain values: the cluster's
/// defaults, and the configurations of the connections by their number.
pub struct ConfigsView {
    pub defaults: ConfigView,
    pub sessions: Map<u64, ConfigView>,
}

closed spec fn session_pairs(s: Seq<SessionConfig>) -> Seq<(u64, ConfigView)> {
    Seq::new(s.len(), |i: int| (s[i].connection, s[i].config@))
}

impl View for EngineService {
    type V = ConfigsView;

    closed spec fn view(&self) -> ConfigsView {
        ConfigsView {
            defaults: self.defaults@,
            sessions: pairs_map(session_pairs(self.sessions@)),
        }
    }
}

impl ConfigsView {
    /// The configuration of a connection: the one it has set, or the
    /// cluster's defaults where it has set none.
    pub open spec fn session(self, connection: u64) -> ConfigView {
        if self.sessions.dom().contains(connection) {
            self.sessions[connection]
        } else {
            self.defaults
        }
    }

    /// The configuration that `scope` addresses for a connection.
    pub open spec fn get(self, connection: u64, scope: ConfigScope) -> ConfigView {
        match scope {
            ConfigScope::Cluster => self.defaults,
            ConfigScope::Connection => self.session(connection),
        }
    }

    /// The configurations after `config` was set at `scope` by a connection.
    pub open spec fn set(self, connection: u64, scope: ConfigScope, config: ConfigView) -> ConfigsView {
        match scope {
            ConfigScope::Cluster => ConfigsView { defaults: config, ..self },
            ConfigScope::Connection => ConfigsView {
                sessions: self.sessions.insert(connection, config),
                ..self
            },
        }
    }
}

/// Reading a scope after setting it yields what was set.
pub proof fn lemma_set_then_get(
    v: ConfigsView,
    connection: u64,
    scope: ConfigScope,
    config: ConfigView,
)
    ensures
        v.set(connection, scope, config).get(connection, scope) == config,
{
}

/// Setting the configuration of a connection changes neither the
/// cluster's defaults nor what another connection has set, and setting the
/// cluster's defaults changes no configuration that a connection has set.
pub proof fn lemma_scopes_are_apart(
    v: ConfigsView,
    connection: u64,
    other: u64,
    config: ConfigView,
)
    requires
        connection != other,
    ensures
        v.set(connection, ConfigScope::Connection, config).defaults == v.defaults,
        v.sessions.dom().contains(other) ==> v.set(
            connection,
            ConfigScope::Connection,
            config,
        ).session(other) == v.session(other),
        v.sessions.dom().contains(other) ==> v.set(connection, ConfigScope::Cluster, config).session(
            other,
        ) == v.session(other),
        !v.sessions.dom().contains(other) ==> v.set(connection, ConfigScope::Cluster, config).session(
            other,
        ) == config,
{
}

impl EngineService {
    /// The service's invariant: no connection is listed twice.
    pub closed spec fn wf(&self) -> bool {
        distinct_keys(session_pairs(self.sessions@))
    }

    /// A control plane whose sessions start from `defaults`.
    pub fn new(defaults: Config) -> (service: EngineService)
        ensures
            service.wf(),
            service@.defaults == defaults@,
            service@.sessions == Map::<u64, ConfigView>::empty(),
    {
        let service = EngineService { defaults, sessions: Vec::new() };
        proof {
            lemma_pairs_empty(session_pairs(service.sessions@));
        }
        service
    }

    fn find(&self, connection: u64) -> (r: Option<usize>)
        requires
            self.wf(),
        ensures
            match r {
                Some(i) => {
                    &&& i < self.sessions.len()
                    &&& self.sessions[i as int].connection == connection
                    &&& self@.sessions.dom().contains(connection)
                    &&& self@.sessions[connection] == self.sessions[i as int].config@
                },
                None => !self@.sessions.dom().contains(connection),
            },
    {
        let mut i: usize = 0;
        while i < self.sessions.len()
            invariant
                self.wf(),
                i <= self.sessions.len(),
                forall|j: int| 0 <= j < i ==> self.sessions[j].connection != connection,
            decreases self.sessions.len() - i,
        {
            if self.sessions[i].connection == connection {
                proof {
                    lemma_pair_at(session_pairs(self.sessions@), i as int);
                }
                return Some(i);
            }
            i = i + 1;
        }
        proof {
            lemma_absent(session_pairs(self.sessions@), connection);
        }
        None
    }

    /// The configuration of a connection.
    pub fn session_config(&self, connection: u64) -> (config: Config)
        requires
            self.wf(),
        ensures
            config@ == self@.session(connection),
    {
        match self.find(connection) {
            Some(i) => self.sessions[i].config.clone(),
            None => self.defaults.clone(),
        }
    }

    /// Gives the session the configuration of a connection, for the
    /// statements of that connection to run under. The registry and the
    /// engine are as they were.
    pub fn enter(&self, session: &mut SynapseContext, connection: u64)
        requires
            self.wf(),
            old(session).wf(),
        ensures
            final(session).wf(),
            final(session)@.state.config == self@.session(connection),
            final(session)@.state.cluster == old(session)@.state.cluster,
            final(session)@.engine == old(session)@.engine,
    {
        session.with_config(self.session_config(connection));
    }

    /// Keeps the configuration that the session has now as that of a
    /// connection, after a statement of the connection has changed it.
    pub fn leave(&mut self, session: &SynapseContext, connection: u64)
        requires
            old(self).wf(),
        ensures
            final(self).wf(),
            final(self)@ == old(self)@.set(
                connection,
                ConfigScope::Connection,
                session@.state.config,
            ),
    {
        self.set_config(connection, ConfigScope::Connection, session.config().clone());
    }

    /// `SetConfig`: replaces the cluster's defaults or the configuration
    /// of the connection, as `scope` says, and leaves the other one alone.
    pub fn set_config(&mut self, connection: u64, scope: ConfigScope, config: Config)
        requires
            old(self).wf(),
        ensures
            final(self).wf(),
            final(self)@ == old(self)@.set(connection, scope, config@),
    {
        match scope {
            ConfigScope::Cluster => {
                self.defaults = config;
            },
            ConfigScope::Connection => {
                match self.find(connection) {
                    Some(i) => {
                        let entry = SessionConfig { connection, config };
                        proof {
                            lemma_pairs_update(session_pairs(self.sessions@), i as int, config@);
                            assert(session_pairs(self.sessions@.update(i as int, entry))
                                =~= session_pairs(self.sessions@).update(
                                i as int,
                                (connection, config@),
                            ));
                        }
                        self.sessions.set(i, entry);
                    },
                    None => {
                        let entry = SessionConfig { connection, config };
                        proof {
                            lemma_pairs_push(session_pairs(self.sessions@), connection, config@);
                            assert(session_pairs(self.sessions@.push(entry)) =~= session_pairs(
                                self.sessions@,
                            ).push((connection, config@)));
                        }
                        self.sessions.push(entry);
                    },
                }
            },
        }
    }

    /// `GetConfig`: the cluster's defaults or the configuration of the
    /// connection, as `scope` says.
    pub fn get_config(&self, connection: u64, scope: ConfigScope) -> (config: Config)
        requires
            self.wf(),
        ensures
            config@ == self@.get(connection, scope),
    {
        match scope {
            ConfigScope::Cluster => self.defaults.clone(),
            ConfigScope::Connection => self.session_config(connection),
        }
    }

    /// Forgets what a connection has set: the connection is closed.
    pub fn close(&mut self, connection: u64)
        requires
            old(self).wf(),
        ensures
            final(self).wf(),
            final(self)@ == (ConfigsView {
                sessions: old(self)@.sessions.remove(connection),
                ..old(self)@
            }),
    {
        match self.find(connection) {
            Some(i) => {
                proof {
                    lemma_pairs_remove(session_pairs(self.sessions@), i as int);
                    assert(session_pairs(self.sessions@.remove(i as int)) =~= session_pairs(
                        self.sessions@,
                    ).remove(i as int));
                }
                self.sessions.remove(i);
            },
            None => {
                assert(self@.sessions.remove(connection) =~= self@.sessions);
            },
        }
    }

    /// `CreateCatalog`.
    pub fn create_catalog(&self, session: &mut SynapseContext, name: &str, if_not_exists: bool) -> (r:
        Result<(), FlightStatus>)
        requires
            old(session).wf(),
        ensures
            final(session).wf(),
            final(session)@.engine == old(session)@.engine,
            final(session)@.state.config == old(session)@.state.config,
            match (r, old(session)@.state.cluster.create_catalog(name@, if_not_exists)) {
                (Ok(()), Ok((next, _))) => final(session)@.state.cluster == next,
                (Err(status), Err(e)) => final(session)@ == old(session)@ && status.code
                    == error_code(e) && status.message@ == error_text(e),
                _ => false,
            },
    {
        match session.create_catalog(name, if_not_exists) {
            Ok(_) => Ok(()),
            Err(e) => Err(status_of(e)),
        }
    }

    /// `CreateSchema`; a request without a catalog means the session's default catalog.
    pub fn create_schema(
        &self,
        session: &mut SynapseContext,
        schema: &SchemaRef,
        if_not_exists: bool,
    ) -> (r: Result<(), FlightStatus>)
        requires
            old(session).wf(),
        ensures
            final(session).wf(),
            final(session)@.engine == old(session)@.engine,
            final(session)@.state.config == old(session)@.state.config,
            match (
                r,
                old(session)@.state.cluster.create_schema(
                    resolved_schema(schema@, old(session)@.state.config.default_catalog),
                    if_not_exists,
                ),
            ) {
                (Ok(()), Ok((next, _))) => final(session)@.state.cluster == next,
                (Err(status), Err(e)) => final(session)@ == old(session)@ && status.code
                    == error_code(e) && status.message@ == error_text(e),
                _ => false,
            },
    {
        match session.create_schema(schema, if_not_exists) {
            Ok(_) => Ok(()),
            Err(e) => Err(status_of(e)),
        }
    }

    /// `CreateTable`: registers the table and answers with its resolved
    /// reference and the columns of the object that the name stands for
    /// afterwards. A request that sets both flags is refused with
    /// `InvalidArgument`, as the rules of `CREATE` have it.
    pub fn create_table(
        &self,
        session: &mut SynapseContext,
        table: &TableRef,
        info: TableInfo,
        if_not_exists: bool,
        or_replace: bool,
    ) -> (r: Result<TableReply, FlightStatus>)
        requires
            old(session).wf(),
        ensures
            final(session).wf(),
            final(session)@.engine == old(session)@.engine,
            final(session)@.state.config == old(session)@.state.config,
            ({
                let key = old(session)@.state.resolve(table@);
                match (
                    r,
                    old(session)@.state.cluster.install(
                        key,
                        Definition::Table(info),
                        if_not_exists,
                        or_replace,
                    ),
                ) {
                    (Ok(reply), Ok((next, _))) => {
                        &&& final(session)@.state.cluster == next
                        &&& reply.table matches Some(named)
                        &&& named@ == (TableRefView {
                            catalog: Some(key.0),
                            schema: Some(key.1),
                            table: key.2,
                        })
                        &&& reply.info matches Some(echoed)
                        &&& echoed.columns@ == next.tables[key].definition.columns()
                    },
                    (Err(status), Err(e)) => final(session)@ == old(session)@ && status.code
                        == error_code(e) && status.message@ == error_text(e),
                    _ => false,
                }
            }),
    {
        match session.create_table(table, info, if_not_exists, or_replace) {
            Ok(_) => {
                match session.object(table) {
                    Some(entry) => Ok(
                        TableReply {
                            table: Some(entry.name.to_table_ref()),
                            info: Some(
                                TableInfo { columns: clone_fields(entry.definition.fields()) },
                            ),
                        },
                    ),
                    None => {
                        assert(false);
                        Ok(TableReply { table: None, info: None })
                    },
                }
            },
            Err(e) => Err(status_of(e)),
        }
    }

    /// `GetTable`: the resolved reference and the columns of the table,
    /// both left out where the name stands for no table.
    pub fn get_table(&self, session: &SynapseContext, table: &TableRef) -> (reply: TableReply)
        requires
            session.wf(),
        ensures
            reply.table is Some <==> reply.info is Some,
            reply.table is Some <==> session@.state.lookup(
                session@.state.resolve(table@),
                TableKind::Table,
            ) is Some,
            reply.table matches Some(named) ==> named@ == (TableRefView {
                catalog: Some(session@.state.resolve(table@).0),
                schema: Some(session@.state.resolve(table@).1),
                table: session@.state.resolve(table@).2,
            }),
            reply.info matches Some(info) ==> info.columns@
                == session@.state.cluster.tables[session@.state.resolve(
                table@,
            )].definition.columns(),
    {
        match session.table(table) {
            Some(entry) => TableReply {
                table: Some(entry.name.to_table_ref()),
                info: Some(TableInfo { columns: clone_fields(entry.definition.fields()) }),
            },
            None => TableReply { table: None, info: None },
        }
    }
}

} // verus!
