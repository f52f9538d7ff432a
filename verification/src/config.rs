//! Session configuration and the scope a configuration change applies to.

use crate::registry::Id;
use vstd::prelude::*;

verus! {

/// The shortest time, in seconds, that an unused ticket is kept.
pub const MIN_TICKET_TTL_SECS: u64 = 3600;

/// The configuration of a session: the namespace defaults that relative
/// references resolve against, and the engine's knobs.
#[derive(Debug)]
pub struct Config {
    default_catalog: Id,
    default_schema: Id,
    dialect: String,
    ticket_ttl_secs: u64,
}

/// What a [`Config`] says, as plain values.
pub struct ConfigView {
    pub default_catalog: Seq<char>,
    pub default_schema: Seq<char>,
    pub dialect: Seq<char>,
    pub ticket_ttl_secs: u64,
}

/// A configuration under change; `build` hands out the result.
#[derive(Debug)]
pub struct ConfigBuilder {
    config: Config,
}

impl View for Config {
    type V = ConfigView;

    closed spec fn view(&self) -> ConfigView {
        ConfigView {
            default_catalog: self.default_catalog@,
            default_schema: self.default_schema@,
            dialect: self.dialect@,
            ticket_ttl_secs: self.ticket_ttl_secs,
        }
    }
}

impl View for ConfigBuilder {
    type V = ConfigView;

    closed spec fn view(&self) -> ConfigView {
        self.config@
    }
}

impl ConfigView {
    /// The time an unused ticket is kept under this configuration: what it
    /// asks for, and never less than the minimum.
    pub open spec fn ticket_ttl(self) -> u64 {
        if self.ticket_ttl_secs < MIN_TICKET_TTL_SECS {
            MIN_TICKET_TTL_SECS
        } else {
            self.ticket_ttl_secs
        }
    }
}

impl Clone for Config {
    fn clone(&self) -> (copy: Self)
        ensures
            copy@ == self@,
    {
        Config {
            default_catalog: self.default_catalog.clone(),
            default_schema: self.default_schema.clone(),
            dialect: self.dialect.clone(),
            ticket_ttl_secs: self.ticket_ttl_secs,
        }
    }
}

impl Config {
    /// A configuration with the given namespace defaults, the generic SQL
    /// dialect and the minimum ticket lifetime.
    pub fn new(default_catalog: &str, default_schema: &str) -> (c: Config)
        ensures
            c@ == (ConfigView {
                default_catalog: default_catalog@,
                default_schema: default_schema@,
                dialect: "generic"@,
                ticket_ttl_secs: MIN_TICKET_TTL_SECS,
            }),
    {
        Config {
            default_catalog: default_catalog.to_owned(),
            default_schema: default_schema.to_owned(),
            dialect: "generic".to_owned(),
            ticket_ttl_secs: MIN_TICKET_TTL_SECS,
        }
    }

    /// The catalog that a reference without one resolves to.
    pub fn default_catalog(&self) -> (name: &Id)
        ensures
            name@ == self@.default_catalog,
    {
        &self.default_catalog
    }

    /// The schema that a reference without one resolves to.
    pub fn default_schema(&self) -> (name: &Id)
        ensures
            name@ == self@.default_schema,
    {
        &self.default_schema
    }

    /// The name of the SQL dialect that statements are parsed in.
    pub fn dialect(&self) -> (name: &String)
        ensures
            name@ == self@.dialect,
    {
        &self.dialect
    }

    /// The time, in seconds, that the configuration asks unused tickets to
    /// be kept for, as it was set.
    pub fn ticket_ttl_secs(&self) -> (secs: u64)
        ensures
            secs == self@.ticket_ttl_secs,
    {
        self.ticket_ttl_secs
    }

    /// The time, in seconds, that an unused ticket is kept: what the
    /// configuration asks for, and never less than the minimum.
    pub fn ticket_ttl(&self) -> (secs: u64)
        ensures
            secs == self@.ticket_ttl(),
            secs >= MIN_TICKET_TTL_SECS,
    {
        if self.ticket_ttl_secs < MIN_TICKET_TTL_SECS {
            MIN_TICKET_TTL_SECS
        } else {
            self.ticket_ttl_secs
        }
    }

    /// Starts a change of this configuration.
    pub fn into_builder(self) -> (b: ConfigBuilder)
        ensures
            b@ == self@,
    {
        ConfigBuilder { config: self }
    }
}

impl ConfigBuilder {
    /// Sets the default catalog.
    pub fn default_catalog(self, name: Id) -> (b: ConfigBuilder)
        ensures
            b@ == (ConfigView { default_catalog: name@, ..self@ }),
    {
        let mut config = self.config;
        config.default_catalog = name;
        ConfigBuilder { config }
    }

    /// Sets the default schema.
    pub fn default_schema(self, name: Id) -> (b: ConfigBuilder)
        ensures
            b@ == (ConfigView { default_schema: name@, ..self@ }),
    {
        let mut config = self.config;
        config.default_schema = name;
        ConfigBuilder { config }
    }

    /// Sets the SQL dialect.
    pub fn dialect(self, name: String) -> (b: ConfigBuilder)
        ensures
            b@ == (ConfigView { dialect: name@, ..self@ }),
    {
        let mut config = self.config;
        config.dialect = name;
        ConfigBuilder { config }
    }

    /// Sets the time that an unused ticket is kept.
    pub fn ticket_ttl_secs(self, secs: u64) -> (b: ConfigBuilder)
        ensures
            b@ == (ConfigView { ticket_ttl_secs: secs, ..self@ }),
    {
        let mut config = self.config;
        config.ticket_ttl_secs = secs;
        ConfigBuilder { config }
    }

    /// The configuration as changed.
    pub fn build(self) -> (c: Config)
        ensures
            c@ == self@,
    {
        self.config
    }
}

/// Which configuration a `SetConfig` / `GetConfig` call addresses.
#[derive(Clone, Copy, Debug, PartialEq, Eq, Structural)]
pub enum ConfigScope {
    /// The cluster-wide defaults that new sessions start from.
    Cluster,
    /// The calling session only.
    Connection,
}

impl ConfigScope {
    /// The number that stands for the scope on the wire.
    pub open spec fn wire(self) -> int {
        match self {
            ConfigScope::Cluster => 0,
            ConfigScope::Connection => 1,
        }
    }

    /// The scope a client addresses: the cluster when `global`, else its own connection.
    pub fn from_global(global: bool) -> (scope: ConfigScope)
        ensures
            scope == (if global { ConfigScope::Cluster } else { ConfigScope::Connection }),
    {
        if global {
            ConfigScope::Cluster
        } else {
            ConfigScope::Connection
        }
    }

    /// The wire number of the scope.
    pub fn to_wire(self) -> (n: i32)
        ensures
            n == self.wire(),
    {
        match self {
            ConfigScope::Cluster => 0,
            ConfigScope::Connection => 1,
        }
    }

    /// The scope that a wire number stands for, if any.
    pub fn from_wire(n: i32) -> (scope: Option<ConfigScope>)
        ensures
            scope matches Some(s) ==> s.wire() == n,
            scope is None <==> (n != 0 && n != 1),
    {
        if n == 0 {
            Some(ConfigScope::Cluster)
        } else if n == 1 {
            Some(ConfigScope::Connection)
        } else {
            None
        }
    }
}

} // verus!
