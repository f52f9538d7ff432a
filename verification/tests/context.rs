use synapse::cluster::{Cluster, Field, TableInfo, TableKind, TopicInfo, ViewInfo};
use synapse::config::{Config, ConfigScope, MIN_TICKET_TTL_SECS};
use synapse::context::{EngineHandle, SynapseContext};
use synapse::engine::Engine;
use synapse::error::{EngineError, StatusCode};
use synapse::registry::{SchemaRef, TableRef};
use synapse::state::SynapseState;

fn session() -> SynapseContext {
    let state = SynapseState::new(Config::new("default", "public"), Cluster::new());
    SynapseContext::new(state, EngineHandle { id: 7 })
}

fn columns() -> Vec<Field> {
    vec![Field::new("a", "Int32", false)]
}

#[test]
fn use_catalog_of_a_missing_catalog_changes_nothing() {
    let mut ctx = session();
    match ctx.use_catalog("missing") {
        Err(EngineError::CatalogNotFound(name)) => assert_eq!(name, "missing"),
        other => panic!("{:?}", other),
    }
    assert_eq!(ctx.default_catalog(), "default");
    assert_eq!(ctx.default_schema(), "public");
}

#[test]
fn use_catalog_then_use_schema() {
    let mut ctx = session();
    ctx.create_catalog("c", false).unwrap();
    ctx.use_catalog("c").unwrap();
    assert_eq!(ctx.default_catalog(), "c");
    match ctx.use_schema("missing") {
        Err(EngineError::SchemaNotFound(name)) => assert_eq!(name, "missing"),
        other => panic!("{:?}", other),
    }
    assert_eq!(ctx.default_catalog(), "c");
    assert_eq!(ctx.default_schema(), "public");
    ctx.create_schema(&SchemaRef::bare("s"), false).unwrap();
    ctx.use_schema("s").unwrap();
    assert_eq!(ctx.default_catalog(), "c");
    assert_eq!(ctx.default_schema(), "s");
    assert_eq!(ctx.config().default_schema(), "s");
}

#[test]
fn use_schema_wants_the_default_catalog_to_exist() {
    let mut ctx = session();
    match ctx.use_schema("public") {
        Err(EngineError::CatalogNotFound(name)) => assert_eq!(name, "default"),
        other => panic!("{:?}", other),
    }
    assert_eq!(ctx.default_schema(), "public");
}

#[test]
fn create_table_resolves_against_the_defaults() {
    let mut ctx = session();
    ctx.create_catalog("c", false).unwrap();
    ctx.create_schema(&SchemaRef::full("c", "s"), false).unwrap();
    ctx.use_catalog("c").unwrap();
    ctx.use_schema("s").unwrap();
    let id = ctx
        .create_table(&TableRef::bare("t"), TableInfo { columns: columns() }, false, false)
        .unwrap();
    let entry = ctx.table(&TableRef::full("c", "s", "t")).unwrap();
    assert_eq!(entry.object, id);
    assert_eq!(ctx.table(&TableRef::bare("t")).unwrap().object, id);
    assert_eq!(ctx.table(&TableRef::parse("s.t").unwrap()).unwrap().object, id);
    assert!(ctx.table(&TableRef::bare("u")).is_none());
    assert_eq!(ctx.cluster().table_names().len(), 1);
}

#[test]
fn create_catalog_if_not_exists_twice_is_one_object() {
    let mut ctx = session();
    let first = ctx.create_catalog("c", true).unwrap();
    let second = ctx.create_catalog("c", true).unwrap();
    assert_eq!(first, second);
    assert_eq!(ctx.cluster().catalog("c"), Some(first));
}

#[test]
fn topics_and_views_are_not_tables() {
    let mut ctx = session();
    ctx.create_catalog("default", false).unwrap();
    ctx.create_schema(&SchemaRef::bare("public"), false).unwrap();
    let topic = ctx
        .create_topic(&TableRef::bare("events"), TopicInfo { columns: columns(), capacity: 4 }, false, false)
        .unwrap();
    let view = ctx
        .create_view(
            &TableRef::bare("recent"),
            ViewInfo { columns: columns(), query: "SELECT a FROM events".into() },
            false,
            false,
        )
        .unwrap();
    assert_ne!(topic, view);
    assert!(ctx.table(&TableRef::bare("events")).is_none());
    assert!(ctx.table(&TableRef::bare("recent")).is_none());
    let found = ctx.object(&TableRef::bare("events")).unwrap();
    assert_eq!(found.object, topic);
    assert_eq!(found.definition.table_kind(), TableKind::Topic);
    let state = ctx.state();
    let name = state.resolve(&TableRef::bare("recent"));
    assert_eq!(state.view_named(&name).unwrap().object, view);
    assert!(state.topic(&name).is_none());
    assert_eq!(state.lookup(&name, TableKind::View).unwrap().object, view);
}

#[test]
fn create_table_in_a_missing_schema() {
    let mut ctx = session();
    match ctx.create_table(&TableRef::bare("t"), TableInfo { columns: columns() }, false, false) {
        Err(EngineError::CatalogNotFound(name)) => assert_eq!(name, "default"),
        other => panic!("{:?}", other),
    }
    ctx.create_catalog("default", false).unwrap();
    match ctx.create_table(&TableRef::bare("t"), TableInfo { columns: columns() }, false, false) {
        Err(EngineError::SchemaNotFound(name)) => assert_eq!(name, "public"),
        other => panic!("{:?}", other),
    }
}

#[test]
fn both_flags_are_refused_and_change_nothing() {
    let mut ctx = session();
    ctx.create_catalog("default", false).unwrap();
    ctx.create_schema(&SchemaRef::bare("public"), false).unwrap();
    // the table does not exist
    match ctx.create_table(&TableRef::bare("t"), TableInfo { columns: columns() }, true, true) {
        Err(EngineError::Configuration(text)) => {
            assert_eq!(text, "if_not_exists and or_replace exclude each other")
        }
        other => panic!("{:?}", other),
    }
    assert!(ctx.table(&TableRef::bare("t")).is_none());
    // the table exists
    let id = ctx
        .create_table(&TableRef::bare("t"), TableInfo { columns: columns() }, false, false)
        .unwrap();
    let wider = TableInfo { columns: vec![Field::new("a", "Int32", false), Field::new("b", "Utf8", true)] };
    assert!(matches!(
        ctx.create_table(&TableRef::bare("t"), wider, true, true),
        Err(EngineError::Configuration(_))
    ));
    let entry = ctx.table(&TableRef::bare("t")).unwrap();
    assert_eq!(entry.object, id);
    assert_eq!(entry.definition.fields().len(), 1);
    // the schema does not exist: the flags are looked at first
    assert!(matches!(
        ctx.create_topic(
            &TableRef::full("default", "missing", "x"),
            TopicInfo { columns: columns(), capacity: 1 },
            true,
            true
        ),
        Err(EngineError::Configuration(_))
    ));
    assert!(matches!(
        ctx.create_view(
            &TableRef::bare("v"),
            ViewInfo { columns: columns(), query: "SELECT 1".into() },
            true,
            true
        ),
        Err(EngineError::Configuration(_))
    ));
    assert_eq!(ctx.cluster().table_names().len(), 1);
}

#[test]
fn shutdown_tears_down_once() {
    let mut ctx = session();
    assert!(ctx.is_running());
    assert_eq!(ctx.shutdown(), Some(EngineHandle { id: 7 }));
    assert!(!ctx.is_running());
    assert_eq!(ctx.shutdown(), None);
    assert_eq!(ctx.shutdown(), None);
    assert_eq!(ctx.default_catalog(), "default");
}

#[test]
fn engine_shutdown_and_topic_lookup() {
    let mut state = SynapseState::new(Config::new("c", "s"), Cluster::new());
    state.create_catalog("c", false).unwrap();
    state.create_schema(&SchemaRef::bare("s"), false).unwrap();
    let name = state.resolve(&TableRef::bare("topic"));
    let id = state
        .create_topic(&name, TopicInfo { columns: columns(), capacity: 2 }, false, false)
        .unwrap();
    let name = state.resolve(&TableRef::bare("t"));
    state.create_table(&name, TableInfo { columns: columns() }, false, false).unwrap();
    let mut engine = Engine::start(state, EngineHandle { id: 1 });
    assert_eq!(engine.topic("c.s.topic").unwrap().object, id);
    assert_eq!(engine.topic("topic").unwrap().object, id);
    match engine.topic("c.s.t") {
        Err(EngineError::TableNotFound(name)) => assert_eq!(name, "c.s.t"),
        other => panic!("{:?}", other),
    }
    match engine.topic("a..b") {
        Err(EngineError::Plan(name)) => assert_eq!(name, "a..b"),
        other => panic!("{:?}", other),
    }
    engine.session_mut().use_schema("s").unwrap();
    assert_eq!(engine.session().default_schema(), "s");
    assert_eq!(engine.shutdown(), Some(EngineHandle { id: 1 }));
    assert_eq!(engine.shutdown(), None);
}

#[test]
fn config_builder_and_scope() {
    let c = Config::new("c", "s");
    assert_eq!(c.dialect(), "generic");
    assert_eq!(c.ticket_ttl_secs(), MIN_TICKET_TTL_SECS);
    assert_eq!(c.ticket_ttl(), MIN_TICKET_TTL_SECS);
    assert_eq!(MIN_TICKET_TTL_SECS, 3600);
    let c = c
        .into_builder()
        .default_catalog("x".into())
        .default_schema("y".into())
        .dialect("postgres".into())
        .ticket_ttl_secs(10)
        .build();
    assert_eq!(c.default_catalog(), "x");
    assert_eq!(c.default_schema(), "y");
    assert_eq!(c.dialect(), "postgres");
    // what was set is kept as it was set; tickets live an hour at least
    assert_eq!(c.ticket_ttl_secs(), 10);
    assert_eq!(c.ticket_ttl(), 3600);
    let c = c.clone().into_builder().ticket_ttl_secs(7200).build();
    assert_eq!(c.ticket_ttl_secs(), 7200);
    assert_eq!(c.ticket_ttl(), 7200);
    assert_eq!(ConfigScope::from_global(true), ConfigScope::Cluster);
    assert_eq!(ConfigScope::from_global(false), ConfigScope::Connection);
    assert_eq!(ConfigScope::Cluster.to_wire(), 0);
    assert_eq!(ConfigScope::Connection.to_wire(), 1);
    assert_eq!(ConfigScope::from_wire(0), Some(ConfigScope::Cluster));
    assert_eq!(ConfigScope::from_wire(1), Some(ConfigScope::Connection));
    assert_eq!(ConfigScope::from_wire(2), None);
    assert_eq!(ConfigScope::from_wire(-1), None);
}

#[test]
fn engine_errors_map_to_status_codes() {
    assert_eq!(EngineError::CatalogNotFound("c".into()).status_code(), StatusCode::NotFound);
    assert_eq!(EngineError::SchemaNotFound("s".into()).status_code(), StatusCode::NotFound);
    assert_eq!(EngineError::TableNotFound("t".into()).status_code(), StatusCode::NotFound);
    assert_eq!(EngineError::AlreadyExists("t".into()).status_code(), StatusCode::AlreadyExists);
    assert_eq!(EngineError::Plan("p".into()).status_code(), StatusCode::InvalidArgument);
    assert_eq!(EngineError::Unimplemented("u".into()).status_code(), StatusCode::Unimplemented);
    assert_eq!(EngineError::Configuration("c".into()).status_code(), StatusCode::InvalidArgument);
    assert_eq!(EngineError::Exhausted("e".into()).status_code(), StatusCode::Internal);
}
