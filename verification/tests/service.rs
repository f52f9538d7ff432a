use synapse::cluster::{Cluster, Field, TableInfo, ViewInfo};
use synapse::config::{Config, ConfigScope};
use synapse::context::{EngineHandle, SynapseContext};
use synapse::error::StatusCode;
use synapse::registry::{SchemaRef, TableRef};
use synapse::service::EngineService;
use synapse::state::SynapseState;

fn session() -> SynapseContext {
    let state = SynapseState::new(Config::new("c", "s"), Cluster::new());
    SynapseContext::new(state, EngineHandle { id: 1 })
}

fn info() -> TableInfo {
    TableInfo { columns: vec![Field::new("a", "Int32", false)] }
}

fn same(a: &Config, b: &Config) -> bool {
    a.default_catalog() == b.default_catalog()
        && a.default_schema() == b.default_schema()
        && a.dialect() == b.dialect()
        && a.ticket_ttl_secs() == b.ticket_ttl_secs()
}

#[test]
fn set_config_then_get_config() {
    let mut service = EngineService::new(Config::new("c", "s"));
    let wanted = Config::new("x", "y").into_builder().dialect("mysql".into()).build();
    service.set_config(1, ConfigScope::Connection, wanted.clone());
    assert!(same(&service.get_config(1, ConfigScope::Connection), &wanted));
    assert!(same(&service.get_config(1, ConfigScope::Cluster), &Config::new("c", "s")));
    let global = Config::new("g", "h").into_builder().ticket_ttl_secs(9999).build();
    service.set_config(1, ConfigScope::Cluster, global.clone());
    assert!(same(&service.get_config(1, ConfigScope::Cluster), &global));
    assert!(same(&service.get_config(1, ConfigScope::Connection), &wanted));
    let again = Config::new("x2", "y2");
    service.set_config(1, ConfigScope::Connection, again.clone());
    assert!(same(&service.get_config(1, ConfigScope::Connection), &again));
}

#[test]
fn connections_have_their_own_configuration() {
    let mut service = EngineService::new(Config::new("c", "s"));
    let first = Config::new("one", "s");
    let second = Config::new("two", "s");
    service.set_config(1, ConfigScope::Connection, first.clone());
    service.set_config(2, ConfigScope::Connection, second.clone());
    assert!(same(&service.get_config(1, ConfigScope::Connection), &first));
    assert!(same(&service.get_config(2, ConfigScope::Connection), &second));
    // a connection that has set nothing reads the cluster's defaults
    assert!(same(&service.get_config(3, ConfigScope::Connection), &Config::new("c", "s")));
    let global = Config::new("g", "h");
    service.set_config(2, ConfigScope::Cluster, global.clone());
    assert!(same(&service.get_config(3, ConfigScope::Connection), &global));
    assert!(same(&service.get_config(1, ConfigScope::Connection), &first));
    service.close(1);
    assert!(same(&service.session_config(1), &global));
    assert!(same(&service.session_config(2), &second));
    service.close(7);
    assert!(same(&service.session_config(2), &second));
}

#[test]
fn statements_run_under_the_configuration_of_their_connection() {
    let mut service = EngineService::new(Config::new("c", "s"));
    let mut ctx = session();
    service.create_catalog(&mut ctx, "c", false).unwrap();
    service.create_catalog(&mut ctx, "d", false).unwrap();
    service.create_schema(&mut ctx, &SchemaRef::full("c", "s"), false).unwrap();
    service.create_schema(&mut ctx, &SchemaRef::full("d", "s"), false).unwrap();
    service.set_config(2, ConfigScope::Connection, Config::new("d", "s"));
    service.enter(&mut ctx, 1);
    service.create_table(&mut ctx, &TableRef::bare("t"), info(), false, false).unwrap();
    service.enter(&mut ctx, 2);
    assert_eq!(ctx.default_catalog(), "d");
    assert!(service.get_table(&ctx, &TableRef::bare("t")).table.is_none());
    service.create_table(&mut ctx, &TableRef::bare("t"), info(), false, false).unwrap();
    let found = service.get_table(&ctx, &TableRef::bare("t"));
    assert_eq!(found.table.unwrap().catalog.as_deref(), Some("d"));
    service.enter(&mut ctx, 1);
    let found = service.get_table(&ctx, &TableRef::bare("t"));
    assert_eq!(found.table.unwrap().catalog.as_deref(), Some("c"));
    // a statement that changes the session is kept for its connection
    ctx.use_catalog("d").unwrap();
    service.leave(&ctx, 1);
    assert_eq!(service.session_config(1).default_catalog(), "d");
    assert_eq!(service.get_config(1, ConfigScope::Cluster).default_catalog(), "c");
}

#[test]
fn create_catalog_and_schema() {
    let service = EngineService::new(Config::new("c", "s"));
    let mut ctx = session();
    service.create_catalog(&mut ctx, "c", false).unwrap();
    service.create_catalog(&mut ctx, "c", true).unwrap();
    let status = service.create_catalog(&mut ctx, "c", false).unwrap_err();
    assert_eq!(status.code, StatusCode::AlreadyExists);
    assert_eq!(status.message, "c");
    service.create_schema(&mut ctx, &SchemaRef::bare("s"), false).unwrap();
    let status = service.create_schema(&mut ctx, &SchemaRef::full("d", "s"), false).unwrap_err();
    assert_eq!(status.code, StatusCode::NotFound);
    assert_eq!(status.message, "d");
    let status = service.create_schema(&mut ctx, &SchemaRef::full("c", "s"), false).unwrap_err();
    assert_eq!(status.code, StatusCode::AlreadyExists);
    assert_eq!(status.message, "c.s");
    assert!(ctx.cluster().schema("c", "s").is_some());
}

#[test]
fn create_table_echoes_the_resolved_reference() {
    let service = EngineService::new(Config::new("c", "s"));
    let mut ctx = session();
    service.create_catalog(&mut ctx, "c", false).unwrap();
    service.create_schema(&mut ctx, &SchemaRef::bare("s"), false).unwrap();
    let reply = service.create_table(&mut ctx, &TableRef::bare("t"), info(), false, false).unwrap();
    let table = reply.table.unwrap();
    assert_eq!(table.catalog.as_deref(), Some("c"));
    assert_eq!(table.schema.as_deref(), Some("s"));
    assert_eq!(table.table, "t");
    assert_eq!(reply.info.unwrap().columns[0].name, "a");
    let status =
        service.create_table(&mut ctx, &TableRef::bare("t"), info(), false, false).unwrap_err();
    assert_eq!(status.code, StatusCode::AlreadyExists);
    assert_eq!(status.message, "c.s.t");
    let wider = TableInfo {
        columns: vec![Field::new("a", "Int32", false), Field::new("b", "Utf8", true)],
    };
    let kept = service.create_table(&mut ctx, &TableRef::bare("t"), wider, true, false).unwrap();
    assert_eq!(kept.info.unwrap().columns.len(), 1);
    let wider = TableInfo {
        columns: vec![Field::new("a", "Int32", false), Field::new("b", "Utf8", true)],
    };
    let replaced = service.create_table(&mut ctx, &TableRef::bare("t"), wider, false, true).unwrap();
    assert_eq!(replaced.info.unwrap().columns.len(), 2);
}

#[test]
fn create_table_refuses_both_flags() {
    let service = EngineService::new(Config::new("c", "s"));
    let mut ctx = session();
    service.create_catalog(&mut ctx, "c", false).unwrap();
    service.create_schema(&mut ctx, &SchemaRef::bare("s"), false).unwrap();
    let status =
        service.create_table(&mut ctx, &TableRef::bare("t"), info(), true, true).unwrap_err();
    assert_eq!(status.code, StatusCode::InvalidArgument);
    assert_eq!(status.message, "if_not_exists and or_replace exclude each other");
    assert!(ctx.table(&TableRef::bare("t")).is_none());
    let status =
        service.create_table(&mut ctx, &TableRef::full("c", "x", "t"), info(), false, false).unwrap_err();
    assert_eq!(status.code, StatusCode::NotFound);
    assert_eq!(status.message, "x");
}

#[test]
fn get_table_fills_both_or_neither() {
    let service = EngineService::new(Config::new("c", "s"));
    let mut ctx = session();
    service.create_catalog(&mut ctx, "c", false).unwrap();
    service.create_schema(&mut ctx, &SchemaRef::bare("s"), false).unwrap();
    service.create_table(&mut ctx, &TableRef::bare("t"), info(), false, false).unwrap();
    ctx.create_view(
        &TableRef::bare("v"),
        ViewInfo { columns: vec![], query: "SELECT 1".into() },
        false,
        false,
    )
    .unwrap();
    let found = service.get_table(&ctx, &TableRef::parse("s.t").unwrap());
    assert_eq!(found.table.unwrap().catalog.as_deref(), Some("c"));
    assert_eq!(found.info.unwrap().columns.len(), 1);
    let missing = service.get_table(&ctx, &TableRef::bare("u"));
    assert!(missing.table.is_none() && missing.info.is_none());
    let view = service.get_table(&ctx, &TableRef::bare("v"));
    assert!(view.table.is_none() && view.info.is_none());
}
