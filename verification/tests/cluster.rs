use synapse::cluster::{Cluster, Definition, Field, TableInfo, TableKind, TopicInfo, ViewInfo};
use synapse::error::EngineError;
use synapse::registry::{ResolvedRef, ResolvedSchema};

fn int_column() -> Vec<Field> {
    vec![Field::new("a", "Int32", false)]
}

fn table() -> Definition {
    Definition::Table(TableInfo { columns: int_column() })
}

fn seeded() -> Cluster {
    let mut c = Cluster::new();
    c.create_catalog("c", false).unwrap();
    c.create_schema(&ResolvedSchema::new("c", "s"), false).unwrap();
    c
}

#[test]
fn create_catalog_hands_out_new_ids() {
    let mut c = Cluster::new();
    assert_eq!(c.catalog("c"), None);
    let first = c.create_catalog("c", false).unwrap();
    let second = c.create_catalog("d", false).unwrap();
    assert_eq!(first, 0);
    assert_eq!(second, 1);
    assert_eq!(c.catalog("c"), Some(first));
    assert_eq!(c.catalog("d"), Some(second));
    assert!(c.has_room());
}

#[test]
fn create_catalog_if_not_exists_returns_the_same_object() {
    let mut c = Cluster::new();
    let first = c.create_catalog("c", true).unwrap();
    let second = c.create_catalog("c", true).unwrap();
    assert_eq!(first, second);
    assert_eq!(c.catalog("c"), Some(first));
    assert_eq!(c.catalog_names(), vec!["c".to_string()]);
}

#[test]
fn create_catalog_twice_is_already_exists() {
    let mut c = Cluster::new();
    c.create_catalog("c", false).unwrap();
    match c.create_catalog("c", false) {
        Err(EngineError::AlreadyExists(name)) => assert_eq!(name, "c"),
        other => panic!("{:?}", other),
    }
    assert_eq!(c.catalog_names().len(), 1);
}

#[test]
fn create_schema_wants_its_catalog() {
    let mut c = Cluster::new();
    match c.create_schema(&ResolvedSchema::new("c", "s"), false) {
        Err(EngineError::CatalogNotFound(name)) => assert_eq!(name, "c"),
        other => panic!("{:?}", other),
    }
    c.create_catalog("c", false).unwrap();
    let id = c.create_schema(&ResolvedSchema::new("c", "s"), false).unwrap();
    assert_eq!(c.schema("c", "s"), Some(id));
    assert_eq!(c.schema("c", "other"), None);
    assert_eq!(c.schema("other", "s"), None);
    assert_eq!(c.create_schema(&ResolvedSchema::new("c", "s"), true).unwrap(), id);
    match c.create_schema(&ResolvedSchema::new("c", "s"), false) {
        Err(EngineError::AlreadyExists(name)) => assert_eq!(name, "c.s"),
        other => panic!("{:?}", other),
    }
}

#[test]
fn install_reports_what_is_missing() {
    let mut c = Cluster::new();
    let name = ResolvedRef::new("c", "s", "t");
    match c.install(&name, table(), false, false) {
        Err(EngineError::CatalogNotFound(n)) => assert_eq!(n, "c"),
        other => panic!("{:?}", other),
    }
    c.create_catalog("c", false).unwrap();
    match c.install(&name, table(), false, false) {
        Err(EngineError::SchemaNotFound(n)) => assert_eq!(n, "s"),
        other => panic!("{:?}", other),
    }
    assert!(c.table(&name).is_none());
    assert!(c.table_names().is_empty());
}

#[test]
fn install_then_lookup() {
    let mut c = seeded();
    let name = ResolvedRef::new("c", "s", "t");
    let id = c.install(&name, table(), false, false).unwrap();
    let entry = c.table(&name).unwrap();
    assert_eq!(entry.object, id);
    assert_eq!(entry.name.qualified(), "c.s.t");
    assert_eq!(entry.definition.table_kind(), TableKind::Table);
    assert_eq!(entry.definition.fields().len(), 1);
    assert_eq!(entry.definition.fields()[0].name, "a");
    assert_eq!(entry.definition.fields()[0].data_type, "Int32");
    assert!(c.table(&ResolvedRef::new("c", "s", "u")).is_none());
    assert!(c.table(&ResolvedRef::new("c", "x", "t")).is_none());
}

#[test]
fn install_without_flags_on_existing_is_already_exists() {
    let mut c = seeded();
    let name = ResolvedRef::new("c", "s", "t");
    let id = c.install(&name, table(), false, false).unwrap();
    match c.install(&name, table(), false, false) {
        Err(EngineError::AlreadyExists(n)) => assert_eq!(n, "c.s.t"),
        other => panic!("{:?}", other),
    }
    assert_eq!(c.table(&name).unwrap().object, id);
}

#[test]
fn install_if_not_exists_keeps_the_object() {
    let mut c = seeded();
    let name = ResolvedRef::new("c", "s", "t");
    let id = c.install(&name, table(), false, false).unwrap();
    let wider = Definition::Table(TableInfo {
        columns: vec![Field::new("a", "Int32", false), Field::new("b", "Utf8", true)],
    });
    let again = c.install(&name, wider, true, false).unwrap();
    assert_eq!(again, id);
    let entry = c.table(&name).unwrap();
    assert_eq!(entry.object, id);
    assert_eq!(entry.definition.fields().len(), 1);
}

#[test]
fn install_with_both_flags_is_an_error() {
    let mut c = seeded();
    let name = ResolvedRef::new("c", "s", "t");
    match c.install(&name, table(), true, true) {
        Err(EngineError::Configuration(text)) => {
            assert_eq!(text, "if_not_exists and or_replace exclude each other")
        }
        other => panic!("{:?}", other),
    }
    assert!(c.table(&name).is_none());
    let id = c.install(&name, table(), false, false).unwrap();
    assert!(matches!(c.install(&name, table(), true, true), Err(EngineError::Configuration(_))));
    assert_eq!(c.table(&name).unwrap().object, id);
    let nowhere = ResolvedRef::new("x", "y", "z");
    assert!(matches!(c.install(&nowhere, table(), true, true), Err(EngineError::Configuration(_))));
}

#[test]
fn install_or_replace_puts_a_new_object() {
    let mut c = seeded();
    let name = ResolvedRef::new("c", "s", "t");
    let other = ResolvedRef::new("c", "s", "u");
    let old = c.install(&name, table(), false, false).unwrap();
    let kept = c.install(&other, table(), false, false).unwrap();
    let view = Definition::View(ViewInfo { columns: int_column(), query: "SELECT 1".into() });
    let new = c.install(&name, view, false, true).unwrap();
    assert_ne!(new, old);
    assert_ne!(new, kept);
    let entry = c.table(&name).unwrap();
    assert_eq!(entry.object, new);
    assert_eq!(entry.definition.table_kind(), TableKind::View);
    assert_eq!(c.table(&other).unwrap().object, kept);
    assert_eq!(c.table_names().len(), 2);
    // replacing something that is not there creates it
    let third = ResolvedRef::new("c", "s", "v");
    let created = c.install(&third, table(), false, true).unwrap();
    assert_eq!(c.table(&third).unwrap().object, created);
}

#[test]
fn replacing_twice_leaves_exactly_the_last_object() {
    let mut c = seeded();
    let name = ResolvedRef::new("c", "s", "x");
    let info1 = Definition::Topic(TopicInfo { columns: int_column(), capacity: 1 });
    let info2 = Definition::Topic(TopicInfo { columns: int_column(), capacity: 2 });
    c.install(&name, info1, false, true).unwrap();
    assert!(c.table(&name).is_some());
    let second = c.install(&name, info2, false, true).unwrap();
    let entry = c.table(&name).unwrap();
    assert_eq!(entry.object, second);
    match &entry.definition {
        Definition::Topic(info) => assert_eq!(info.capacity, 2),
        other => panic!("{:?}", other),
    }
    assert_eq!(c.table_names().len(), 1);
}

#[test]
fn listings_name_everything_once() {
    let mut c = seeded();
    c.create_catalog("d", false).unwrap();
    c.create_schema(&ResolvedSchema::new("d", "s"), false).unwrap();
    c.install(&ResolvedRef::new("c", "s", "t"), table(), false, false).unwrap();
    c.install(&ResolvedRef::new("d", "s", "t"), table(), false, false).unwrap();
    c.install(&ResolvedRef::new("d", "s", "t"), table(), false, true).unwrap();
    let mut catalogs = c.catalog_names();
    catalogs.sort();
    assert_eq!(catalogs, vec!["c".to_string(), "d".to_string()]);
    let mut schemas: Vec<String> =
        c.schema_names().iter().map(|s| format!("{}.{}", s.catalog, s.schema)).collect();
    schemas.sort();
    assert_eq!(schemas, vec!["c.s".to_string(), "d.s".to_string()]);
    let mut tables: Vec<String> = c.table_names().iter().map(|t| t.qualified()).collect();
    tables.sort();
    assert_eq!(tables, vec!["c.s.t".to_string(), "d.s.t".to_string()]);
}
