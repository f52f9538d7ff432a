use synapse::registry::{ResolvedRef, ResolvedSchema, SchemaRef, TableRef};

fn parts(r: &TableRef) -> (Option<&str>, Option<&str>, &str) {
    (r.catalog.as_deref(), r.schema.as_deref(), r.table.as_str())
}

#[test]
fn parse_reads_one_two_or_three_parts() {
    assert_eq!(parts(&TableRef::parse("t").unwrap()), (None, None, "t"));
    assert_eq!(parts(&TableRef::parse("s.t").unwrap()), (None, Some("s"), "t"));
    assert_eq!(
        parts(&TableRef::parse("c.s.topic").unwrap()),
        (Some("c"), Some("s"), "topic")
    );
    assert_eq!(
        parts(&TableRef::parse("catalog.schéma.täble").unwrap()),
        (Some("catalog"), Some("schéma"), "täble")
    );
}

#[test]
fn parse_refuses_empty_parts_and_a_fourth_part() {
    assert!(TableRef::parse("").is_none());
    assert!(TableRef::parse(".").is_none());
    assert!(TableRef::parse(".t").is_none());
    assert!(TableRef::parse("s.").is_none());
    assert!(TableRef::parse("c..t").is_none());
    assert!(TableRef::parse("c.s.").is_none());
    assert!(TableRef::parse("a.b.c.d").is_none());
    assert!(TableRef::parse("a.b.c.").is_none());
}

#[test]
fn resolve_fills_what_is_left_out() {
    let c = "dc".to_string();
    let s = "ds".to_string();
    let bare = TableRef::bare("t").resolve(&c, &s);
    assert_eq!((bare.catalog.as_str(), bare.schema.as_str(), bare.table.as_str()), ("dc", "ds", "t"));
    let half = TableRef::parse("s.t").unwrap().resolve(&c, &s);
    assert_eq!((half.catalog.as_str(), half.schema.as_str(), half.table.as_str()), ("dc", "s", "t"));
    let full = TableRef::full("c", "s", "t").resolve(&c, &s);
    assert_eq!((full.catalog.as_str(), full.schema.as_str(), full.table.as_str()), ("c", "s", "t"));
    let only_catalog = TableRef { catalog: Some("c".into()), schema: None, table: "t".into() };
    let r = only_catalog.resolve(&c, &s);
    assert_eq!((r.catalog.as_str(), r.schema.as_str(), r.table.as_str()), ("c", "ds", "t"));
}

#[test]
fn resolve_schema_fills_the_catalog() {
    let c = "dc".to_string();
    let bare = SchemaRef::bare("s").resolve(&c);
    assert_eq!((bare.catalog.as_str(), bare.schema.as_str()), ("dc", "s"));
    let full = SchemaRef::full("c", "s").resolve(&c);
    assert_eq!((full.catalog.as_str(), full.schema.as_str()), ("c", "s"));
}

#[test]
fn qualified_spells_the_dotted_name() {
    let r = ResolvedRef::new("c", "s", "t");
    assert_eq!(r.qualified(), "c.s.t");
    let parent = r.parent();
    assert_eq!((parent.catalog.as_str(), parent.schema.as_str()), ("c", "s"));
    let back = r.to_table_ref();
    assert_eq!(parts(&back), (Some("c"), Some("s"), "t"));
    let copy = r.clone();
    assert_eq!(copy.qualified(), "c.s.t");
    let s = ResolvedSchema::new("c", "s");
    assert_eq!(s.clone().schema, "s");
}
