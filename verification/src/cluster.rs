//! The namespace registry: catalogs, the schemas in them and the table-like
//! objects in those, with the rules that `CREATE` statements follow.
//!
//! Every object that is created gets an object id that no other object of
//! the cluster ever had. Two lookups hand out the same object exactly when
//! they hand out the same id.

use crate::error::{EngineError, EngineErrorView};
use crate::keyed::{
    distinct_keys, keys_of, lemma_absent, lemma_keys_list, lemma_pair_at, lemma_pairs_empty,
    lemma_pairs_push, lemma_pairs_update, lists, pairs_map,
};
use crate::registry::{
    name_views, qualified_name, schema_views, table_views, Id, ResolvedRef, ResolvedSchema,
    SchemaKey, TableKey,
};
use vstd::prelude::*;
use vstd::string::StringExecFns;

verus! {

/// The identity of a registered object.
pub type ObjectId = u64;

/// One column of a table-like object: its name, the name of its data type,
/// and whether it admits nulls.
#[derive(Debug)]
pub struct Field {
    pub name: String,
    pub data_type: String,
    pub nullable: bool,
}

/// What creating a table is told.
#[derive(Debug)]
pub struct TableInfo {
    pub columns: Vec<Field>,
}

/// What creating a topic is told: its columns, and how many batches its
/// durable buffer takes before a publisher has to wait.
#[derive(Debug)]
pub struct TopicInfo {
    pub columns: Vec<Field>,
    pub capacity: usize,
}

/// What creating a view is told: its columns and the SQL text it stands for.
#[derive(Debug)]
pub struct ViewInfo {
    pub columns: Vec<Field>,
    pub query: String,
}

/// A table-like object's kind, with the information that kind carries.
#[derive(Debug)]
pub enum Definition {
    Table(TableInfo),
    Topic(TopicInfo),
    View(ViewInfo),
}

/// The three kinds of table-like object.
#[derive(Clone, Copy, Debug, PartialEq, Eq, Structural)]
pub enum TableKind {
    Table,
    Topic,
    View,
}

/// A registered catalog.
#[derive(Debug)]
pub struct CatalogEntry {
    pub name: Id,
    pub object: ObjectId,
}

/// A registered schema.
#[derive(Debug)]
pub struct SchemaEntry {
    pub catalog: Id,
    pub name: Id,
    pub object: ObjectId,
}

/// A registered table-like object.
#[derive(Debug)]
pub struct TableEntry {
    pub name: ResolvedRef,
    pub object: ObjectId,
    pub definition: Definition,
}

/// What the registry holds under a table name.
pub struct TableSpec {
    pub object: ObjectId,
    pub definition: Definition,
}

/// The registry as three maps and the count of object ids handed out so far.
pub struct ClusterView {
    pub catalogs: Map<Seq<char>, ObjectId>,
    pub schemas: Map<SchemaKey, ObjectId>,
    pub tables: Map<TableKey, TableSpec>,
    pub issued: nat,
}

impl Clone for Field {
    fn clone(&self) -> (copy: Self)
        ensures
            copy == *self,
    {
        Field {
            name: self.name.clone(),
            data_type: self.data_type.clone(),
            nullable: self.nullable,
        }
    }
}

impl Field {
    /// A column of the given name and type.
    pub fn new(name: &str, data_type: &str, nullable: bool) -> (f: Field)
        ensures
            f.name@ == name@,
            f.data_type@ == data_type@,
            f.nullable == nullable,
    {
        Field { name: name.to_owned(), data_type: data_type.to_owned(), nullable }
    }
}

/// A copy of a list of columns.
pub fn clone_fields(fields: &Vec<Field>) -> (copy: Vec<Field>)
    ensures
        copy@ == fields@,
{
    let mut copy: Vec<Field> = Vec::new();
    let mut i: usize = 0;
    while i < fields.len()
        invariant
            i <= fields.len(),
            copy@ == fields@.take(i as int),
        decreases fields.len() - i,
    {
        copy.push(fields[i].clone());
        assert(fields@.take(i + 1) =~= fields@.take(i as int).push(fields@[i as int]));
        i = i + 1;
    }
    assert(fields@.take(fields.len() as int) =~= fields@);
    copy
}

impl Definition {
    /// The kind of the object.
    pub open spec fn kind(self) -> TableKind {
        match self {
            Definition::Table(_) => TableKind::Table,
            Definition::Topic(_) => TableKind::Topic,
            Definition::View(_) => TableKind::View,
        }
    }

    /// The columns of the object.
    pub open spec fn columns(self) -> Seq<Field> {
        match self {
            Definition::Table(info) => info.columns@,
            Definition::Topic(info) => info.columns@,
            Definition::View(info) => info.columns@,
        }
    }

    /// The kind of the object.
    pub fn table_kind(&self) -> (k: TableKind)
        ensures
            k == self.kind(),
    {
        match self {
            Definition::Table(_) => TableKind::Table,
            Definition::Topic(_) => TableKind::Topic,
            Definition::View(_) => TableKind::View,
        }
    }

    /// The columns of the object.
    pub fn fields(&self) -> (c: &Vec<Field>)
        ensures
            c@ == self.columns(),
    {
        match self {
            Definition::Table(info) => &info.columns,
            Definition::Topic(info) => &info.columns,
            Definition::View(info) => &info.columns,
        }
    }
}

/// The message for a statement that sets both `if_not_exists` and `or_replace`.
pub open spec fn exclusive_flags_message() -> Seq<char> {
    "if_not_exists and or_replace exclude each other"@
}

/// The message for a cluster that has handed out every object id.
pub open spec fn exhausted_message() -> Seq<char> {
    "object ids exhausted"@
}

impl ClusterView {
    /// Whether another object id can be handed out.
    pub open spec fn has_room(self) -> bool {
        self.issued < u64::MAX
    }

    /// Every schema lies in a registered catalog, every table in a
    /// registered schema, and every object id was handed out.
    pub open spec fn wf(self) -> bool {
        &&& forall|k: SchemaKey| #[trigger]
            self.schemas.dom().contains(k) ==> self.catalogs.dom().contains(k.0)
        &&& forall|k: TableKey| #[trigger]
            self.tables.dom().contains(k) ==> self.schemas.dom().contains((k.0, k.1))
        &&& forall|n: Seq<char>| #[trigger]
            self.catalogs.dom().contains(n) ==> self.catalogs[n] < self.issued
        &&& forall|k: SchemaKey| #[trigger]
            self.schemas.dom().contains(k) ==> self.schemas[k] < self.issued
        &&& forall|k: TableKey| #[trigger]
            self.tables.dom().contains(k) ==> self.tables[k].object < self.issued
    }

    /// `CREATE CATALOG name`: the registry afterwards and the catalog's id, or the error.
    pub open spec fn create_catalog(self, name: Seq<char>, if_not_exists: bool) -> Result<
        (ClusterView, ObjectId),
        EngineErrorView,
    > {
        if self.catalogs.dom().contains(name) {
            if if_not_exists {
                Ok((self, self.catalogs[name]))
            } else {
                Err(EngineErrorView::AlreadyExists(name))
            }
        } else if !self.has_room() {
            Err(EngineErrorView::Exhausted(exhausted_message()))
        } else {
            Ok(
                (
                    ClusterView {
                        catalogs: self.catalogs.insert(name, self.issued as ObjectId),
                        issued: self.issued + 1,
                        ..self
                    },
                    self.issued as ObjectId,
                ),
            )
        }
    }

    /// `CREATE SCHEMA catalog.schema`: the registry afterwards and the schema's id, or the error.
    pub open spec fn create_schema(self, key: SchemaKey, if_not_exists: bool) -> Result<
        (ClusterView, ObjectId),
        EngineErrorView,
    > {
        if !self.catalogs.dom().contains(key.0) {
            Err(EngineErrorView::CatalogNotFound(key.0))
        } else if self.schemas.dom().contains(key) {
            if if_not_exists {
                Ok((self, self.schemas[key]))
            } else {
                Err(EngineErrorView::AlreadyExists(key.0 + seq!['.'] + key.1))
            }
        } else if !self.has_room() {
            Err(EngineErrorView::Exhausted(exhausted_message()))
        } else {
            Ok(
                (
                    ClusterView {
                        schemas: self.schemas.insert(key, self.issued as ObjectId),
                        issued: self.issued + 1,
                        ..self
                    },
                    self.issued as ObjectId,
                ),
            )
        }
    }

    /// `CREATE TABLE / TOPIC / VIEW`: the registry afterwards and the
    /// object's id, or the error. The two flags exclude each other: a
    /// statement that sets both is refused before anything else is looked
    /// at. An object that exists is kept under `if_not_exists`, replaced by
    /// a new object under `or_replace`, and an error under neither.
    pub open spec fn install(
        self,
        key: TableKey,
        definition: Definition,
        if_not_exists: bool,
        or_replace: bool,
    ) -> Result<(ClusterView, ObjectId), EngineErrorView> {
        if if_not_exists && or_replace {
            Err(EngineErrorView::Configuration(exclusive_flags_message()))
        } else if !self.catalogs.dom().contains(key.0) {
            Err(EngineErrorView::CatalogNotFound(key.0))
        } else if !self.schemas.dom().contains((key.0, key.1)) {
            Err(EngineErrorView::SchemaNotFound(key.1))
        } else if self.tables.dom().contains(key) && if_not_exists {
            Ok((self, self.tables[key].object))
        } else if self.tables.dom().contains(key) && !or_replace {
            Err(EngineErrorView::AlreadyExists(qualified_name(key)))
        } else if !self.has_room() {
            Err(EngineErrorView::Exhausted(exhausted_message()))
        } else {
            Ok(
                (
                    ClusterView {
                        tables: self.tables.insert(
                            key,
                            TableSpec { object: self.issued as ObjectId, definition },
                        ),
                        issued: self.issued + 1,
                        ..self
                    },
                    self.issued as ObjectId,
                ),
            )
        }
    }
}

/// The registry of one cluster.
#[derive(Debug)]
pub struct Cluster {
    catalogs: Vec<CatalogEntry>,
    schemas: Vec<SchemaEntry>,
    tables: Vec<TableEntry>,
    issued: u64,
}

/// The catalogs as pairs of name and object id.
closed spec fn catalog_pairs(s: Seq<CatalogEntry>) -> Seq<(Seq<char>, ObjectId)> {
    Seq::new(s.len(), |i: int| (s[i].name@, s[i].object))
}

/// The schemas as pairs of qualified name and object id.
closed spec fn schema_pairs(s: Seq<SchemaEntry>) -> Seq<(SchemaKey, ObjectId)> {
    Seq::new(s.len(), |i: int| ((s[i].catalog@, s[i].name@), s[i].object))
}

/// The table-like objects as pairs of qualified name and content.
closed spec fn table_pairs(s: Seq<TableEntry>) -> Seq<(TableKey, TableSpec)> {
    Seq::new(
        s.len(),
        |i: int| (s[i].name@, TableSpec { object: s[i].object, definition: s[i].definition }),
    )
}

impl View for Cluster {
    type V = ClusterView;

    closed spec fn view(&self) -> ClusterView {
        ClusterView {
            catalogs: pairs_map(catalog_pairs(self.catalogs@)),
            schemas: pairs_map(schema_pairs(self.schemas@)),
            tables: pairs_map(table_pairs(self.tables@)),
            issued: self.issued as nat,
        }
    }
}

impl TableEntry {
    /// What the registry holds under this entry's name.
    pub open spec fn spec(self) -> TableSpec {
        TableSpec { object: self.object, definition: self.definition }
    }
}

impl Cluster {
    /// The registry's invariant: no name is registered twice, and its view is well formed.
    pub closed spec fn wf(&self) -> bool {
        &&& distinct_keys(catalog_pairs(self.catalogs@))
        &&& distinct_keys(schema_pairs(self.schemas@))
        &&& distinct_keys(table_pairs(self.tables@))
        &&& self@.wf()
    }

    /// A well-formed registry has a well-formed view.
    pub proof fn lemma_wf_view(&self)
        requires
            self.wf(),
        ensures
            self@.wf(),
    {
    }

    /// A registry that holds nothing.
    pub fn new() -> (c: Cluster)
        ensures
            c.wf(),
            c@.catalogs == Map::<Seq<char>, ObjectId>::empty(),
            c@.schemas == Map::<SchemaKey, ObjectId>::empty(),
            c@.tables == Map::<TableKey, TableSpec>::empty(),
            c@.issued == 0,
    {
        let c = Cluster {
            catalogs: Vec::new(),
            schemas: Vec::new(),
            tables: Vec::new(),
            issued: 0,
        };
        proof {
            lemma_pairs_empty(catalog_pairs(c.catalogs@));
            lemma_pairs_empty(schema_pairs(c.schemas@));
            lemma_pairs_empty(table_pairs(c.tables@));
        }
        c
    }

    /// Whether another object id can be handed out.
    pub fn has_room(&self) -> (b: bool)
        ensures
            b == self@.has_room(),
    {
        self.issued < u64::MAX
    }

    fn find_catalog(&self, name: &Id) -> (r: Option<usize>)
        requires
            self.wf(),
        ensures
            match r {
                Some(i) => {
                    &&& i < self.catalogs.len()
                    &&& self.catalogs[i as int].name@ == name@
                    &&& self@.catalogs.dom().contains(name@)
                    &&& self@.catalogs[name@] == self.catalogs[i as int].object
                },
                None => !self@.catalogs.dom().contains(name@),
            },
    {
        let mut i: usize = 0;
        while i < self.catalogs.len()
            invariant
                self.wf(),
                i <= self.catalogs.len(),
                forall|j: int| 0 <= j < i ==> self.catalogs[j].name@ != name@,
            decreases self.catalogs.len() - i,
        {
            if self.catalogs[i].name == *name {
                proof {
                    lemma_pair_at(catalog_pairs(self.catalogs@), i as int);
                }
                return Some(i);
            }
            i = i + 1;
        }
        proof {
            lemma_absent(catalog_pairs(self.catalogs@), name@);
        }
        None
    }

    fn find_schema(&self, catalog: &Id, name: &Id) -> (r: Option<usize>)
        requires
            self.wf(),
        ensures
            match r {
                Some(i) => {
                    &&& i < self.schemas.len()
                    &&& self.schemas[i as int].catalog@ == catalog@
                    &&& self.schemas[i as int].name@ == name@
                    &&& self@.schemas.dom().contains((catalog@, name@))
                    &&& self@.schemas[(catalog@, name@)] == self.schemas[i as int].object
                },
                None => !self@.schemas.dom().contains((catalog@, name@)),
            },
    {
        let mut i: usize = 0;
        while i < self.schemas.len()
            invariant
                self.wf(),
                i <= self.schemas.len(),
                forall|j: int|
                    0 <= j < i ==> (self.schemas[j].catalog@, self.schemas[j].name@) != (
                        catalog@,
                        name@,
                    ),
            decreases self.schemas.len() - i,
        {
            if self.schemas[i].catalog == *catalog && self.schemas[i].name == *name {
                proof {
                    lemma_pair_at(schema_pairs(self.schemas@), i as int);
                }
                return Some(i);
            }
            i = i + 1;
        }
        proof {
            lemma_absent(schema_pairs(self.schemas@), (catalog@, name@));
        }
        None
    }

    fn find_table(&self, key: &ResolvedRef) -> (r: Option<usize>)
        requires
            self.wf(),
        ensures
            match r {
                Some(i) => {
                    &&& i < self.tables.len()
                    &&& self.tables[i as int].name@ == key@
                    &&& self@.tables.dom().contains(key@)
                    &&& self@.tables[key@] == self.tables[i as int].spec()
                },
                None => !self@.tables.dom().contains(key@),
            },
    {
        let mut i: usize = 0;
        while i < self.tables.len()
            invariant
                self.wf(),
                i <= self.tables.len(),
                forall|j: int| 0 <= j < i ==> self.tables[j].name@ != key@,
            decreases self.tables.len() - i,
        {
            let entry = &self.tables[i];
            if entry.name.catalog == key.catalog && entry.name.schema == key.schema
                && entry.name.table == key.table {
                proof {
                    lemma_pair_at(table_pairs(self.tables@), i as int);
                }
                return Some(i);
            }
            i = i + 1;
        }
        proof {
            lemma_absent(table_pairs(self.tables@), key@);
        }
        None
    }

    /// The id of the catalog of this name, if it is registered.
    pub fn catalog(&self, name: &str) -> (r: Option<ObjectId>)
        requires
            self.wf(),
        ensures
            r == (if self@.catalogs.dom().contains(name@) {
                Some(self@.catalogs[name@])
            } else {
                None
            }),
    {
        let name = name.to_owned();
        match self.find_catalog(&name) {
            Some(i) => Some(self.catalogs[i].object),
            None => None,
        }
    }

    /// The id of the schema of this name, if it is registered.
    pub fn schema(&self, catalog: &str, name: &str) -> (r: Option<ObjectId>)
        requires
            self.wf(),
        ensures
            r == (if self@.schemas.dom().contains((catalog@, name@)) {
                Some(self@.schemas[(catalog@, name@)])
            } else {
                None
            }),
    {
        let catalog = catalog.to_owned();
        let name = name.to_owned();
        match self.find_schema(&catalog, &name) {
            Some(i) => Some(self.schemas[i].object),
            None => None,
        }
    }

    /// The table-like object of this name, if it is registered.
    pub fn table(&self, key: &ResolvedRef) -> (r: Option<&TableEntry>)
        requires
            self.wf(),
        ensures
            match r {
                Some(entry) => {
                    &&& self@.tables.dom().contains(key@)
                    &&& entry.spec() == self@.tables[key@]
                    &&& entry.name@ == key@
                },
                None => !self@.tables.dom().contains(key@),
            },
    {
        match self.find_table(key) {
            Some(i) => Some(&self.tables[i]),
            None => None,
        }
    }

    /// Registers a catalog. One that exists is kept and its id returned
    /// under `if_not_exists`, and is an error otherwise.
    pub fn create_catalog(&mut self, name: &str, if_not_exists: bool) -> (r: Result<
        ObjectId,
        EngineError,
    >)
        requires
            old(self).wf(),
        ensures
            final(self).wf(),
            match (r, old(self)@.create_catalog(name@, if_not_exists)) {
                (Ok(id), Ok((next, expected))) => final(self)@ == next && id == expected,
                (Err(e), Err(expected)) => final(self)@ == old(self)@ && e@ == expected,
                _ => false,
            },
    {
        let owned = name.to_owned();
        match self.find_catalog(&owned) {
            Some(i) => {
                if if_not_exists {
                    Ok(self.catalogs[i].object)
                } else {
                    Err(EngineError::AlreadyExists(owned))
                }
            },
            None => {
                if self.issued == u64::MAX {
                    return Err(EngineError::Exhausted("object ids exhausted".to_owned()));
                }
                let id = self.issued;
                proof {
                    lemma_pairs_push(catalog_pairs(self.catalogs@), name@, id);
                    assert(catalog_pairs(self.catalogs@.push(CatalogEntry { name: owned, object: id }))
                        =~= catalog_pairs(self.catalogs@).push((name@, id)));
                }
                self.catalogs.push(CatalogEntry { name: owned, object: id });
                self.issued = id + 1;
                Ok(id)
            },
        }
    }
    /// Registers a schema in a catalog that exists. One that exists is kept
    /// and its id returned under `if_not_exists`, and is an error otherwise.
    pub fn create_schema(&mut self, schema: &ResolvedSchema, if_not_exists: bool) -> (r: Result<
        ObjectId,
        EngineError,
    >)
        requires
            old(self).wf(),
        ensures
            final(self).wf(),
            match (r, old(self)@.create_schema(schema@, if_not_exists)) {
                (Ok(id), Ok((next, expected))) => final(self)@ == next && id == expected,
                (Err(e), Err(expected)) => final(self)@ == old(self)@ && e@ == expected,
                _ => false,
            },
    {
        if self.find_catalog(&schema.catalog).is_none() {
            return Err(EngineError::CatalogNotFound(schema.catalog.clone()));
        }
        match self.find_schema(&schema.catalog, &schema.schema) {
            Some(i) => {
                if if_not_exists {
                    Ok(self.schemas[i].object)
                } else {
                    proof {
                        reveal_strlit(".");
                    }
                    let text = schema.catalog.clone().concat(".").concat(schema.schema.as_str());
                    assert("."@ == seq!['.']);
                    Err(EngineError::AlreadyExists(text))
                }
            },
            None => {
                if self.issued == u64::MAX {
                    return Err(EngineError::Exhausted("object ids exhausted".to_owned()));
                }
                let id = self.issued;
                let entry = SchemaEntry {
                    catalog: schema.catalog.clone(),
                    name: schema.schema.clone(),
                    object: id,
                };
                proof {
                    lemma_pairs_push(schema_pairs(self.schemas@), schema@, id);
                    assert(schema_pairs(self.schemas@.push(entry)) =~= schema_pairs(
                        self.schemas@,
                    ).push((schema@, id)));
                }
                self.schemas.push(entry);
                self.issued = id + 1;
                Ok(id)
            },
        }
    }

    /// Registers a table-like object in a schema that exists. One that
    /// exists under the name is kept under `if_not_exists`, gives way to the
    /// new object under `or_replace`, and is an error under neither. The
    /// two flags together are an error, and so is a registry that has no
    /// object id left for an object it would have to make.
    pub fn install(
        &mut self,
        name: &ResolvedRef,
        definition: Definition,
        if_not_exists: bool,
        or_replace: bool,
    ) -> (r: Result<ObjectId, EngineError>)
        requires
            old(self).wf(),
        ensures
            final(self).wf(),
            match (r, old(self)@.install(name@, definition, if_not_exists, or_replace)) {
                (Ok(id), Ok((next, expected))) => final(self)@ == next && id == expected,
                (Err(e), Err(expected)) => final(self)@ == old(self)@ && e@ == expected,
                _ => false,
            },
    {
        if if_not_exists && or_replace {
            return Err(
                EngineError::Configuration(
                    "if_not_exists and or_replace exclude each other".to_owned(),
                ),
            );
        }
        if self.find_catalog(&name.catalog).is_none() {
            return Err(EngineError::CatalogNotFound(name.catalog.clone()));
        }
        if self.find_schema(&name.catalog, &name.schema).is_none() {
            return Err(EngineError::SchemaNotFound(name.schema.clone()));
        }
        match self.find_table(name) {
            Some(i) => {
                if if_not_exists {
                    Ok(self.tables[i].object)
                } else if !or_replace {
                    Err(EngineError::AlreadyExists(name.qualified()))
                } else if self.issued == u64::MAX {
                    Err(EngineError::Exhausted("object ids exhausted".to_owned()))
                } else {
                    let id = self.issued;
                    let entry = TableEntry { name: name.clone(), object: id, definition };
                    proof {
                        lemma_pairs_update(table_pairs(self.tables@), i as int, entry.spec());
                        assert(table_pairs(self.tables@.update(i as int, entry)) =~= table_pairs(
                            self.tables@,
                        ).update(i as int, (name@, entry.spec())));
                    }
                    self.tables.set(i, entry);
                    self.issued = id + 1;
                    Ok(id)
                }
            },
            None => {
                if self.issued == u64::MAX {
                    return Err(EngineError::Exhausted("object ids exhausted".to_owned()));
                }
                let id = self.issued;
                let entry = TableEntry { name: name.clone(), object: id, definition };
                proof {
                    lemma_pairs_push(table_pairs(self.tables@), name@, entry.spec());
                    assert(table_pairs(self.tables@.push(entry)) =~= table_pairs(
                        self.tables@,
                    ).push((name@, entry.spec())));
                }
                self.tables.push(entry);
                self.issued = id + 1;
                Ok(id)
            },
        }
    }

    /// The names of the registered catalogs, each once.
    pub fn catalog_names(&self) -> (names: Vec<Id>)
        requires
            self.wf(),
        ensures
            lists(name_views(names@), self@.catalogs.dom()),
    {
        let mut names: Vec<Id> = Vec::new();
        let mut i: usize = 0;
        while i < self.catalogs.len()
            invariant
                i <= self.catalogs.len(),
                names.len() == i,
                forall|j: int| 0 <= j < i ==> names[j]@ == self.catalogs[j].name@,
            decreases self.catalogs.len() - i,
        {
            names.push(self.catalogs[i].name.clone());
            i = i + 1;
        }
        proof {
            lemma_keys_list(catalog_pairs(self.catalogs@));
            assert(name_views(names@) =~= keys_of(catalog_pairs(self.catalogs@)));
        }
        names
    }

    /// The qualified names of the registered schemas, each once.
    pub fn schema_names(&self) -> (names: Vec<ResolvedSchema>)
        requires
            self.wf(),
        ensures
            lists(schema_views(names@), self@.schemas.dom()),
    {
        let mut names: Vec<ResolvedSchema> = Vec::new();
        let mut i: usize = 0;
        while i < self.schemas.len()
            invariant
                i <= self.schemas.len(),
                names.len() == i,
                forall|j: int|
                    0 <= j < i ==> names[j]@ == (self.schemas[j].catalog@, self.schemas[j].name@),
            decreases self.schemas.len() - i,
        {
            names.push(
                ResolvedSchema {
                    catalog: self.schemas[i].catalog.clone(),
                    schema: self.schemas[i].name.clone(),
                },
            );
            i = i + 1;
        }
        proof {
            lemma_keys_list(schema_pairs(self.schemas@));
            assert(schema_views(names@) =~= keys_of(schema_pairs(self.schemas@)));
        }
        names
    }

    /// The qualified names of the registered table-like objects, each once.
    pub fn table_names(&self) -> (names: Vec<ResolvedRef>)
        requires
            self.wf(),
        ensures
            lists(table_views(names@), self@.tables.dom()),
    {
        let mut names: Vec<ResolvedRef> = Vec::new();
        let mut i: usize = 0;
        while i < self.tables.len()
            invariant
                i <= self.tables.len(),
                names.len() == i,
                forall|j: int| 0 <= j < i ==> names[j]@ == self.tables[j].name@,
            decreases self.tables.len() - i,
        {
            names.push(self.tables[i].name.clone());
            i = i + 1;
        }
        proof {
            lemma_keys_list(table_pairs(self.tables@));
            assert(table_views(names@) =~= keys_of(table_pairs(self.tables@)));
        }
        names
    }
}


/// Every `CREATE` keeps the registry well formed.
pub proof fn lemma_create_keeps_wf(
    v: ClusterView,
    key: TableKey,
    definition: Definition,
    if_not_exists: bool,
    or_replace: bool,
)
    requires
        v.wf(),
    ensures
        v.create_catalog(key.0, if_not_exists) matches Ok((next, _)) ==> next.wf(),
        v.create_schema((key.0, key.1), if_not_exists) matches Ok((next, _)) ==> next.wf(),
        v.install(key, definition, if_not_exists, or_replace) matches Ok((next, _)) ==> next.wf(),
{
}

/// A `CREATE ... IF NOT EXISTS` of something that exists hands out the
/// object that a lookup found before, and changes nothing.
pub proof fn lemma_if_not_exists_keeps(v: ClusterView, key: TableKey, definition: Definition)
    requires
        v.wf(),
    ensures
        v.catalogs.dom().contains(key.0) ==> v.create_catalog(key.0, true) == Ok::<
            (ClusterView, ObjectId),
            EngineErrorView,
        >((v, v.catalogs[key.0])),
        v.schemas.dom().contains((key.0, key.1)) ==> v.create_schema((key.0, key.1), true) == Ok::<
            (ClusterView, ObjectId),
            EngineErrorView,
        >((v, v.schemas[(key.0, key.1)])),
        v.tables.dom().contains(key) ==> v.install(key, definition, true, false) == Ok::<
            (ClusterView, ObjectId),
            EngineErrorView,
        >((v, v.tables[key].object)),
{
    if v.schemas.dom().contains((key.0, key.1)) {
        assert(v.catalogs.dom().contains(key.0));
    }
    if v.tables.dom().contains(key) {
        assert(v.schemas.dom().contains((key.0, key.1)));
        assert(v.catalogs.dom().contains(key.0));
    }
}

/// Creating a catalog twice with `IF NOT EXISTS` hands out the same
/// object both times: where the first creation succeeds, the second hands
/// out its object and leaves the registry as the first left it. The second
/// needs no object id.
pub proof fn lemma_create_catalog_twice(v: ClusterView, name: Seq<char>)
    requires
        v.wf(),
    ensures
        v.create_catalog(name, true) matches Ok((once, first)) ==> once.create_catalog(name, true)
            == Ok::<(ClusterView, ObjectId), EngineErrorView>((once, first)),
        v.create_catalog(name, true) is Err ==> !v.catalogs.dom().contains(name) && !v.has_room(),
{
}

/// A `CREATE` that sets both `IF NOT EXISTS` and `OR REPLACE` is refused,
/// whatever the registry holds.
pub proof fn lemma_flags_exclude_each_other(v: ClusterView, key: TableKey, definition: Definition)
    ensures
        v.install(key, definition, true, true) == Err::<(ClusterView, ObjectId), EngineErrorView>(
            EngineErrorView::Configuration(exclusive_flags_message()),
        ),
{
}

/// A `CREATE OR REPLACE` of a table-like object is one step: it fails for
/// want of the catalog or the schema, or it puts a new object, whole, in the
/// place of the old one. Afterwards the name stands for an object that no
/// lookup found before, with the definition given, and every other name
/// stands for what it stood for: a lookup finds what was there before the
/// step or what is there after it, and nothing in between.
pub proof fn lemma_replace_is_whole(v: ClusterView, key: TableKey, definition: Definition)
    requires
        v.wf(),
        v.has_room(),
    ensures
        match v.install(key, definition, false, true) {
            Ok((next, id)) => {
                &&& next.wf()
                &&& next.tables.dom().contains(key)
                &&& next.tables[key] == (TableSpec { object: id, definition })
                &&& forall|other: TableKey| #[trigger]
                    v.tables.dom().contains(other) ==> v.tables[other].object != id
                &&& forall|other: TableKey|
                    other != key ==> (#[trigger] next.tables.dom().contains(other)
                        <==> v.tables.dom().contains(other))
                &&& forall|other: TableKey|
                    other != key && v.tables.dom().contains(other) ==> #[trigger] next.tables[other]
                        == v.tables[other]
                &&& next.catalogs == v.catalogs
                &&& next.schemas == v.schemas
            },
            Err(e) => {
                &&& !v.schemas.dom().contains((key.0, key.1))
                &&& !v.tables.dom().contains(key)
                &&& e == (if v.catalogs.dom().contains(key.0) {
                    EngineErrorView::SchemaNotFound(key.1)
                } else {
                    EngineErrorView::CatalogNotFound(key.0)
                })
            },
        },
{
    if v.schemas.dom().contains((key.0, key.1)) {
        assert(v.catalogs.dom().contains(key.0));
    }
    if v.tables.dom().contains(key) {
        assert(v.schemas.dom().contains((key.0, key.1)));
    }
}

/// A `CREATE` without `IF NOT EXISTS` or `OR REPLACE` of something that
/// exists is `AlreadyExists`; one in a catalog or schema that is missing
/// names what is missing.
pub proof fn lemma_create_errors(v: ClusterView, key: TableKey, definition: Definition)
    requires
        v.wf(),
    ensures
        v.tables.dom().contains(key) ==> v.install(key, definition, false, false) == Err::<
            (ClusterView, ObjectId),
            EngineErrorView,
        >(EngineErrorView::AlreadyExists(qualified_name(key))),
        !v.catalogs.dom().contains(key.0) ==> v.install(key, definition, false, false) == Err::<
            (ClusterView, ObjectId),
            EngineErrorView,
        >(EngineErrorView::CatalogNotFound(key.0)),
        v.catalogs.dom().contains(key.0) && !v.schemas.dom().contains((key.0, key.1)) ==> v.install(
            key,
            definition,
            false,
            false,
        ) == Err::<(ClusterView, ObjectId), EngineErrorView>(
            EngineErrorView::SchemaNotFound(key.1),
        ),
{
    if v.tables.dom().contains(key) {
        assert(v.schemas.dom().contains((key.0, key.1)));
        assert(v.catalogs.dom().contains(key.0));
    }
}

} // verus!
