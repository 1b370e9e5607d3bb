//! How often the operations and fragments of a document use each field of a
//! schema.
//!
//! The usage map holds, for each object and interface type of the schema,
//! the fields it declares, each with its type signature and a count. Walking
//! a selection set against the map counts every field selection under the
//! type that the selection is made on, and follows the declared type of the
//! field into the selections nested in it.

use crate::document::Definition;
use crate::document::DefinitionModel;
use crate::document::Document;
use crate::document::FieldDefinition;
use crate::document::FieldDefinitionModel;
use crate::document::FragmentDefinition;
use crate::document::FragmentModel;
use crate::document::InterfaceType;
use crate::document::ObjectType;
use crate::document::OperationDefinition;
use crate::document::OperationModel;
use crate::document::SchemaDefinition;
use crate::document::SchemaDefinitionModel;
use crate::document::Selection;
use crate::document::SelectionModel;
use crate::document::lemma_selection_models;
use crate::document::root_type_name;
use crate::document::root_type_of;
use crate::document::selection_models;
use crate::fragments::fragment_names;
use crate::fragments::fragment_position;
use crate::fragments::fragments_of;
use crate::fragments::insert_fragment;
use crate::fragments::lemma_fragments_finite;
use crate::lookup::distinct;
use crate::lookup::first_index;
use crate::lookup::first_occurrences;
use crate::lookup::keyed;
use crate::lookup::lemma_first_index;
use crate::lookup::lemma_first_index_is;
use crate::lookup::lemma_keyed_push;
use crate::lookup::lemma_keyed_update;
use crate::parse::document_of;
use crate::parse::read_document;
use crate::parse::read_schema;
use crate::parse::schema_of;
use crate::text::contains_text;
use crate::text::same_text;
use crate::text::strip_decoration;
use crate::text::strip_type_decoration;
use crate::text::texts;
use vstd::prelude::*;

verus! {

/// What the usage map holds of one field: its declared type signature and
/// how often it was selected.
pub struct FieldUsage {
    pub type_signature: Seq<char>,
    pub count: int,
}

/// The fields of one type, by name.
pub type TypeUsage = Map<Seq<char>, FieldUsage>;

/// The types of a schema, by name.
pub type Usage = Map<Seq<char>, TypeUsage>;

/// One field of a type of the schema, with the number of times it was
/// selected.
#[derive(Clone, Debug, PartialEq, Eq)]
pub struct StatsField {
    pub name: String,
    pub type_signature: String,
    pub count: i32,
}

impl View for StatsField {
    type V = FieldUsage;

    open spec fn view(&self) -> FieldUsage {
        FieldUsage { type_signature: self.type_signature@, count: self.count as int }
    }
}

/// The names of a list of fields, in order.
pub open spec fn field_names(fields: Seq<StatsField>) -> Seq<Seq<char>> {
    fields.map_values(|f: StatsField| f.name@)
}

/// What a list of fields holds of each, in order.
pub open spec fn field_usages(fields: Seq<StatsField>) -> Seq<FieldUsage> {
    fields.map_values(|f: StatsField| f@)
}

/// The fields that a list stands for, by name. Of two fields with one name
/// the first is the one that is found.
pub open spec fn fields_of(fields: Seq<StatsField>) -> TypeUsage {
    keyed(field_names(fields), field_usages(fields))
}

/// An object or interface type of the schema with its fields.
#[derive(Clone, Debug, PartialEq, Eq)]
pub struct GraphQLType {
    pub name: String,
    pub fields: Vec<StatsField>,
}

impl View for GraphQLType {
    type V = Map<Seq<char>, FieldUsage>;

    open spec fn view(&self) -> TypeUsage {
        fields_of(self.fields@)
    }
}

/// The names of a list of types, in order.
pub open spec fn type_names(types: Seq<GraphQLType>) -> Seq<Seq<char>> {
    types.map_values(|t: GraphQLType| t.name@)
}

/// The fields of each type of a list, in order.
pub open spec fn type_usages(types: Seq<GraphQLType>) -> Seq<TypeUsage> {
    types.map_values(|t: GraphQLType| t@)
}

/// The types that a list stands for, by name. Of two types with one name the
/// first is the one that is found.
pub open spec fn types_of(types: Seq<GraphQLType>) -> Usage {
    keyed(type_names(types), type_usages(types))
}

/// The names of a list of types, each with the names of its fields, in
/// order.
pub open spec fn names_of(types: Seq<GraphQLType>) -> Seq<(Seq<char>, Seq<Seq<char>>)> {
    types.map_values(|t: GraphQLType| (t.name@, field_names(t.fields@)))
}

/// Whether every type of the list has a name of its own, and every field of
/// a type a name of its own among the fields of that type.
pub open spec fn each_named_once(names: Seq<(Seq<char>, Seq<Seq<char>>)>) -> bool {
    &&& distinct(names.map_values(|n: (Seq<char>, Seq<Seq<char>>)| n.0))
    &&& forall|i: int| 0 <= i < names.len() ==> distinct((#[trigger] names[i]).1)
}

/// The usage map: the types of a schema with the counts of their fields.
#[derive(Clone, Debug, PartialEq, Eq)]
pub struct UsageMap {
    pub types: Vec<GraphQLType>,
}

impl UsageMap {
    /// Whether the map holds each type once, and each type each of its
    /// fields once. A map that was made from a schema does, and counting
    /// keeps it so.
    pub open spec fn well_formed(&self) -> bool {
        each_named_once(names_of(self.types@))
    }

    /// The type called `name`, where the map holds one.
    pub fn get(&self, name: &str) -> (r: Option<&GraphQLType>)
        ensures
            r is Some <==> self@.contains_key(name@),
            r matches Some(entry) ==> entry.name@ == name@ && entry@ == self@[name@],
    {
        let wanted = name.to_owned();
        match type_position(&self.types, &wanted) {
            Some(i) => Some(&self.types[i]),
            None => None,
        }
    }

    /// How often the field `field` of the type `on_type` was selected;
    /// `None` where the map does not hold that field.
    pub fn count_of(&self, on_type: &str, field: &str) -> (r: Option<i32>)
        ensures
            r is Some <==> self@.contains_key(on_type@) && self@[on_type@].contains_key(field@),
            r matches Some(count) ==> count == self@[on_type@][field@].count,
    {
        match self.get(on_type) {
            Some(entry) => match entry.get(field) {
                Some(found) => Some(found.count),
                None => None,
            },
            None => None,
        }
    }
}

impl GraphQLType {
    /// The field called `name`, where the type has one.
    pub fn get(&self, name: &str) -> (r: Option<&StatsField>)
        ensures
            r is Some <==> self@.contains_key(name@),
            r matches Some(field) ==> field.name@ == name@ && field@ == self@[name@],
    {
        let wanted = name.to_owned();
        match field_position(&self.fields, &wanted) {
            Some(i) => Some(&self.fields[i]),
            None => None,
        }
    }
}

impl View for UsageMap {
    type V = Usage;

    open spec fn view(&self) -> Usage {
        types_of(self.types@)
    }
}

/// A query with the hash it is known by and the number of times it was seen.
#[derive(Clone, Debug, PartialEq, Eq)]
pub struct Query {
    pub query: String,
    pub hash: String,
    pub count: i32,
}

/// The fields that a list of declarations stands for, each with a count of
/// zero. Where a name is declared twice, the later declaration stands.
pub open spec fn declared_fields(fields: Seq<FieldDefinitionModel>) -> TypeUsage
    decreases fields.len(),
{
    if fields.len() == 0 {
        Map::empty()
    } else {
        declared_fields(fields.drop_last()).insert(
            fields.last().name,
            FieldUsage { type_signature: fields.last().field_type, count: 0 },
        )
    }
}

/// The usage map of a schema before anything was counted: one entry for
/// each object or interface type, with its declared fields. Where a name is
/// defined twice, the later definition stands.
pub open spec fn schema_usage(definitions: Seq<SchemaDefinitionModel>) -> Usage
    decreases definitions.len(),
{
    if definitions.len() == 0 {
        Map::empty()
    } else {
        let before = schema_usage(definitions.drop_last());
        match definitions.last() {
            SchemaDefinitionModel::Fields { name, fields } => before.insert(
                name,
                declared_fields(fields),
            ),
            SchemaDefinitionModel::Other => before,
        }
    }
}

/// Where the field called `name` stands in `fields`.
pub fn field_position(fields: &Vec<StatsField>, name: &String) -> (r: Option<usize>)
    ensures
        r is Some <==> field_names(fields@).contains(name@),
        r is Some <==> fields_of(fields@).contains_key(name@),
        r matches Some(i) ==> i < fields.len() && i == first_index(field_names(fields@), name@)
            && fields[i as int].name@ == name@ && fields_of(fields@)[name@] == fields[i as int]@,
{
    let ghost names = field_names(fields@);
    let mut i: usize = 0;
    while i < fields.len()
        invariant
            i <= fields.len(),
            names == field_names(fields@),
            forall|j: int| 0 <= j < i ==> #[trigger] names[j] != name@,
        decreases fields.len() - i,
    {
        if fields[i].name == *name {
            proof {
                assert(names[i as int] == name@);
                lemma_first_index_is(names, name@, i as int);
            }
            return Some(i);
        }
        i = i + 1;
    }
    None
}

/// Where the type called `name` stands in `types`.
pub fn type_position(types: &Vec<GraphQLType>, name: &String) -> (r: Option<usize>)
    ensures
        r is Some <==> type_names(types@).contains(name@),
        r is Some <==> types_of(types@).contains_key(name@),
        r matches Some(i) ==> i < types.len() && i == first_index(type_names(types@), name@)
            && types[i as int].name@ == name@ && types_of(types@)[name@] == types[i as int]@,
{
    let ghost names = type_names(types@);
    let mut i: usize = 0;
    while i < types.len()
        invariant
            i <= types.len(),
            names == type_names(types@),
            forall|j: int| 0 <= j < i ==> #[trigger] names[j] != name@,
        decreases types.len() - i,
    {
        if types[i].name == *name {
            proof {
                assert(names[i as int] == name@);
                lemma_first_index_is(names, name@, i as int);
            }
            return Some(i);
        }
        i = i + 1;
    }
    None
}

/// Puts `field` under its name: in place of the field that is found under
/// that name, or at the end where there is none.
pub fn insert_field(fields: &mut Vec<StatsField>, field: StatsField)
    ensures
        fields_of(final(fields)@) == fields_of(old(fields)@).insert(field.name@, field@),
        distinct(field_names(old(fields)@)) ==> distinct(field_names(final(fields)@)),
        field_names(final(fields)@) == if field_names(old(fields)@).contains(field.name@) {
            field_names(old(fields)@)
        } else {
            field_names(old(fields)@).push(field.name@)
        },
{
    let ghost names = field_names(fields@);
    let ghost usages = field_usages(fields@);
    match field_position(fields, &field.name) {
        Some(i) => {
            proof {
                lemma_keyed_update(names, usages, field.name@, field@);
            }
            fields.set(i, field);
            proof {
                assert(field_names(fields@) =~= names);
                assert(field_usages(fields@) =~= usages.update(i as int, field@));
            }
        },
        None => {
            proof {
                lemma_keyed_push(names, usages, field.name@, field@);
            }
            fields.push(field);
            proof {
                assert(field_names(fields@) =~= names.push(field.name@));
                assert(field_usages(fields@) =~= usages.push(field@));
            }
        },
    }
}

/// A list of named entries with `entry` put under its name: in place of the
/// first entry of that name, or at the end where there is none.
pub open spec fn with_entry(
    names: Seq<(Seq<char>, Seq<Seq<char>>)>,
    entry: (Seq<char>, Seq<Seq<char>>),
) -> Seq<(Seq<char>, Seq<Seq<char>>)> {
    let at = first_index(names.map_values(|n: (Seq<char>, Seq<Seq<char>>)| n.0), entry.0);
    if at < names.len() {
        names.update(at, entry)
    } else {
        names.push(entry)
    }
}

/// The names of the types that a schema defines, each once, in the order
/// in which they first occur, each with the names of its fields, as its last
/// definition declares them, each once, in the order in which they first
/// occur.
pub open spec fn schema_layout(definitions: Seq<SchemaDefinitionModel>) -> Seq<
    (Seq<char>, Seq<Seq<char>>),
>
    decreases definitions.len(),
{
    if definitions.len() == 0 {
        Seq::empty()
    } else {
        let before = schema_layout(definitions.drop_last());
        match definitions.last() {
            SchemaDefinitionModel::Fields { name, fields } => with_entry(
                before,
                (name, first_occurrences(fields.map_values(|f: FieldDefinitionModel| f.name))),
            ),
            SchemaDefinitionModel::Other => before,
        }
    }
}

/// The names of the types of a list are the first parts of `names_of`.
pub proof fn lemma_names_of(types: Seq<GraphQLType>)
    ensures
        names_of(types).map_values(|n: (Seq<char>, Seq<Seq<char>>)| n.0) == type_names(types),
        names_of(types).len() == types.len(),
{
    assert(names_of(types).map_values(|n: (Seq<char>, Seq<Seq<char>>)| n.0) =~= type_names(types));
}

/// Puts `entry` under its name: in place of the type that is found under
/// that name, or at the end where there is none.
pub fn insert_type(types: &mut Vec<GraphQLType>, entry: GraphQLType)
    ensures
        types_of(final(types)@) == types_of(old(types)@).insert(entry.name@, entry@),
        distinct(type_names(old(types)@)) ==> distinct(type_names(final(types)@)),
        each_named_once(names_of(old(types)@)) && distinct(field_names(entry.fields@))
            ==> each_named_once(names_of(final(types)@)),
        names_of(final(types)@) == with_entry(
            names_of(old(types)@),
            (entry.name@, field_names(entry.fields@)),
        ),
{
    let ghost names = type_names(types@);
    let ghost usages = type_usages(types@);
    match type_position(types, &entry.name) {
        Some(i) => {
            proof {
                lemma_keyed_update(names, usages, entry.name@, entry@);
            }
            types.set(i, entry);
            proof {
                assert(type_names(types@) =~= names);
                assert(type_usages(types@) =~= usages.update(i as int, entry@));
                lemma_names_of(old(types)@);
                lemma_names_of(types@);
                assert(names_of(types@) =~= names_of(old(types)@).update(
                    i as int,
                    (entry.name@, field_names(entry.fields@)),
                ));
                if each_named_once(names_of(old(types)@)) && distinct(field_names(entry.fields@)) {
                    assert forall|k: int| 0 <= k < types@.len() implies distinct(
                        (#[trigger] names_of(types@)[k]).1,
                    ) by {
                        if k != i {
                            assert(names_of(types@)[k] == names_of(old(types)@)[k]);
                        }
                    }
                }
            }
        },
        None => {
            proof {
                lemma_keyed_push(names, usages, entry.name@, entry@);
            }
            types.push(entry);
            proof {
                assert(type_names(types@) =~= names.push(entry.name@));
                assert(type_usages(types@) =~= usages.push(entry@));
                lemma_names_of(old(types)@);
                lemma_names_of(types@);
                lemma_first_index(names, entry.name@);
                assert(names_of(types@) =~= names_of(old(types)@).push(
                    (entry.name@, field_names(entry.fields@)),
                ));
                if each_named_once(names_of(old(types)@)) && distinct(field_names(entry.fields@)) {
                    assert forall|k: int| 0 <= k < types@.len() implies distinct(
                        (#[trigger] names_of(types@)[k]).1,
                    ) by {
                        if k < old(types)@.len() {
                            assert(names_of(types@)[k] == names_of(old(types)@)[k]);
                        }
                    }
                }
            }
        },
    }
}

/// The fields of a type as the schema declares them, none of them counted
/// yet.
fn fields_from(declared: &Vec<FieldDefinition>) -> (fields: Vec<StatsField>)
    ensures
        fields_of(fields@) == declared_fields(declared@.map_values(|f: FieldDefinition| f@)),
        distinct(field_names(fields@)),
        field_names(fields@) == first_occurrences(
            declared@.map_values(|f: FieldDefinition| f@).map_values(
                |f: FieldDefinitionModel| f.name,
            ),
        ),
{
    let ghost models = declared@.map_values(|f: FieldDefinition| f@);
    let ghost names = models.map_values(|f: FieldDefinitionModel| f.name);
    let mut fields: Vec<StatsField> = Vec::new();
    let mut i: usize = 0;
    proof {
        assert(models.subrange(0, 0) =~= Seq::<FieldDefinitionModel>::empty());
        assert(names.subrange(0, 0) =~= Seq::<Seq<char>>::empty());
        assert(fields_of(fields@) =~= Map::<Seq<char>, FieldUsage>::empty());
        assert(field_names(fields@) =~= Seq::<Seq<char>>::empty());
    }
    while i < declared.len()
        invariant
            i <= declared.len(),
            models == declared@.map_values(|f: FieldDefinition| f@),
            names == models.map_values(|f: FieldDefinitionModel| f.name),
            fields_of(fields@) == declared_fields(models.subrange(0, i as int)),
            field_names(fields@) == first_occurrences(names.subrange(0, i as int)),
            distinct(field_names(fields@)),
        decreases declared.len() - i,
    {
        proof {
            let next = names.subrange(0, i + 1);
            assert(next.drop_last() =~= names.subrange(0, i as int));
            assert(next.last() == declared[i as int].name@);
        }
        let field = StatsField {
            name: declared[i].name.clone(),
            type_signature: declared[i].field_type.clone(),
            count: 0,
        };
        proof {
            let next = models.subrange(0, i + 1);
            assert(next.drop_last() =~= models.subrange(0, i as int));
            assert(next.last() == declared[i as int]@);
        }
        insert_field(&mut fields, field);
        i = i + 1;
    }
    proof {
        assert(models.subrange(0, declared.len() as int) =~= models);
        assert(names.subrange(0, declared.len() as int) =~= names);
    }
    fields
}

impl GraphQLType {
    /// The entry of the usage map for an object type: its name and its
    /// declared fields, each with a count of zero.
    pub fn from_object(obj: ObjectType) -> (r: Self)
        ensures
            r.name@ == obj.name@,
            r@ == declared_fields(obj.fields@.map_values(|f: FieldDefinition| f@)),
            distinct(field_names(r.fields@)),
            field_names(r.fields@) == first_occurrences(
                obj.fields@.map_values(|f: FieldDefinition| f@).map_values(
                    |f: FieldDefinitionModel| f.name,
                ),
            ),
    {
        let fields = fields_from(&obj.fields);
        GraphQLType { name: obj.name, fields }
    }

    /// The entry of the usage map for an interface type: its name and its
    /// declared fields, each with a count of zero.
    pub fn from_interface(obj: InterfaceType) -> (r: Self)
        ensures
            r.name@ == obj.name@,
            r@ == declared_fields(obj.fields@.map_values(|f: FieldDefinition| f@)),
            distinct(field_names(r.fields@)),
            field_names(r.fields@) == first_occurrences(
                obj.fields@.map_values(|f: FieldDefinition| f@).map_values(
                    |f: FieldDefinitionModel| f.name,
                ),
            ),
    {
        let fields = fields_from(&obj.fields);
        GraphQLType { name: obj.name, fields }
    }
}


/// The usage map of a schema before anything was counted.
pub fn schema_types(schema: Vec<SchemaDefinition>) -> (r: UsageMap)
    ensures
        r@ == schema_usage(schema@.map_values(|d: SchemaDefinition| d@)),
        names_of(r.types@) == schema_layout(schema@.map_values(|d: SchemaDefinition| d@)),
        r.well_formed(),
{
    let ghost models = schema@.map_values(|d: SchemaDefinition| d@);
    let mut types: Vec<GraphQLType> = Vec::new();
    proof {
        assert(models.subrange(0, 0) =~= Seq::<SchemaDefinitionModel>::empty());
        assert(types_of(types@) =~= Map::<Seq<char>, TypeUsage>::empty());
        lemma_names_of(types@);
        assert(names_of(types@) =~= Seq::<(Seq<char>, Seq<Seq<char>>)>::empty());
    }
    for definition in it: schema
        invariant
            models == schema@.map_values(|d: SchemaDefinition| d@),
            types_of(types@) == schema_usage(models.subrange(0, it.index())),
            names_of(types@) == schema_layout(models.subrange(0, it.index())),
            each_named_once(names_of(types@)),
    {
        proof {
            let next = models.subrange(0, it.index() + 1);
            assert(next.drop_last() =~= models.subrange(0, it.index()));
            assert(next.last() == definition@);
        }
        match definition {
            SchemaDefinition::Object(o) => {
                insert_type(&mut types, GraphQLType::from_object(o));
            },
            SchemaDefinition::Interface(i) => {
                insert_type(&mut types, GraphQLType::from_interface(i));
            },
            SchemaDefinition::Other => {},
        }
    }
    proof {
        assert(models.subrange(0, schema@.len() as int) =~= models);
    }
    UsageMap { types }
}


/// Why a walk over a selection set stopped before its end.
pub enum Failure {
    /// A field was selected on a type that the usage map does not hold.
    TypeNotFound { on_type: Seq<char> },
    /// A field was selected that its type does not declare.
    FieldNotFound { field_name: Seq<char>, on_type: Seq<char> },
    /// The count of a field has reached the largest number it can hold.
    CountOverflow { field_name: Seq<char>, on_type: Seq<char> },
    /// A fragment was spread inside its own selections.
    FragmentCycle { fragment_name: Seq<char> },
    /// An inline fragment that names no type was met.
    MissingTypeCondition,
}

/// Why the usage of an operation or a fragment could not be counted to the
/// end.
#[derive(Clone, Debug, PartialEq, Eq)]
pub enum UsageError {
    /// A field was selected on a type that the usage map does not hold.
    TypeNotFound { on_type: String },
    /// A field was selected that its type does not declare.
    FieldNotFound { field_name: String, on_type: String },
    /// The count of a field has reached the largest number it can hold.
    CountOverflow { field_name: String, on_type: String },
    /// A fragment was spread inside its own selections.
    FragmentCycle { fragment_name: String },
    /// An inline fragment that names no type was met.
    MissingTypeCondition,
}

impl View for UsageError {
    type V = Failure;

    open spec fn view(&self) -> Failure {
        match self {
            UsageError::TypeNotFound { on_type } => Failure::TypeNotFound {
                on_type: on_type@,
            },
            UsageError::FieldNotFound { field_name, on_type } => Failure::FieldNotFound {
                field_name: field_name@,
                on_type: on_type@,
            },
            UsageError::CountOverflow { field_name, on_type } => Failure::CountOverflow {
                field_name: field_name@,
                on_type: on_type@,
            },
            UsageError::FragmentCycle { fragment_name } => Failure::FragmentCycle {
                fragment_name: fragment_name@,
            },
            UsageError::MissingTypeCondition => Failure::MissingTypeCondition,
        }
    }
}

/// The failure that a result stands for, if any.
pub open spec fn failure_of(r: Result<(), UsageError>) -> Option<Failure> {
    match r {
        Ok(_) => None,
        Err(e) => Some(e@),
    }
}

/// The largest count that a field can hold.
pub open spec fn max_count() -> int {
    0x7fff_ffff
}

/// The name of the field that every type has without declaring it, and that
/// is never counted.
pub open spec fn typename_field() -> Seq<char> {
    "__typename"@
}

/// What a walk leaves: the usage map as far as it was counted, and the
/// failure that stopped it, if one did.
pub struct Walk {
    pub usage: Usage,
    pub failure: Option<Failure>,
}

/// Why the selection of `field_name` on the type `on_type` cannot be
/// counted, if it cannot.
pub open spec fn selection_failure(usage: Usage, on_type: Seq<char>, field_name: Seq<char>)
    -> Option<Failure> {
    if !usage.contains_key(on_type) {
        Some(Failure::TypeNotFound { on_type })
    } else if !usage[on_type].contains_key(field_name) {
        Some(Failure::FieldNotFound { field_name, on_type })
    } else if usage[on_type][field_name].count >= max_count() {
        Some(Failure::CountOverflow { field_name, on_type })
    } else {
        None
    }
}

/// The usage map with one more selection of `field_name` on `on_type`.
pub open spec fn counted(usage: Usage, on_type: Seq<char>, field_name: Seq<char>) -> Usage {
    let field = usage[on_type][field_name];
    usage.insert(
        on_type,
        usage[on_type].insert(
            field_name,
            FieldUsage { type_signature: field.type_signature, count: field.count + 1 },
        ),
    )
}

/// How many fragments are not being walked at the moment: each spread that
/// is followed makes this smaller, which is why a walk ends.
pub open spec fn budget(fragments: Map<Seq<char>, FragmentModel>, active: Set<Seq<char>>) -> nat {
    fragments.dom().difference(active).len()
}

/// Following a spread into a fragment that is not being walked lowers the
/// budget.
pub proof fn lemma_budget_decreases(
    fragments: Map<Seq<char>, FragmentModel>,
    active: Set<Seq<char>>,
    name: Seq<char>,
)
    requires
        fragments.dom().finite(),
        fragments.contains_key(name),
        !active.contains(name),
    ensures
        budget(fragments, active.insert(name)) < budget(fragments, active),
{
    let open = fragments.dom().difference(active);
    assert(open.contains(name));
    assert(fragments.dom().difference(active.insert(name)) =~= open.remove(name));
}

/// The walk over one selection, made on the type `root`.
///
/// A field is counted on `root` and its selections are walked on the type
/// that its signature names; `__typename` is passed over. An inline fragment
/// is walked on its type condition, and stops the walk where it has none. A spread is walked as the fragment it
/// names, on that fragment's type condition; a name without a fragment is
/// passed over, and a fragment that is being walked already stops the walk.
/// `active` holds the names of the fragments that are being walked.
pub open spec fn walk_selection(
    selection: SelectionModel,
    root: Seq<char>,
    usage: Usage,
    fragments: Map<Seq<char>, FragmentModel>,
    active: Set<Seq<char>>,
) -> Walk
    decreases budget(fragments, active), selection, 0nat,
    when fragments.dom().finite()
{
    match selection {
        SelectionModel::Field { name, selection_set } => {
            if name == typename_field() {
                Walk { usage, failure: None }
            } else if selection_failure(usage, root, name) is Some {
                Walk { usage, failure: selection_failure(usage, root, name) }
            } else {
                walk_selections(
                    selection_set,
                    0,
                    strip_decoration(usage[root][name].type_signature),
                    counted(usage, root, name),
                    fragments,
                    active,
                )
            }
        },
        SelectionModel::InlineFragment { type_condition, selection_set } => match type_condition {
            Some(on) => walk_selections(selection_set, 0, on, usage, fragments, active),
            None => Walk { usage, failure: Some(Failure::MissingTypeCondition) },
        },
        SelectionModel::FragmentSpread { fragment_name } => {
            if !fragments.contains_key(fragment_name) {
                Walk { usage, failure: None }
            } else if active.contains(fragment_name) {
                Walk { usage, failure: Some(Failure::FragmentCycle { fragment_name }) }
            } else {
                proof {
                    lemma_budget_decreases(fragments, active, fragment_name);
                }
                walk_selections(
                    fragments[fragment_name].selection_set,
                    0,
                    fragments[fragment_name].type_condition,
                    usage,
                    fragments,
                    active.insert(fragment_name),
                )
            }
        },
    }
}

/// The walk over the selections of `items` from the place `from` on, in
/// order, each on the type `root`. The first failure ends it, and leaves what
/// was counted before.
pub open spec fn walk_selections(
    items: Seq<SelectionModel>,
    from: int,
    root: Seq<char>,
    usage: Usage,
    fragments: Map<Seq<char>, FragmentModel>,
    active: Set<Seq<char>>,
) -> Walk
    decreases budget(fragments, active), items, items.len() - from,
    when fragments.dom().finite()
{
    if from < 0 || from >= items.len() {
        Walk { usage, failure: None }
    } else {
        let first = walk_selection(items[from], root, usage, fragments, active);
        if first.failure is Some {
            first
        } else {
            walk_selections(items, from + 1, root, first.usage, fragments, active)
        }
    }
}


/// The names that a list of texts holds.
pub open spec fn active_names(active: Seq<String>) -> Set<Seq<char>> {
    texts(active).to_set()
}

/// A name put behind a list of texts is one more name that the list holds.
proof fn lemma_active_push(active: Seq<String>, name: String)
    ensures
        active_names(active.push(name)) == active_names(active).insert(name@),
{
    let before = texts(active);
    let after = texts(active.push(name));
    assert(after =~= before.push(name@));
    assert forall|n: Seq<char>| after.to_set().contains(n) <==> before.to_set().insert(
        name@,
    ).contains(n) by {
        if after.contains(n) {
            let i = choose|i: int| 0 <= i < after.len() && after[i] == n;
            if i < before.len() {
                assert(before[i] == n);
            }
        }
        if before.contains(n) {
            let i = choose|i: int| 0 <= i < before.len() && before[i] == n;
            assert(after[i] == n);
        }
        if n == name@ {
            assert(after[before.len() as int] == n);
        }
    }
    assert(after.to_set() =~= before.to_set().insert(name@));
}

/// Counts one selection of the field `name` on the type `root`, and gives
/// the name of the type that the field's signature names.
fn record_selection(schema: &mut UsageMap, root: &String, name: &String) -> (r: Result<
    String,
    UsageError,
>)
    ensures
        names_of(final(schema).types@) == names_of(old(schema).types@),
        match selection_failure(old(schema)@, root@, name@) {
            Some(failure) => r matches Err(e) && e@ == failure && final(schema)@ == old(schema)@,
            None => r matches Ok(nested) && nested@ == strip_decoration(
                old(schema)@[root@][name@].type_signature,
            ) && final(schema)@ == counted(old(schema)@, root@, name@),
        },
{
    let ti = match type_position(&schema.types, root) {
        Some(i) => i,
        None => {
            return Err(UsageError::TypeNotFound { on_type: root.clone() });
        },
    };
    let fi = match field_position(&schema.types[ti].fields, name) {
        Some(i) => i,
        None => {
            return Err(
                UsageError::FieldNotFound { field_name: name.clone(), on_type: root.clone() },
            );
        },
    };
    let count: i32 = schema.types[ti].fields[fi].count;
    if count == i32::MAX {
        return Err(UsageError::CountOverflow { field_name: name.clone(), on_type: root.clone() });
    }
    let nested = strip_type_decoration(schema.types[ti].fields[fi].type_signature.as_str());
    let ghost before = schema.types@;
    let ghost entry = before[ti as int];
    let ghost field = entry.fields@[fi as int];
    schema.types[ti].fields[fi].count = count + 1;
    proof {
        let after = schema.types@;
        let new_entry = after[ti as int];
        let new_field = new_entry.fields@[fi as int];
        assert(after =~= before.update(ti as int, new_entry));
        assert(new_entry.fields@ =~= entry.fields@.update(fi as int, new_field));
        assert(new_entry.name == entry.name);
        assert(new_field.name == field.name);
        assert(field_names(new_entry.fields@) =~= field_names(entry.fields@));
        assert(field_usages(new_entry.fields@) =~= field_usages(entry.fields@).update(
            fi as int,
            new_field@,
        ));
        lemma_keyed_update(
            field_names(entry.fields@),
            field_usages(entry.fields@),
            name@,
            new_field@,
        );
        assert(type_names(after) =~= type_names(before));
        assert(names_of(after) =~= names_of(before));
        assert(type_usages(after) =~= type_usages(before).update(ti as int, new_entry@));
        lemma_keyed_update(type_names(before), type_usages(before), root@, new_entry@);
    }
    Ok(nested)
}

/// Whether `schema` and `r` are what the walk `w` leaves.
pub open spec fn is_walk(schema: UsageMap, r: Result<(), UsageError>, w: Walk) -> bool {
    schema@ == w.usage && failure_of(r) == w.failure
}

/// Walks one selection on the type `root`, while the fragments named in
/// `active` are being walked.
fn walk_one(
    selection: &Selection,
    root: &String,
    schema: &mut UsageMap,
    fragments: &Vec<FragmentDefinition>,
    active: &mut Vec<String>,
) -> (r: Result<(), UsageError>)
    ensures
        final(active)@ == old(active)@,
        names_of(final(schema).types@) == names_of(old(schema).types@),
        is_walk(
            *final(schema),
            r,
            walk_selection(
                selection@,
                root@,
                old(schema)@,
                fragments_of(fragments@),
                active_names(old(active)@),
            ),
        ),
    decreases budget(fragments_of(fragments@), active_names(old(active)@)), selection,
{
    proof {
        lemma_fragments_finite(fragments@);
    }
    match selection {
        Selection::Field { name, selection_set } => {
            if same_text(name.as_str(), "__typename") {
                return Ok(());
            }
            match record_selection(schema, root, name) {
                Err(e) => Err(e),
                Ok(nested) => walk_all(selection_set, &nested, schema, fragments, active),
            }
        },
        Selection::InlineFragment { type_condition, selection_set } => match type_condition {
            Some(on) => walk_all(selection_set, on, schema, fragments, active),
            None => Err(UsageError::MissingTypeCondition),
        },
        Selection::FragmentSpread { fragment_name } => {
            match fragment_position(fragments, fragment_name) {
                None => Ok(()),
                Some(j) => {
                    if contains_text(active, fragment_name) {
                        return Err(
                            UsageError::FragmentCycle { fragment_name: fragment_name.clone() },
                        );
                    }
                    proof {
                        lemma_active_push(active@, *fragment_name);
                        lemma_budget_decreases(
                            fragments_of(fragments@),
                            active_names(active@),
                            fragment_name@,
                        );
                    }
                    active.push(fragment_name.clone());
                    let r = walk_all(
                        &fragments[j].selection_set,
                        &fragments[j].type_condition,
                        schema,
                        fragments,
                        active,
                    );
                    active.pop();
                    assert(active@ =~= old(active)@);
                    r
                },
            }
        },
    }
}

/// Walks the selections of `items`, in order, on the type `root`, while the
/// fragments named in `active` are being walked.
fn walk_all(
    items: &Vec<Selection>,
    root: &String,
    schema: &mut UsageMap,
    fragments: &Vec<FragmentDefinition>,
    active: &mut Vec<String>,
) -> (r: Result<(), UsageError>)
    ensures
        final(active)@ == old(active)@,
        names_of(final(schema).types@) == names_of(old(schema).types@),
        is_walk(
            *final(schema),
            r,
            walk_selections(
                selection_models(items@),
                0,
                root@,
                old(schema)@,
                fragments_of(fragments@),
                active_names(old(active)@),
            ),
        ),
    decreases budget(fragments_of(fragments@), active_names(old(active)@)), items,
{
    let ghost models = selection_models(items@);
    let ghost names = fragments_of(fragments@);
    let ghost on_path = active_names(active@);
    let ghost whole = walk_selections(models, 0, root@, schema@, names, on_path);
    proof {
        lemma_fragments_finite(fragments@);
        lemma_selection_models(items@);
    }
    let mut i: usize = 0;
    while i < items.len()
        invariant
            i <= items.len(),
            models == selection_models(items@),
            models.len() == items.len(),
            forall|k: int| 0 <= k < items.len() ==> models[k] == (#[trigger] items[k])@,
            names == fragments_of(fragments@),
            names.dom().finite(),
            active@ == old(active)@,
            on_path == active_names(old(active)@),
            names_of(schema.types@) == names_of(old(schema).types@),
            whole == walk_selections(models, 0, root@, old(schema)@, names, on_path),
            whole == walk_selections(models, i as int, root@, schema@, names, on_path),
        decreases items.len() - i,
    {
        let ghost before = schema@;
        let step = walk_one(&items[i], root, schema, fragments, active);
        proof {
            let first = walk_selection(models[i as int], root@, before, names, on_path);
            assert(models[i as int] == items[i as int]@);
            assert(is_walk(*schema, step, first));
            assert(whole == if first.failure is Some {
                first
            } else {
                walk_selections(models, i + 1, root@, first.usage, names, on_path)
            });
        }
        if step.is_err() {
            return step;
        }
        i = i + 1;
    }
    Ok(())
}

/// Counts the usage of a selection set made on the type `root_type_name`.
///
/// Each field selection adds one to the count of that field on the type the
/// selection is made on, in the order of the walk that `walk_selections`
/// describes. The first selection that cannot be counted ends the walk with
/// its error; what was counted before stays counted. No entry is added to or
/// taken from the usage map.
pub fn get_tree_for_selection_set(
    selection_set: &Vec<Selection>,
    root_type_name: &str,
    schema: &mut UsageMap,
    fragments: &Vec<FragmentDefinition>,
) -> (r: Result<(), UsageError>)
    ensures
        names_of(final(schema).types@) == names_of(old(schema).types@),
        is_walk(
            *final(schema),
            r,
            walk_selections(
                selection_models(selection_set@),
                0,
                root_type_name@,
                old(schema)@,
                fragments_of(fragments@),
                Set::empty(),
            ),
        ),
{
    let mut active: Vec<String> = Vec::new();
    let root = root_type_name.to_owned();
    assert(active_names(active@) =~= Set::<Seq<char>>::empty());
    walk_all(selection_set, &root, schema, fragments, &mut active)
}

/// The walk that counts an operation: over its selections, on the root type
/// of its kind.
pub open spec fn walk_operation(
    operation: OperationModel,
    usage: Usage,
    fragments: Map<Seq<char>, FragmentModel>,
) -> Walk {
    walk_selections(
        operation.selection_set,
        0,
        root_type_of(operation.kind),
        usage,
        fragments,
        Set::empty(),
    )
}

/// The walk that counts a fragment by itself: over its selections, on its
/// type condition, with the fragment itself being walked.
pub open spec fn walk_fragment(
    name: Seq<char>,
    fragment: FragmentModel,
    usage: Usage,
    fragments: Map<Seq<char>, FragmentModel>,
) -> Walk {
    walk_selections(
        fragment.selection_set,
        0,
        fragment.type_condition,
        usage,
        fragments,
        Set::empty().insert(name),
    )
}

/// Counts the usage of one operation: of a query and of a selection set that
/// stands alone on `Query`, of a mutation on `Mutation`, of a subscription on
/// `Subscription`.
pub fn update_usages_for_operation(
    operation: &OperationDefinition,
    schema: &mut UsageMap,
    fragments: &Vec<FragmentDefinition>,
) -> (r: Result<(), UsageError>)
    ensures
        names_of(final(schema).types@) == names_of(old(schema).types@),
        is_walk(*final(schema), r, walk_operation(operation@, old(schema)@, fragments_of(fragments@))),
{
    get_tree_for_selection_set(
        &operation.selection_set,
        root_type_name(operation.kind),
        schema,
        fragments,
    )
}

/// Counts the usage of one fragment by itself, on its type condition.
pub fn update_usages_for_fragment(
    fragment: &FragmentDefinition,
    schema: &mut UsageMap,
    fragments: &Vec<FragmentDefinition>,
) -> (r: Result<(), UsageError>)
    ensures
        names_of(final(schema).types@) == names_of(old(schema).types@),
        is_walk(
            *final(schema),
            r,
            walk_fragment(fragment.name@, fragment@, old(schema)@, fragments_of(fragments@)),
        ),
{
    let mut active: Vec<String> = Vec::new();
    proof {
        lemma_active_push(active@, fragment.name);
        assert(active_names(active@) =~= Set::<Seq<char>>::empty());
    }
    active.push(fragment.name.clone());
    walk_all(&fragment.selection_set, &fragment.type_condition, schema, fragments, &mut active)
}


/// The operations of a document, in order.
pub open spec fn operations_of(definitions: Seq<DefinitionModel>) -> Seq<OperationModel>
    decreases definitions.len(),
{
    if definitions.len() == 0 {
        Seq::empty()
    } else {
        let before = operations_of(definitions.drop_last());
        match definitions.last() {
            DefinitionModel::Operation(o) => before.push(o),
            DefinitionModel::Fragment { .. } => before,
        }
    }
}

/// The fragments of a document, by name. Where a name is defined twice, the
/// later definition stands.
pub open spec fn fragments_in(definitions: Seq<DefinitionModel>) -> Map<Seq<char>, FragmentModel>
    decreases definitions.len(),
{
    if definitions.len() == 0 {
        Map::empty()
    } else {
        let before = fragments_in(definitions.drop_last());
        match definitions.last() {
            DefinitionModel::Operation(_) => before,
            DefinitionModel::Fragment { name, fragment } => before.insert(name, fragment),
        }
    }
}

/// The names of the fragments of a document, each once, in the order in
/// which they first occur.
pub open spec fn fragment_order(definitions: Seq<DefinitionModel>) -> Seq<Seq<char>>
    decreases definitions.len(),
{
    if definitions.len() == 0 {
        Seq::empty()
    } else {
        let before = fragment_order(definitions.drop_last());
        match definitions.last() {
            DefinitionModel::Operation(_) => before,
            DefinitionModel::Fragment { name, .. } => if before.contains(name) {
                before
            } else {
                before.push(name)
            },
        }
    }
}

/// The models of a list of operations, in order.
pub open spec fn operation_models(operations: Seq<OperationDefinition>) -> Seq<OperationModel> {
    operations.map_values(|o: OperationDefinition| o@)
}

/// Parts a document into its operations, in order, and its fragments, by
/// name.
pub fn split_document(document: Document) -> (r: (
    Vec<OperationDefinition>,
    Vec<FragmentDefinition>,
))
    ensures
        operation_models(r.0@) == operations_of(document@),
        fragments_of(r.1@) == fragments_in(document@),
        fragment_names(r.1@) == fragment_order(document@),
        distinct(fragment_names(r.1@)),
{
    let ghost models = document@;
    let mut operations: Vec<OperationDefinition> = Vec::new();
    let mut fragments: Vec<FragmentDefinition> = Vec::new();
    proof {
        assert(models.subrange(0, 0) =~= Seq::<DefinitionModel>::empty());
        assert(operation_models(operations@) =~= Seq::<OperationModel>::empty());
        assert(fragment_names(fragments@) =~= Seq::<Seq<char>>::empty());
        assert(fragments_of(fragments@) =~= Map::<Seq<char>, FragmentModel>::empty());
    }
    let definitions = document.definitions;
    for definition in it: definitions
        invariant
            models == definitions@.map_values(|d: Definition| d@),
            operation_models(operations@) == operations_of(models.subrange(0, it.index())),
            fragments_of(fragments@) == fragments_in(models.subrange(0, it.index())),
            fragment_names(fragments@) == fragment_order(models.subrange(0, it.index())),
            distinct(fragment_names(fragments@)),
    {
        proof {
            let next = models.subrange(0, it.index() + 1);
            assert(next.drop_last() =~= models.subrange(0, it.index()));
            assert(next.last() == definition@);
        }
        match definition {
            Definition::Operation(o) => {
                proof {
                    assert(operation_models(operations@.push(o)) =~= operation_models(
                        operations@,
                    ).push(o@));
                }
                operations.push(o);
            },
            Definition::Fragment(f) => {
                insert_fragment(&mut fragments, f);
            },
        }
    }
    proof {
        assert(models.subrange(0, definitions@.len() as int) =~= models);
    }
    (operations, fragments)
}

/// What counting a list of operations or fragments leaves: the usage map,
/// and the failures of those that could not be counted to the end, in order.
pub struct Run {
    pub usage: Usage,
    pub failures: Seq<Failure>,
}

/// A run with the walk `w` behind it.
pub open spec fn run_then(before: Run, w: Walk) -> Run {
    Run {
        usage: w.usage,
        failures: match w.failure {
            Some(f) => before.failures.push(f),
            None => before.failures,
        },
    }
}

/// Counting the operations of a list one after the other. An operation that
/// fails keeps what it counted, and the next one is counted all the same.
pub open spec fn count_operations(
    operations: Seq<OperationModel>,
    usage: Usage,
    fragments: Map<Seq<char>, FragmentModel>,
) -> Run
    decreases operations.len(),
{
    if operations.len() == 0 {
        Run { usage, failures: Seq::empty() }
    } else {
        let before = count_operations(operations.drop_last(), usage, fragments);
        run_then(before, walk_operation(operations.last(), before.usage, fragments))
    }
}

/// Counting the fragments named, each by itself, one after the other.
pub open spec fn count_fragments(
    names: Seq<Seq<char>>,
    usage: Usage,
    fragments: Map<Seq<char>, FragmentModel>,
) -> Run
    decreases names.len(),
{
    if names.len() == 0 {
        Run { usage, failures: Seq::empty() }
    } else {
        let before = count_fragments(names.drop_last(), usage, fragments);
        run_then(
            before,
            walk_fragment(names.last(), fragments[names.last()], before.usage, fragments),
        )
    }
}

/// The outcome of an analysis: the usage map and what could not be counted.
#[derive(Clone, Debug, PartialEq, Eq)]
pub struct SchemaStats {
    /// The types of the schema with the counts of their fields.
    pub usage: UsageMap,
    /// The failure of each operation that could not be counted to its end.
    pub operation_errors: Vec<UsageError>,
    /// The failure of each fragment that could not be counted to its end.
    pub fragment_errors: Vec<UsageError>,
}

/// The model of the outcome of an analysis.
pub struct SchemaStatsModel {
    pub usage: Usage,
    pub operation_failures: Seq<Failure>,
    pub fragment_failures: Seq<Failure>,
}

/// The models of a list of errors, in order.
pub open spec fn failures_of(errors: Seq<UsageError>) -> Seq<Failure> {
    errors.map_values(|e: UsageError| e@)
}

impl View for SchemaStats {
    type V = SchemaStatsModel;

    open spec fn view(&self) -> SchemaStatsModel {
        SchemaStatsModel {
            usage: self.usage@,
            operation_failures: failures_of(self.operation_errors@),
            fragment_failures: failures_of(self.fragment_errors@),
        }
    }
}

/// The analysis of a document against a schema: the usage map of the schema
/// with every operation of the document counted, in order, and then, where
/// `include_fragments` is set, every fragment of the document counted by
/// itself, in the order in which the fragments first occur.
pub open spec fn schema_stats(
    schema: Seq<SchemaDefinitionModel>,
    document: Seq<DefinitionModel>,
    include_fragments: bool,
) -> SchemaStatsModel {
    let fragments = fragments_in(document);
    let operations = count_operations(operations_of(document), schema_usage(schema), fragments);
    if include_fragments {
        let alone = count_fragments(fragment_order(document), operations.usage, fragments);
        SchemaStatsModel {
            usage: alone.usage,
            operation_failures: operations.failures,
            fragment_failures: alone.failures,
        }
    } else {
        SchemaStatsModel {
            usage: operations.usage,
            operation_failures: operations.failures,
            fragment_failures: Seq::empty(),
        }
    }
}

/// Analyses a document against a schema.
///
/// The result holds one entry for each object and interface type of the
/// schema. Every operation is counted; one that fails is reported and keeps
/// what it counted. With `include_fragments`, every fragment is then counted
/// by itself as well, whether an operation spreads it or not.
pub fn analyze_document(
    schema: Vec<SchemaDefinition>,
    document: Document,
    include_fragments: bool,
) -> (r: SchemaStats)
    ensures
        r@ == schema_stats(
            schema@.map_values(|d: SchemaDefinition| d@),
            document@,
            include_fragments,
        ),
        names_of(r.usage.types@) == schema_layout(schema@.map_values(|d: SchemaDefinition| d@)),
        r.usage.well_formed(),
{
    let ghost schema_model = schema@.map_values(|d: SchemaDefinition| d@);
    let ghost document_model = document@;
    let mut usage = schema_types(schema);
    let (operations, fragments) = split_document(document);
    let ghost start = usage@;
    let ghost by_name = fragments_of(fragments@);
    let ghost operation_list = operation_models(operations@);
    let mut operation_errors: Vec<UsageError> = Vec::new();
    proof {
        assert(operation_list.subrange(0, 0) =~= Seq::<OperationModel>::empty());
        assert(failures_of(operation_errors@) =~= Seq::<Failure>::empty());
    }
    let mut i: usize = 0;
    while i < operations.len()
        invariant
            i <= operations.len(),
            by_name == fragments_of(fragments@),
            operation_list == operation_models(operations@),
            usage.well_formed(),
            names_of(usage.types@) == schema_layout(schema_model),
            (Run { usage: usage@, failures: failures_of(operation_errors@) }) == count_operations(
                operation_list.subrange(0, i as int),
                start,
                by_name,
            ),
        decreases operations.len() - i,
    {
        proof {
            let next = operation_list.subrange(0, i + 1);
            assert(next.drop_last() =~= operation_list.subrange(0, i as int));
            assert(next.last() == operations[i as int]@);
        }
        match update_usages_for_operation(&operations[i], &mut usage, &fragments) {
            Err(e) => {
                proof {
                    assert(failures_of(operation_errors@.push(e)) =~= failures_of(
                        operation_errors@,
                    ).push(e@));
                }
                operation_errors.push(e);
            },
            Ok(_) => {},
        }
        i = i + 1;
    }
    proof {
        assert(operation_list.subrange(0, operations.len() as int) =~= operation_list);
    }
    let mut fragment_errors: Vec<UsageError> = Vec::new();
    assert(failures_of(fragment_errors@) =~= Seq::<Failure>::empty());
    if include_fragments {
        let ghost after_operations = usage@;
        let ghost names = fragment_names(fragments@);
        proof {
            assert(names.subrange(0, 0) =~= Seq::<Seq<char>>::empty());
        }
        let mut j: usize = 0;
        while j < fragments.len()
            invariant
                j <= fragments.len(),
                by_name == fragments_of(fragments@),
                names == fragment_names(fragments@),
                distinct(names),
                usage.well_formed(),
                names_of(usage.types@) == schema_layout(schema_model),
                (Run { usage: usage@, failures: failures_of(fragment_errors@) }) == count_fragments(
                    names.subrange(0, j as int),
                    after_operations,
                    by_name,
                ),
            decreases fragments.len() - j,
        {
            proof {
                let next = names.subrange(0, j + 1);
                assert(next.drop_last() =~= names.subrange(0, j as int));
                assert(next.last() == fragments[j as int].name@);
                assert(names[j as int] == fragments[j as int].name@);
                lemma_first_index_is(names, names[j as int], j as int);
                assert(names.contains(names[j as int]));
                assert(by_name[names[j as int]] == fragments[j as int]@);
            }
            match update_usages_for_fragment(&fragments[j], &mut usage, &fragments) {
                Err(e) => {
                    proof {
                        assert(failures_of(fragment_errors@.push(e)) =~= failures_of(
                            fragment_errors@,
                        ).push(e@));
                    }
                    fragment_errors.push(e);
                },
                Ok(_) => {},
            }
            j = j + 1;
        }
        proof {
            assert(names.subrange(0, fragments.len() as int) =~= names);
        }
    }
    SchemaStats { usage, operation_errors, fragment_errors }
}


/// What the message of a failure says.
pub open spec fn failure_message(failure: Failure) -> Seq<char> {
    match failure {
        Failure::TypeNotFound { on_type } => "type not found: "@ + on_type,
        Failure::FieldNotFound { field_name, on_type } => "field not found: "@ + field_name
            + " in "@ + on_type,
        Failure::CountOverflow { field_name, on_type } => "count at its limit: "@ + field_name
            + " in "@ + on_type,
        Failure::FragmentCycle { fragment_name } => "fragment spread inside itself: "@
            + fragment_name,
        Failure::MissingTypeCondition => "inline fragment without a type condition"@,
    }
}

impl UsageError {
    /// The error as a message for a reader.
    pub fn message(&self) -> (r: String)
        ensures
            r@ == failure_message(self@),
    {
        match self {
            UsageError::TypeNotFound { on_type } => {
                let mut text = "type not found: ".to_owned();
                text.append(on_type.as_str());
                text
            },
            UsageError::FieldNotFound { field_name, on_type } => {
                let mut text = "field not found: ".to_owned();
                text.append(field_name.as_str());
                text.append(" in ");
                text.append(on_type.as_str());
                text
            },
            UsageError::CountOverflow { field_name, on_type } => {
                let mut text = "count at its limit: ".to_owned();
                text.append(field_name.as_str());
                text.append(" in ");
                text.append(on_type.as_str());
                text
            },
            UsageError::FragmentCycle { fragment_name } => {
                let mut text = "fragment spread inside itself: ".to_owned();
                text.append(fragment_name.as_str());
                text
            },
            UsageError::MissingTypeCondition => {
                "inline fragment without a type condition".to_owned()
            },
        }
    }
}

/// The usage map of the schema that a text stands for, before anything was
/// counted; `None` where the text is no schema.
pub fn get_schema_types(schema: &str) -> (r: Option<UsageMap>)
    ensures
        match schema_of(schema@) {
            Some(definitions) => r matches Some(usage) && usage@ == schema_usage(definitions)
                && names_of(usage.types@) == schema_layout(definitions) && usage.well_formed(),
            None => r is None,
        },
{
    match read_schema(schema) {
        Some(definitions) => Some(schema_types(definitions)),
        None => None,
    }
}

/// The operations, in order, and the fragments, by name, of the document
/// that a text stands for; `None` where the text is no document.
pub fn extract_queries_and_fragments(document: &str) -> (r: Option<
    (Vec<OperationDefinition>, Vec<FragmentDefinition>),
>)
    ensures
        match document_of(document@) {
            Some(definitions) => r matches Some(parts) && operation_models(parts.0@)
                == operations_of(definitions) && fragments_of(parts.1@) == fragments_in(
                definitions,
            ) && fragment_names(parts.1@) == fragment_order(definitions) && distinct(
                fragment_names(parts.1@),
            ),
            None => r is None,
        },
{
    match read_document(document) {
        Some(read) => Some(split_document(read)),
        None => None,
    }
}

/// Why an analysis could not be made.
#[derive(Clone, Copy, Debug, PartialEq, Eq)]
pub enum AnalysisError {
    /// The text of the schema is no schema.
    Schema,
    /// The text of the documents is no document.
    Document,
}

/// The analysis of the text of a document against the text of a schema. The
/// schema is read first.
pub open spec fn analysis_of(
    schema: Seq<char>,
    document: Seq<char>,
    include_fragments: bool,
) -> Result<SchemaStatsModel, AnalysisError> {
    match schema_of(schema) {
        None => Err(AnalysisError::Schema),
        Some(definitions) => match document_of(document) {
            None => Err(AnalysisError::Document),
            Some(read) => Ok(schema_stats(definitions, read, include_fragments)),
        },
    }
}

/// Analyses the text of a document against the text of a schema.
///
/// Both texts are parsed, the schema first, and the analysis is made exactly
/// where the parser makes a schema of the one and a document of the other.
/// The usage map holds one entry for each object and interface type of the
/// schema, in the order of the schema. Every operation of the document is
/// counted; one that fails is reported and keeps what it counted. With
/// `include_fragments`, every fragment is then counted by itself as well,
/// whether an operation spreads it or not.
pub fn generate_schema_stats(schema: &str, queries_document: &str, include_fragments: bool) -> (r:
    Result<SchemaStats, AnalysisError>)
    ensures
        match analysis_of(schema@, queries_document@, include_fragments) {
            Ok(stats) => r matches Ok(made) && made@ == stats && names_of(made.usage.types@)
                == schema_layout(schema_of(schema@)->0) && made.usage.well_formed(),
            Err(e) => r matches Err(why) && why == e,
        },
{
    let definitions = match read_schema(schema) {
        Some(definitions) => definitions,
        None => {
            return Err(AnalysisError::Schema);
        },
    };
    match read_document(queries_document) {
        Some(read) => Ok(analyze_document(definitions, read, include_fragments)),
        None => Err(AnalysisError::Document),
    }
}

} // verus!
