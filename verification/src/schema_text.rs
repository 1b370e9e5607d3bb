//! The text of a schema, read with the parser of `graphql_parser`, and the
//! types of fields as a schema writes them.

use crate::document::FieldDefinition;
use crate::document::FieldDefinitionModel;
use crate::document::InterfaceType;
use crate::document::ObjectType;
use crate::document::SchemaDefinition;
use crate::document::SchemaDefinitionModel;
use crate::text::is_decoration;
use crate::text::is_plain_name;
use crate::text::lemma_strip_decorated_name;
use crate::text::strip_decoration;
use crate::text::is_readable;
use graphql_parser::schema;
use graphql_parser::schema::Definition;
use graphql_parser::schema::TypeDefinition;
use vstd::prelude::*;

verus! {

/// The type of a field: a named type, a list of a type, or a type that is
/// never null.
#[derive(Debug, PartialEq, Eq)]
pub enum TypeReference {
    Named(String),
    List(Box<TypeReference>),
    NonNull(Box<TypeReference>),
}

/// The model of a `TypeReference`.
pub enum TypeReferenceModel {
    Named(Seq<char>),
    List(Box<TypeReferenceModel>),
    NonNull(Box<TypeReferenceModel>),
}

/// The model of a type.
pub open spec fn type_model(t: TypeReference) -> TypeReferenceModel
    decreases t,
{
    match t {
        TypeReference::Named(name) => TypeReferenceModel::Named(name@),
        TypeReference::List(inner) => TypeReferenceModel::List(Box::new(type_model(*inner))),
        TypeReference::NonNull(inner) => TypeReferenceModel::NonNull(
            Box::new(type_model(*inner)),
        ),
    }
}

impl View for TypeReference {
    type V = TypeReferenceModel;

    open spec fn view(&self) -> TypeReferenceModel {
        type_model(*self)
    }
}

/// A type as a schema writes it: a named type by its name, a list between
/// brackets, and a type that is never null with `!` behind it.
pub open spec fn written(t: TypeReferenceModel) -> Seq<char>
    decreases t,
{
    match t {
        TypeReferenceModel::Named(name) => name,
        TypeReferenceModel::List(inner) => "["@ + written(*inner) + "]"@,
        TypeReferenceModel::NonNull(inner) => written(*inner) + "!"@,
    }
}

/// The name of the type that a type is made of.
pub open spec fn named_by(t: TypeReferenceModel) -> Seq<char>
    decreases t,
{
    match t {
        TypeReferenceModel::Named(name) => name,
        TypeReferenceModel::List(inner) => named_by(*inner),
        TypeReferenceModel::NonNull(inner) => named_by(*inner),
    }
}

/// Writes a type as a schema writes it.
pub fn write_type(t: &TypeReference) -> (r: String)
    ensures
        r@ == written(t@),
    decreases t,
{
    match t {
        TypeReference::Named(name) => name.clone(),
        TypeReference::List(inner) => {
            let mut text = "[".to_owned();
            text.append(write_type(inner).as_str());
            text.append("]");
            text
        },
        TypeReference::NonNull(inner) => {
            let mut text = write_type(inner);
            text.append("!");
            text
        },
    }
}

/// Whatever lists and non-null marks a type is written with, what is left
/// of its signature without them is the name of the type it is made of.
pub proof fn lemma_written_type_names_its_type(t: TypeReferenceModel)
    requires
        is_plain_name(named_by(t)),
    ensures
        strip_decoration(written(t)) == named_by(t),
    decreases t,
{
    let keep = |c: char| !is_decoration(c);
    let none = Seq::<char>::empty();
    reveal_strlit("[");
    reveal_strlit("]");
    reveal_strlit("!");
    match t {
        TypeReferenceModel::Named(name) => {
            lemma_strip_decorated_name(none, name, none);
            assert(none + name + none =~= name);
        },
        TypeReferenceModel::List(inner) => {
            lemma_written_type_names_its_type(*inner);
            lemma_strip_decorated_name("["@, none, none);
            lemma_strip_decorated_name("]"@, none, none);
            assert("["@ + none + none =~= "["@);
            assert("]"@ + none + none =~= "]"@);
            Seq::filter_distributes_over_add("["@ + written(*inner), "]"@, keep);
            Seq::filter_distributes_over_add("["@, written(*inner), keep);
            assert(none + named_by(t) + none =~= named_by(t));
        },
        TypeReferenceModel::NonNull(inner) => {
            lemma_written_type_names_its_type(*inner);
            lemma_strip_decorated_name("!"@, none, none);
            assert("!"@ + none + none =~= "!"@);
            Seq::filter_distributes_over_add(written(*inner), "!"@, keep);
            assert(named_by(t) + none =~= named_by(t));
        },
    }
}

/// A type as the parser gives it: a `graphql_parser::schema::Type`. Nothing
/// is known of it but what `type_of` names.
#[verifier::external_body]
pub struct TypeTree {
    inner: schema::Type<'static, String>,
}

/// The type that a type of the parser stands for.
pub uninterp spec fn type_of(t: TypeTree) -> TypeReferenceModel;

/// The outermost level of a type of the parser, with the type it holds.
pub enum TypePart {
    Named(String),
    List(TypeTree),
    NonNull(TypeTree),
}

impl View for TypePart {
    type V = TypeReferenceModel;

    open spec fn view(&self) -> TypeReferenceModel {
        match self {
            TypePart::Named(name) => TypeReferenceModel::Named(name@),
            TypePart::List(inner) => TypeReferenceModel::List(Box::new(type_of(*inner))),
            TypePart::NonNull(inner) => TypeReferenceModel::NonNull(Box::new(type_of(*inner))),
        }
    }
}

/// Takes a type of the parser apart: its name where it is a `NamedType`,
/// the type it holds where it is a `ListType` or a `NonNullType`. `type_of`
/// is the name of what a type of the parser stands for.
#[verifier::external_body]
fn take_type(t: TypeTree) -> (part: TypePart)
    ensures
        part@ == type_of(t),
{
    match t.inner {
        schema::Type::NamedType(name) => TypePart::Named(name),
        schema::Type::ListType(inner) => TypePart::List(TypeTree { inner: *inner }),
        schema::Type::NonNullType(inner) => TypePart::NonNull(TypeTree { inner: *inner }),
    }
}

/// The type of this library that a type of the parser stands for.
fn convert_type(t: TypeTree) -> (r: TypeReference)
    ensures
        r@ == type_of(t),
    decreases type_of(t),
{
    let ghost model = type_of(t);
    match take_type(t) {
        TypePart::Named(name) => TypeReference::Named(name),
        TypePart::List(inner) => {
            proof {
                assert(*model->List_0 == type_of(inner));
                assert(decreases_to!(model => *model->List_0));
            }
            TypeReference::List(Box::new(convert_type(inner)))
        },
        TypePart::NonNull(inner) => {
            proof {
                assert(*model->NonNull_0 == type_of(inner));
                assert(decreases_to!(model => *model->NonNull_0));
            }
            TypeReference::NonNull(Box::new(convert_type(inner)))
        },
    }
}

/// A field as the parser gives it: its name and its type.
pub struct FieldPart {
    pub name: String,
    pub field_type: TypeTree,
}

/// The model of a field of the parser.
pub struct FieldPartModel {
    pub name: Seq<char>,
    pub field_type: TypeReferenceModel,
}

impl View for FieldPart {
    type V = FieldPartModel;

    open spec fn view(&self) -> FieldPartModel {
        FieldPartModel { name: self.name@, field_type: type_of(self.field_type) }
    }
}

/// A definition of a schema as the parser gives it: an object or interface
/// type with its name and fields, or any other definition.
pub enum SchemaPart {
    Object(String, Vec<FieldPart>),
    Interface(String, Vec<FieldPart>),
    Other,
}

/// The model of a definition of the parser.
pub enum SchemaPartModel {
    Fields { name: Seq<char>, fields: Seq<FieldPartModel> },
    Other,
}

impl View for SchemaPart {
    type V = SchemaPartModel;

    open spec fn view(&self) -> SchemaPartModel {
        match self {
            SchemaPart::Object(name, fields) => SchemaPartModel::Fields {
                name: name@,
                fields: fields@.map_values(|f: FieldPart| f@),
            },
            SchemaPart::Interface(name, fields) => SchemaPartModel::Fields {
                name: name@,
                fields: fields@.map_values(|f: FieldPart| f@),
            },
            SchemaPart::Other => SchemaPartModel::Other,
        }
    }
}

/// A schema as the parser gives it: a `graphql_parser::schema::Document`.
/// Nothing is known of it but what `schema_definitions_of` names.
#[verifier::external_body]
pub struct SchemaTree {
    inner: schema::Document<'static, String>,
}

/// The definitions that a schema of the parser holds, in order, as far as
/// this library reads them.
pub uninterp spec fn schema_definitions_of(tree: SchemaTree) -> Seq<SchemaPartModel>;

/// The definitions that the parser makes of the text of a schema, as far as
/// this library reads them; `None` where it makes none of it.
pub uninterp spec fn parsed_schema(text: Seq<char>) -> Option<Seq<SchemaPartModel>>;

/// The definitions of a schema of the parser, if there is one.
pub open spec fn optional_schema(tree: Option<SchemaTree>) -> Option<Seq<SchemaPartModel>> {
    match tree {
        Some(t) => Some(schema_definitions_of(t)),
        None => None,
    }
}

/// `graphql_parser::parse_schema` on `text`: the schema that the parser
/// gives, or `None` where it gives an error. What the parser makes of a text
/// depends on the text alone, and `parsed_schema` is the name given to it.
/// Texts that hold three quotation marks in a row and white space outside
/// ASCII are left out: the parser cuts the lines of a block string at a byte
/// that may lie inside such a character.
#[verifier::external_body]
pub(crate) fn parse_schema_tree(text: &str) -> (r: Option<SchemaTree>)
    requires
        is_readable(text@),
    ensures
        optional_schema(r) == parsed_schema(text@),
{
    Some(SchemaTree { inner: schema::parse_schema::<String>(text).ok()?.into_static() })
}

/// Takes a schema of the parser apart: its `definitions`, in order, of which
/// the object and interface types come with their name and their fields,
/// each field with its name and its type. A scalar, union, enum or input
/// type, a schema definition, a type extension and a directive definition
/// are each `Other`. `schema_definitions_of` is the name of what a schema
/// holds.
#[verifier::external_body]
pub(crate) fn take_schema_definitions(tree: SchemaTree) -> (parts: Vec<SchemaPart>)
    ensures
        parts@.map_values(|p: SchemaPart| p@) == schema_definitions_of(tree),
{
    let fields = |list: Vec<schema::Field<'static, String>>| list.into_iter().map(
        |f| FieldPart { name: f.name, field_type: TypeTree { inner: f.field_type } },
    ).collect();
    tree.inner.definitions.into_iter().map(|definition| match definition {
        Definition::TypeDefinition(t) => match t {
            TypeDefinition::Object(o) => SchemaPart::Object(o.name, fields(o.fields)),
            TypeDefinition::Interface(i) => SchemaPart::Interface(i.name, fields(i.fields)),
            TypeDefinition::Scalar(_) | TypeDefinition::Union(_) | TypeDefinition::Enum(_) | TypeDefinition::InputObject(_) => SchemaPart::Other,
        },
        Definition::SchemaDefinition(_) | Definition::TypeExtension(_) | Definition::DirectiveDefinition(_) => SchemaPart::Other,
    }).collect()
}

/// The declaration that a field of the parser stands for: its name, and its
/// type as a schema writes it.
pub open spec fn declared_field(field: FieldPartModel) -> FieldDefinitionModel {
    FieldDefinitionModel { name: field.name, field_type: written(field.field_type) }
}

/// The definition of this library that a definition of the parser stands
/// for.
pub open spec fn schema_part_model(part: SchemaPartModel) -> SchemaDefinitionModel {
    match part {
        SchemaPartModel::Fields { name, fields } => SchemaDefinitionModel::Fields {
            name,
            fields: fields.map_values(|f: FieldPartModel| declared_field(f)),
        },
        SchemaPartModel::Other => SchemaDefinitionModel::Other,
    }
}

/// The definitions of this library that the definitions of the parser
/// stand for, in order.
pub open spec fn schema_part_models(parts: Seq<SchemaPartModel>) -> Seq<SchemaDefinitionModel> {
    parts.map_values(|p: SchemaPartModel| schema_part_model(p))
}

/// The declarations that the fields of the parser stand for, in order.
fn convert_fields(fields: Vec<FieldPart>) -> (r: Vec<FieldDefinition>)
    ensures
        r@.map_values(|f: FieldDefinition| f@) == fields@.map_values(|f: FieldPart| f@).map_values(
            |f: FieldPartModel| declared_field(f),
        ),
{
    let ghost models = fields@.map_values(|f: FieldPart| f@);
    let ghost wanted = models.map_values(|f: FieldPartModel| declared_field(f));
    let mut list: Vec<FieldDefinition> = Vec::new();
    proof {
        assert(list@.map_values(|f: FieldDefinition| f@) =~= wanted.subrange(0, 0));
    }
    for field in it: fields
        invariant
            models == fields@.map_values(|f: FieldPart| f@),
            wanted == models.map_values(|f: FieldPartModel| declared_field(f)),
            list@.map_values(|f: FieldDefinition| f@) == wanted.subrange(0, it.index()),
    {
        let ghost here = models[it.index()];
        assert(here == field@);
        let FieldPart { name, field_type } = field;
        let declared = FieldDefinition {
            name,
            field_type: write_type(&convert_type(field_type)),
        };
        proof {
            assert(declared@ == declared_field(here));
            assert(list@.push(declared).map_values(|f: FieldDefinition| f@) =~= wanted.subrange(
                0,
                it.index(),
            ).push(declared@));
            assert(wanted.subrange(0, it.index() + 1) =~= wanted.subrange(0, it.index()).push(
                declared@,
            ));
        }
        list.push(declared);
    }
    proof {
        assert(wanted.subrange(0, fields@.len() as int) =~= wanted);
    }
    list
}

/// The definitions of this library that the definitions of the parser
/// stand for, in order.
pub(crate) fn parts_to_definitions(parts: Vec<SchemaPart>) -> (r: Vec<SchemaDefinition>)
    ensures
        r@.map_values(|d: SchemaDefinition| d@) == schema_part_models(
            parts@.map_values(|p: SchemaPart| p@),
        ),
{
    let ghost models = parts@.map_values(|p: SchemaPart| p@);
    let ghost wanted = schema_part_models(models);
    let mut list: Vec<SchemaDefinition> = Vec::new();
    proof {
        assert(list@.map_values(|d: SchemaDefinition| d@) =~= wanted.subrange(0, 0));
    }
    for part in it: parts
        invariant
            models == parts@.map_values(|p: SchemaPart| p@),
            wanted == schema_part_models(models),
            list@.map_values(|d: SchemaDefinition| d@) == wanted.subrange(0, it.index()),
    {
        let ghost here = models[it.index()];
        assert(here == part@);
        let converted = match part {
            SchemaPart::Object(name, fields) => SchemaDefinition::Object(
                ObjectType { name, fields: convert_fields(fields) },
            ),
            SchemaPart::Interface(name, fields) => SchemaDefinition::Interface(
                InterfaceType { name, fields: convert_fields(fields) },
            ),
            SchemaPart::Other => SchemaDefinition::Other,
        };
        proof {
            assert(converted@ == schema_part_model(here));
            assert(list@.push(converted).map_values(|d: SchemaDefinition| d@)
                =~= wanted.subrange(0, it.index()).push(converted@));
            assert(wanted.subrange(0, it.index() + 1) =~= wanted.subrange(0, it.index()).push(
                converted@,
            ));
        }
        list.push(converted);
    }
    proof {
        assert(wanted.subrange(0, parts@.len() as int) =~= wanted);
    }
    list
}

} // verus!
