//! GraphQL documents and schemas, as far as the usage analysis reads them.
//!
//! A document is a list of operations and fragment definitions, each with a
//! tree of selections. A schema is a list of type definitions, of which the
//! object and the interface types carry fields. Every type has a model over
//! sequences of characters, which the contracts speak of.

use crate::text::optional_text;
use vstd::prelude::*;

verus! {

/// One entry of a selection set.
#[derive(Debug, PartialEq, Eq)]
pub enum Selection {
    /// A field, with the selections made on its value.
    Field { name: String, selection_set: Vec<Selection> },
    /// Selections that hold where the value is of the type named. A type
    /// has to be named for the selections to be walked.
    InlineFragment { type_condition: Option<String>, selection_set: Vec<Selection> },
    /// The selections of the fragment named.
    FragmentSpread { fragment_name: String },
}

/// The model of a `Selection`.
pub enum SelectionModel {
    Field { name: Seq<char>, selection_set: Seq<SelectionModel> },
    InlineFragment { type_condition: Option<Seq<char>>, selection_set: Seq<SelectionModel> },
    FragmentSpread { fragment_name: Seq<char> },
}

/// The model of one selection.
pub open spec fn selection_model(selection: Selection) -> SelectionModel
    decreases selection, 0nat,
{
    match selection {
        Selection::Field { name, selection_set } => SelectionModel::Field {
            name: name@,
            selection_set: selection_models(selection_set@),
        },
        Selection::InlineFragment { type_condition, selection_set } => {
            SelectionModel::InlineFragment {
                type_condition: optional_text(type_condition),
                selection_set: selection_models(selection_set@),
            }
        },
        Selection::FragmentSpread { fragment_name } => SelectionModel::FragmentSpread {
            fragment_name: fragment_name@,
        },
    }
}

/// The models of the selections of a selection set, in order.
pub open spec fn selection_models(items: Seq<Selection>) -> Seq<SelectionModel>
    decreases items, items.len(),
{
    if items.len() == 0 {
        Seq::empty()
    } else {
        selection_models(items.drop_last()).push(selection_model(items.last()))
    }
}

impl View for Selection {
    type V = SelectionModel;

    open spec fn view(&self) -> SelectionModel {
        selection_model(*self)
    }
}

/// The model of a selection set holds the model of each selection, at the
/// place of that selection.
pub proof fn lemma_selection_models(items: Seq<Selection>)
    ensures
        selection_models(items).len() == items.len(),
        forall|i: int|
            0 <= i < items.len() ==> selection_models(items)[i] == selection_model(
                #[trigger] items[i],
            ),
    decreases items.len(),
{
    if items.len() > 0 {
        lemma_selection_models(items.drop_last());
        assert forall|i: int| 0 <= i < items.len() implies selection_models(items)[i]
            == selection_model(#[trigger] items[i]) by {
            if i < items.len() - 1 {
                assert(items.drop_last()[i] == items[i]);
            }
        }
    }
}

/// A named fragment: selections on a type, to be spread by name.
#[derive(Debug, PartialEq, Eq)]
pub struct FragmentDefinition {
    pub name: String,
    pub type_condition: String,
    pub selection_set: Vec<Selection>,
}

/// The model of a fragment, as it is found under its name.
pub struct FragmentModel {
    pub type_condition: Seq<char>,
    pub selection_set: Seq<SelectionModel>,
}

impl View for FragmentDefinition {
    type V = FragmentModel;

    open spec fn view(&self) -> FragmentModel {
        FragmentModel {
            type_condition: self.type_condition@,
            selection_set: selection_models(self.selection_set@),
        }
    }
}

/// What kind of operation a selection set was written as. A selection set
/// that stands alone is a query.
#[derive(Clone, Copy, Debug, PartialEq, Eq)]
pub enum OperationKind {
    SelectionSet,
    Query,
    Mutation,
    Subscription,
}

/// An operation: its kind and its selections.
#[derive(Debug, PartialEq, Eq)]
pub struct OperationDefinition {
    pub kind: OperationKind,
    pub selection_set: Vec<Selection>,
}

/// The model of an operation.
pub struct OperationModel {
    pub kind: OperationKind,
    pub selection_set: Seq<SelectionModel>,
}

impl View for OperationDefinition {
    type V = OperationModel;

    open spec fn view(&self) -> OperationModel {
        OperationModel { kind: self.kind, selection_set: selection_models(self.selection_set@) }
    }
}

/// One definition of a document.
#[derive(Debug, PartialEq, Eq)]
pub enum Definition {
    Operation(OperationDefinition),
    Fragment(FragmentDefinition),
}

/// The model of a definition.
pub enum DefinitionModel {
    Operation(OperationModel),
    Fragment { name: Seq<char>, fragment: FragmentModel },
}

impl View for Definition {
    type V = DefinitionModel;

    open spec fn view(&self) -> DefinitionModel {
        match self {
            Definition::Operation(o) => DefinitionModel::Operation(o@),
            Definition::Fragment(f) => DefinitionModel::Fragment { name: f.name@, fragment: f@ },
        }
    }
}

/// A document of operations and fragments, in the order in which they were
/// written.
#[derive(Debug, PartialEq, Eq)]
pub struct Document {
    pub definitions: Vec<Definition>,
}

impl View for Document {
    type V = Seq<DefinitionModel>;

    open spec fn view(&self) -> Seq<DefinitionModel> {
        self.definitions@.map_values(|d: Definition| d@)
    }
}

/// A field that a type declares: its name and its type signature as text,
/// with the marks of lists and of non-null types.
#[derive(Clone, Debug, PartialEq, Eq)]
pub struct FieldDefinition {
    pub name: String,
    pub field_type: String,
}

/// The model of a declared field.
pub struct FieldDefinitionModel {
    pub name: Seq<char>,
    pub field_type: Seq<char>,
}

impl View for FieldDefinition {
    type V = FieldDefinitionModel;

    open spec fn view(&self) -> FieldDefinitionModel {
        FieldDefinitionModel { name: self.name@, field_type: self.field_type@ }
    }
}

/// An object type of a schema.
#[derive(Clone, Debug, PartialEq, Eq)]
pub struct ObjectType {
    pub name: String,
    pub fields: Vec<FieldDefinition>,
}

/// An interface type of a schema.
#[derive(Clone, Debug, PartialEq, Eq)]
pub struct InterfaceType {
    pub name: String,
    pub fields: Vec<FieldDefinition>,
}

/// One definition of a schema. Only object and interface types are told
/// apart: scalars, enums, unions, inputs, directives, extensions and the
/// schema definition itself are all `Other`.
#[derive(Clone, Debug, PartialEq, Eq)]
pub enum SchemaDefinition {
    Object(ObjectType),
    Interface(InterfaceType),
    Other,
}

/// The model of a schema definition: the name and the declared fields of an
/// object or interface type, nothing for any other definition.
pub enum SchemaDefinitionModel {
    Fields { name: Seq<char>, fields: Seq<FieldDefinitionModel> },
    Other,
}

impl View for SchemaDefinition {
    type V = SchemaDefinitionModel;

    open spec fn view(&self) -> SchemaDefinitionModel {
        match self {
            SchemaDefinition::Object(o) => SchemaDefinitionModel::Fields {
                name: o.name@,
                fields: o.fields@.map_values(|f: FieldDefinition| f@),
            },
            SchemaDefinition::Interface(i) => SchemaDefinitionModel::Fields {
                name: i.name@,
                fields: i.fields@.map_values(|f: FieldDefinition| f@),
            },
            SchemaDefinition::Other => SchemaDefinitionModel::Other,
        }
    }
}

/// The name of the type that the selections of an operation of this kind
/// start from.
pub open spec fn root_type_of(kind: OperationKind) -> Seq<char> {
    match kind {
        OperationKind::SelectionSet => "Query"@,
        OperationKind::Query => "Query"@,
        OperationKind::Mutation => "Mutation"@,
        OperationKind::Subscription => "Subscription"@,
    }
}

/// The name of the type that the selections of an operation start from:
/// `Query` for a query and for a selection set that stands alone, `Mutation`
/// for a mutation, `Subscription` for a subscription.
pub fn root_type_name(kind: OperationKind) -> (r: &'static str)
    ensures
        r@ == root_type_of(kind),
{
    match kind {
        OperationKind::SelectionSet => "Query",
        OperationKind::Query => "Query",
        OperationKind::Mutation => "Mutation",
        OperationKind::Subscription => "Subscription",
    }
}

} // verus!
