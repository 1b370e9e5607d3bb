//! GraphQL text, read with the parser of `graphql_parser`.
//!
//! The parser gives a document as a tree of its own. Here the tree is taken
//! apart, level by level, and made into a document of this library. What
//! the parser makes of a text is not described here: it has a name, and the
//! contracts say what becomes of whatever the parser gave.
//!
//! Where a line of a block string starts with white space outside ASCII, the
//! parser may cut the line inside a character. So a text that holds a block
//! string and such white space is not handed to the parser as it is, but as
//! a copy in which a filler stands for each such character. The parser
//! takes white space outside ASCII, and the filler, only inside strings and
//! comments, and of those nothing is read here.

use crate::document::Definition;
use crate::document::DefinitionModel;
use crate::document::Document;
use crate::document::FragmentDefinition;
use crate::document::FragmentModel;
use crate::document::OperationDefinition;
use crate::document::OperationKind;
use crate::document::OperationModel;
use crate::document::SchemaDefinition;
use crate::document::SchemaDefinitionModel;
use crate::document::Selection;
use crate::document::SelectionModel;
use crate::document::selection_models;
use crate::schema_text::parse_schema_tree;
use crate::schema_text::parsed_schema;
use crate::schema_text::parts_to_definitions;
use crate::schema_text::schema_part_models;
use crate::schema_text::take_schema_definitions;
use crate::text::can_be_read;
use crate::text::copy_for_parser;
use crate::text::is_readable;
use crate::text::optional_text;
use crate::text::parser_text;
use graphql_parser::query;
use vstd::prelude::*;

verus! {

/// A document as the parser gives it: a `graphql_parser::query::Document`.
/// Nothing is known of it but what `definitions_of` names.
#[verifier::external_body]
pub struct QueryTree {
    inner: query::Document<'static, String>,
}

/// A selection set as the parser gives it: a
/// `graphql_parser::query::SelectionSet`. Nothing is known of it but what
/// `selections_of` names.
#[verifier::external_body]
pub struct SelectionTree {
    inner: query::SelectionSet<'static, String>,
}

/// The selections that a selection set of the parser holds, in order.
pub uninterp spec fn selections_of(set: SelectionTree) -> Seq<SelectionModel>;

/// The definitions that a document of the parser holds, in order.
pub uninterp spec fn definitions_of(tree: QueryTree) -> Seq<DefinitionModel>;

/// The definitions that the parser makes of the text of a document; `None`
/// where it makes none of it.
pub uninterp spec fn parsed_query(text: Seq<char>) -> Option<Seq<DefinitionModel>>;

/// One selection of a selection set of the parser, with the selection set
/// that it holds.
pub enum SelectionPart {
    Field { name: String, selection_set: SelectionTree },
    InlineFragment { type_condition: Option<String>, selection_set: SelectionTree },
    FragmentSpread { fragment_name: String },
}

impl View for SelectionPart {
    type V = SelectionModel;

    open spec fn view(&self) -> SelectionModel {
        match self {
            SelectionPart::Field { name, selection_set } => SelectionModel::Field {
                name: name@,
                selection_set: selections_of(*selection_set),
            },
            SelectionPart::InlineFragment { type_condition, selection_set } => {
                SelectionModel::InlineFragment {
                    type_condition: optional_text(*type_condition),
                    selection_set: selections_of(*selection_set),
                }
            },
            SelectionPart::FragmentSpread { fragment_name } => SelectionModel::FragmentSpread {
                fragment_name: fragment_name@,
            },
        }
    }
}

/// One definition of a document of the parser: an operation with its kind,
/// or a fragment with its name and type condition, and the selection set
/// that it holds.
pub enum DefinitionPart {
    Operation(OperationKind, SelectionTree),
    Fragment(String, String, SelectionTree),
}

impl View for DefinitionPart {
    type V = DefinitionModel;

    open spec fn view(&self) -> DefinitionModel {
        match self {
            DefinitionPart::Operation(kind, selection_set) => DefinitionModel::Operation(
                OperationModel { kind: *kind, selection_set: selections_of(*selection_set) },
            ),
            DefinitionPart::Fragment(name, type_condition, selection_set) => {
                DefinitionModel::Fragment {
                    name: name@,
                    fragment: FragmentModel {
                        type_condition: type_condition@,
                        selection_set: selections_of(*selection_set),
                    },
                }
            },
        }
    }
}

/// The definitions of a document of the parser, if there is one.
pub open spec fn optional_definitions(tree: Option<QueryTree>) -> Option<Seq<DefinitionModel>> {
    match tree {
        Some(t) => Some(definitions_of(t)),
        None => None,
    }
}

/// `graphql_parser::parse_query` on `text`: the document that the parser
/// gives, or `None` where it gives an error. What the parser makes of a text
/// depends on the text alone, and `parsed_query` is the name given to it.
/// Texts that hold three quotation marks in a row and white space outside
/// ASCII are left out: the parser cuts the lines of a block string at a byte
/// that may lie inside such a character.
#[verifier::external_body]
pub(crate) fn parse_query_tree(text: &str) -> (r: Option<QueryTree>)
    requires
        is_readable(text@),
    ensures
        optional_definitions(r) == parsed_query(text@),
{
    Some(QueryTree { inner: query::parse_query::<String>(text).ok()?.into_static() })
}

/// Takes a document of the parser apart: its `definitions`, in order, each
/// an operation with its kind or a fragment with its name and type
/// condition, and with the selection set it holds. `definitions_of` is the
/// name of what a document holds.
#[verifier::external_body]
fn take_definitions(tree: QueryTree) -> (parts: Vec<DefinitionPart>)
    ensures
        parts@.map_values(|p: DefinitionPart| p@) == definitions_of(tree),
{
    tree.inner.definitions.into_iter().map(|definition| {
        let (kind, inner) = match definition {
            query::Definition::Fragment(f) => {
                let query::TypeCondition::On(on) = f.type_condition;
                return DefinitionPart::Fragment(f.name, on, SelectionTree { inner: f.selection_set });
            },
            query::Definition::Operation(query::OperationDefinition::SelectionSet(s)) => (OperationKind::SelectionSet, s),
            query::Definition::Operation(query::OperationDefinition::Query(q)) => (OperationKind::Query, q.selection_set),
            query::Definition::Operation(query::OperationDefinition::Mutation(m)) => (OperationKind::Mutation, m.selection_set),
            query::Definition::Operation(query::OperationDefinition::Subscription(s)) => (OperationKind::Subscription, s.selection_set),
        };
        DefinitionPart::Operation(kind, SelectionTree { inner })
    }).collect()
}

/// Takes a selection set of the parser apart: the selections of its `items`,
/// in order, each with its name or type condition and the selection set it
/// holds. `selections_of` is the name of what a selection set holds.
#[verifier::external_body]
fn take_selections(set: SelectionTree) -> (parts: Vec<SelectionPart>)
    ensures
        parts@.map_values(|p: SelectionPart| p@) == selections_of(set),
{
    set.inner.items.into_iter().map(|item| match item {
        query::Selection::Field(f) => SelectionPart::Field {
            name: f.name,
            selection_set: SelectionTree { inner: f.selection_set },
        },
        query::Selection::InlineFragment(i) => SelectionPart::InlineFragment {
            type_condition: i.type_condition.map(|query::TypeCondition::On(on)| on),
            selection_set: SelectionTree { inner: i.selection_set },
        },
        query::Selection::FragmentSpread(s) => SelectionPart::FragmentSpread {
            fragment_name: s.fragment_name,
        },
    }).collect()
}

/// The document that a text stands for: what the parser makes of the text
/// that it is handed for it. `None` where it makes nothing of it.
pub open spec fn document_of(text: Seq<char>) -> Option<Seq<DefinitionModel>> {
    parsed_query(parser_text(text))
}

/// The schema that a text stands for, as far as this library reads it: what
/// the parser makes of the text that it is handed for it. `None` where it
/// makes nothing of it.
pub open spec fn schema_of(text: Seq<char>) -> Option<Seq<SchemaDefinitionModel>> {
    match parsed_schema(parser_text(text)) {
        Some(parts) => Some(schema_part_models(parts)),
        None => None,
    }
}

/// Hands the parser the text of a document: the text itself, or its copy
/// with fillers where the text cannot be read as it is.
pub(crate) fn parse_text(text: &str) -> (r: Option<QueryTree>)
    ensures
        optional_definitions(r) == document_of(text@),
{
    if can_be_read(text) {
        parse_query_tree(text)
    } else {
        let copy = copy_for_parser(text);
        parse_query_tree(copy.as_str())
    }
}

/// The selections of this library that a selection set of the parser holds.
fn convert_selections(set: SelectionTree) -> (list: Vec<Selection>)
    ensures
        selection_models(list@) == selections_of(set),
    decreases selections_of(set),
{
    let ghost models = selections_of(set);
    let parts = take_selections(set);
    let mut list: Vec<Selection> = Vec::new();
    proof {
        assert(models.subrange(0, 0) =~= Seq::<SelectionModel>::empty());
    }
    for part in it: parts
        invariant
            models == selections_of(set),
            models == parts@.map_values(|p: SelectionPart| p@),
            selection_models(list@) == models.subrange(0, it.index()),
    {
        let ghost here = models[it.index()];
        proof {
            assert(here == part@);
            assert(decreases_to!(models => here));
        }
        let converted = match part {
            SelectionPart::Field { name, selection_set } => {
                proof {
                    assert(here->Field_selection_set == selections_of(selection_set));
                    assert(decreases_to!(here => here->Field_selection_set));
                }
                Selection::Field { name, selection_set: convert_selections(selection_set) }
            },
            SelectionPart::InlineFragment { type_condition, selection_set } => {
                proof {
                    assert(here->InlineFragment_selection_set == selections_of(selection_set));
                    assert(decreases_to!(here => here->InlineFragment_selection_set));
                }
                Selection::InlineFragment {
                    type_condition,
                    selection_set: convert_selections(selection_set),
                }
            },
            SelectionPart::FragmentSpread { fragment_name } => Selection::FragmentSpread {
                fragment_name,
            },
        };
        proof {
            assert(converted@ == here);
            assert(list@.push(converted).drop_last() =~= list@);
            assert(models.subrange(0, it.index() + 1) =~= models.subrange(0, it.index()).push(
                here,
            ));
        }
        list.push(converted);
    }
    proof {
        assert(models.subrange(0, parts@.len() as int) =~= models);
    }
    list
}

/// Reads the text of a document.
///
/// The text is parsed, and what the parser gives is made into a document of
/// this library, definition by definition and selection by selection, in
/// order. A text that the parser makes nothing of gives no document.
pub fn read_document(text: &str) -> (r: Option<Document>)
    ensures
        match document_of(text@) {
            Some(document) => r matches Some(read) && read@ == document,
            None => r is None,
        },
{
    let parts = match parse_text(text) {
        Some(tree) => take_definitions(tree),
        None => {
            return None;
        },
    };
    let ghost models = parts@.map_values(|p: DefinitionPart| p@);
    let mut definitions: Vec<Definition> = Vec::new();
    proof {
        assert(definitions@.map_values(|d: Definition| d@) =~= models.subrange(0, 0));
    }
    for part in it: parts
        invariant
            models == parts@.map_values(|p: DefinitionPart| p@),
            definitions@.map_values(|d: Definition| d@) == models.subrange(0, it.index()),
    {
        let ghost here = models[it.index()];
        assert(here == part@);
        let converted = match part {
            DefinitionPart::Operation(kind, selection_set) => Definition::Operation(
                OperationDefinition { kind, selection_set: convert_selections(selection_set) },
            ),
            DefinitionPart::Fragment(name, type_condition, selection_set) => Definition::Fragment(
                FragmentDefinition {
                    name,
                    type_condition,
                    selection_set: convert_selections(selection_set),
                },
            ),
        };
        proof {
            assert(converted@ == here);
            assert(definitions@.push(converted).map_values(|d: Definition| d@)
                =~= models.subrange(0, it.index()).push(here));
            assert(models.subrange(0, it.index() + 1) =~= models.subrange(0, it.index()).push(
                here,
            ));
        }
        definitions.push(converted);
    }
    proof {
        assert(models.subrange(0, parts@.len() as int) =~= models);
    }
    Some(Document { definitions })
}

/// Reads the text of a schema: its definitions, in order, of which the
/// object and interface types come with their fields, and each field with
/// its type written out. A text that the parser makes nothing of gives no
/// schema.
pub fn read_schema(text: &str) -> (r: Option<Vec<SchemaDefinition>>)
    ensures
        match schema_of(text@) {
            Some(schema) => r matches Some(read) && read@.map_values(|d: SchemaDefinition| d@)
                == schema,
            None => r is None,
        },
{
    let tree = if can_be_read(text) {
        parse_schema_tree(text)
    } else {
        let copy = copy_for_parser(text);
        parse_schema_tree(copy.as_str())
    };
    match tree {
        Some(tree) => Some(parts_to_definitions(take_schema_definitions(tree))),
        None => None,
    }
}

} // verus!
