//! What holds of every walk over a usage map: counts only grow, nothing is
//! added or taken away, `__typename` is never counted, and a type on which
//! no field is selected keeps its counts.

use crate::document::DefinitionModel;
use crate::document::FieldDefinitionModel;
use crate::document::FragmentModel;
use crate::document::OperationModel;
use crate::document::SchemaDefinitionModel;
use crate::document::SelectionModel;
use crate::document::root_type_of;
use crate::parse::document_of;
use crate::parse::schema_of;
use crate::schema_stats::Usage;
use crate::schema_stats::analysis_of;
use crate::schema_stats::budget;
use crate::schema_stats::count_fragments;
use crate::schema_stats::count_operations;
use crate::schema_stats::counted;
use crate::schema_stats::declared_fields;
use crate::schema_stats::fragment_order;
use crate::schema_stats::fragments_in;
use crate::schema_stats::lemma_budget_decreases;
use crate::schema_stats::operations_of;
use crate::schema_stats::schema_stats;
use crate::schema_stats::schema_usage;
use crate::schema_stats::selection_failure;
use crate::schema_stats::typename_field;
use crate::schema_stats::walk_fragment;
use crate::schema_stats::walk_operation;
use crate::schema_stats::walk_selection;
use crate::schema_stats::walk_selections;
use crate::text::strip_decoration;
use vstd::prelude::*;

verus! {

/// Two usage maps hold the same types with the same fields and the same type
/// signatures; they may differ in the counts.
pub open spec fn same_shape(a: Usage, b: Usage) -> bool {
    &&& forall|t: Seq<char>| a.contains_key(t) <==> b.contains_key(t)
    &&& forall|t: Seq<char>, f: Seq<char>|
        a.contains_key(t) ==> (#[trigger] a[t].contains_key(f) <==> b[t].contains_key(f))
    &&& forall|t: Seq<char>, f: Seq<char>|
        #![trigger a[t][f]]
        #![trigger b[t][f]]
        a.contains_key(t) && a[t].contains_key(f) ==> a[t][f].type_signature
            == b[t][f].type_signature
}

/// `after` has the shape of `before`, and no count in it is smaller.
pub open spec fn grown(before: Usage, after: Usage) -> bool {
    &&& same_shape(before, after)
    &&& forall|t: Seq<char>, f: Seq<char>|
        #![trigger before[t][f]]
        #![trigger after[t][f]]
        before.contains_key(t) && before[t].contains_key(f) ==> before[t][f].count
            <= after[t][f].count
}

/// Counting growth after growth is growth.
pub proof fn lemma_grown_transitive(a: Usage, b: Usage, c: Usage)
    requires
        grown(a, b),
        grown(b, c),
    ensures
        grown(a, c),
{
    assert forall|t: Seq<char>, f: Seq<char>|
        #![trigger a[t][f]]
        #![trigger c[t][f]]
        a.contains_key(t) && a[t].contains_key(f) implies a[t][f].type_signature
        == c[t][f].type_signature && a[t][f].count <= c[t][f].count by {
        assert(b[t].contains_key(f));
        assert(a[t][f].count <= b[t][f].count);
        assert(b[t][f].count <= c[t][f].count);
    }
}

/// Counting one selection of a field that the map holds changes the count
/// of that field, and nothing else.
pub proof fn lemma_counted_grows(usage: Usage, on_type: Seq<char>, field_name: Seq<char>)
    requires
        usage.contains_key(on_type),
        usage[on_type].contains_key(field_name),
    ensures
        grown(usage, counted(usage, on_type, field_name)),
        counted(usage, on_type, field_name)[on_type][field_name].count
            == usage[on_type][field_name].count + 1,
        forall|t: Seq<char>|
            t != on_type ==> #[trigger] counted(usage, on_type, field_name)[t] == usage[t],
        forall|f: Seq<char>|
            f != field_name ==> #[trigger] counted(usage, on_type, field_name)[on_type][f]
                == usage[on_type][f],
{
}

/// A walk over one selection leaves every type and field in place, with its
/// signature, and lowers no count.
pub proof fn lemma_walk_selection_grows(
    selection: SelectionModel,
    root: Seq<char>,
    usage: Usage,
    fragments: Map<Seq<char>, FragmentModel>,
    active: Set<Seq<char>>,
)
    requires
        fragments.dom().finite(),
    ensures
        grown(usage, walk_selection(selection, root, usage, fragments, active).usage),
    decreases budget(fragments, active), selection, 0nat,
{
    match selection {
        SelectionModel::Field { name, selection_set } => {
            if name != typename_field() && selection_failure(usage, root, name) is None {
                lemma_counted_grows(usage, root, name);
                let first = counted(usage, root, name);
                let nested = strip_decoration(usage[root][name].type_signature);
                lemma_walk_selections_grows(selection_set, 0, nested, first, fragments, active);
                lemma_grown_transitive(
                    usage,
                    first,
                    walk_selections(selection_set, 0, nested, first, fragments, active).usage,
                );
            }
        },
        SelectionModel::InlineFragment { type_condition, selection_set } => {
            if let Some(on) = type_condition {
                lemma_walk_selections_grows(selection_set, 0, on, usage, fragments, active);
            }
        },
        SelectionModel::FragmentSpread { fragment_name } => {
            if fragments.contains_key(fragment_name) && !active.contains(fragment_name) {
                lemma_budget_decreases(fragments, active, fragment_name);
                lemma_walk_selections_grows(
                    fragments[fragment_name].selection_set,
                    0,
                    fragments[fragment_name].type_condition,
                    usage,
                    fragments,
                    active.insert(fragment_name),
                );
            }
        },
    }
}

/// A walk over a selection set leaves every type and field in place, with
/// its signature, and lowers no count.
pub proof fn lemma_walk_selections_grows(
    items: Seq<SelectionModel>,
    from: int,
    root: Seq<char>,
    usage: Usage,
    fragments: Map<Seq<char>, FragmentModel>,
    active: Set<Seq<char>>,
)
    requires
        fragments.dom().finite(),
    ensures
        grown(usage, walk_selections(items, from, root, usage, fragments, active).usage),
    decreases budget(fragments, active), items, items.len() - from,
{
    if 0 <= from < items.len() {
        lemma_walk_selection_grows(items[from], root, usage, fragments, active);
        let first = walk_selection(items[from], root, usage, fragments, active);
        if first.failure is None {
            lemma_walk_selections_grows(items, from + 1, root, first.usage, fragments, active);
            lemma_grown_transitive(
                usage,
                first.usage,
                walk_selections(items, from + 1, root, first.usage, fragments, active).usage,
            );
        }
    }
}

/// Whether every selection of `items` is the field `__typename`.
pub open spec fn only_typename(items: Seq<SelectionModel>) -> bool {
    forall|i: int|
        0 <= i < items.len() ==> (#[trigger] items[i] matches SelectionModel::Field { name, .. }
            && name == typename_field())
}

/// A selection of `__typename` counts nothing and never fails, whatever the
/// type it is made on and whatever is selected under it.
pub proof fn lemma_typename_is_not_counted(
    selection_set: Seq<SelectionModel>,
    root: Seq<char>,
    usage: Usage,
    fragments: Map<Seq<char>, FragmentModel>,
    active: Set<Seq<char>>,
)
    requires
        fragments.dom().finite(),
    ensures
        walk_selection(
            SelectionModel::Field { name: typename_field(), selection_set },
            root,
            usage,
            fragments,
            active,
        ).usage == usage,
        walk_selection(
            SelectionModel::Field { name: typename_field(), selection_set },
            root,
            usage,
            fragments,
            active,
        ).failure is None,
{
}

/// A selection set that selects nothing but `__typename` leaves the usage
/// map as it was, and does not fail.
pub proof fn lemma_typename_selections_count_nothing(
    items: Seq<SelectionModel>,
    from: int,
    root: Seq<char>,
    usage: Usage,
    fragments: Map<Seq<char>, FragmentModel>,
    active: Set<Seq<char>>,
)
    requires
        fragments.dom().finite(),
        only_typename(items),
    ensures
        walk_selections(items, from, root, usage, fragments, active).usage == usage,
        walk_selections(items, from, root, usage, fragments, active).failure is None,
    decreases items.len() - from,
{
    if 0 <= from < items.len() {
        match items[from] {
            SelectionModel::Field { name, selection_set } => {
                assert(items[from] == SelectionModel::Field {
                    name: typename_field(),
                    selection_set,
                });
                lemma_typename_is_not_counted(selection_set, root, usage, fragments, active);
            },
            _ => {},
        }
        lemma_typename_selections_count_nothing(items, from + 1, root, usage, fragments, active);
    }
}

/// The types that a walk over one selection meets: the types on which it
/// comes to a field selection other than `__typename`. What stands behind a
/// failure is not met.
pub open spec fn met_by_selection(
    selection: SelectionModel,
    root: Seq<char>,
    usage: Usage,
    fragments: Map<Seq<char>, FragmentModel>,
    active: Set<Seq<char>>,
) -> Set<Seq<char>>
    decreases budget(fragments, active), selection, 0nat,
    when fragments.dom().finite()
{
    match selection {
        SelectionModel::Field { name, selection_set } => {
            if name == typename_field() {
                Set::empty()
            } else if selection_failure(usage, root, name) is Some {
                Set::empty().insert(root)
            } else {
                met_by_selections(
                    selection_set,
                    0,
                    strip_decoration(usage[root][name].type_signature),
                    counted(usage, root, name),
                    fragments,
                    active,
                ).insert(root)
            }
        },
        SelectionModel::InlineFragment { type_condition, selection_set } => match type_condition {
            Some(on) => met_by_selections(selection_set, 0, on, usage, fragments, active),
            None => Set::empty(),
        },
        SelectionModel::FragmentSpread { fragment_name } => {
            if fragments.contains_key(fragment_name) && !active.contains(fragment_name) {
                proof {
                    lemma_budget_decreases(fragments, active, fragment_name);
                }
                met_by_selections(
                    fragments[fragment_name].selection_set,
                    0,
                    fragments[fragment_name].type_condition,
                    usage,
                    fragments,
                    active.insert(fragment_name),
                )
            } else {
                Set::empty()
            }
        },
    }
}

/// The types that a walk over the selections of `items` from the place
/// `from` on meets. The walk ends at the first failure, and so does what it
/// meets.
pub open spec fn met_by_selections(
    items: Seq<SelectionModel>,
    from: int,
    root: Seq<char>,
    usage: Usage,
    fragments: Map<Seq<char>, FragmentModel>,
    active: Set<Seq<char>>,
) -> Set<Seq<char>>
    decreases budget(fragments, active), items, items.len() - from,
    when fragments.dom().finite()
{
    if from < 0 || from >= items.len() {
        Set::empty()
    } else {
        let first = walk_selection(items[from], root, usage, fragments, active);
        let here = met_by_selection(items[from], root, usage, fragments, active);
        if first.failure is Some {
            here
        } else {
            here.union(met_by_selections(items, from + 1, root, first.usage, fragments, active))
        }
    }
}

/// A walk over one selection leaves every type that it does not meet
/// exactly as it was.
pub proof fn lemma_walk_selection_spares_unmet(
    selection: SelectionModel,
    root: Seq<char>,
    usage: Usage,
    fragments: Map<Seq<char>, FragmentModel>,
    active: Set<Seq<char>>,
    spared: Seq<char>,
)
    requires
        fragments.dom().finite(),
        !met_by_selection(selection, root, usage, fragments, active).contains(spared),
    ensures
        walk_selection(selection, root, usage, fragments, active).usage[spared] == usage[spared],
    decreases budget(fragments, active), selection, 0nat,
{
    match selection {
        SelectionModel::Field { name, selection_set } => {
            if name != typename_field() && selection_failure(usage, root, name) is None {
                lemma_counted_grows(usage, root, name);
                let first = counted(usage, root, name);
                let nested = strip_decoration(usage[root][name].type_signature);
                let under = met_by_selections(selection_set, 0, nested, first, fragments, active);
                assert(under.insert(root).contains(root));
                assert(spared != root);
                assert(!under.contains(spared)) by {
                    if under.contains(spared) {
                        assert(under.insert(root).contains(spared));
                    }
                }
                lemma_walk_selections_spare_unmet(
                    selection_set,
                    0,
                    nested,
                    first,
                    fragments,
                    active,
                    spared,
                );
            }
        },
        SelectionModel::InlineFragment { type_condition, selection_set } => {
            if let Some(on) = type_condition {
                lemma_walk_selections_spare_unmet(
                    selection_set,
                    0,
                    on,
                    usage,
                    fragments,
                    active,
                    spared,
                );
            }
        },
        SelectionModel::FragmentSpread { fragment_name } => {
            if fragments.contains_key(fragment_name) && !active.contains(fragment_name) {
                lemma_budget_decreases(fragments, active, fragment_name);
                lemma_walk_selections_spare_unmet(
                    fragments[fragment_name].selection_set,
                    0,
                    fragments[fragment_name].type_condition,
                    usage,
                    fragments,
                    active.insert(fragment_name),
                    spared,
                );
            }
        },
    }
}

/// A walk over a selection set leaves every type that it does not meet
/// exactly as it was.
pub proof fn lemma_walk_selections_spare_unmet(
    items: Seq<SelectionModel>,
    from: int,
    root: Seq<char>,
    usage: Usage,
    fragments: Map<Seq<char>, FragmentModel>,
    active: Set<Seq<char>>,
    spared: Seq<char>,
)
    requires
        fragments.dom().finite(),
        !met_by_selections(items, from, root, usage, fragments, active).contains(spared),
    ensures
        walk_selections(items, from, root, usage, fragments, active).usage[spared]
            == usage[spared],
    decreases budget(fragments, active), items, items.len() - from,
{
    if 0 <= from < items.len() {
        let first = walk_selection(items[from], root, usage, fragments, active);
        let here = met_by_selection(items[from], root, usage, fragments, active);
        if first.failure is Some {
            lemma_walk_selection_spares_unmet(items[from], root, usage, fragments, active, spared);
        } else {
            let later = met_by_selections(items, from + 1, root, first.usage, fragments, active);
            assert(!here.contains(spared) && !later.contains(spared)) by {
                if here.contains(spared) || later.contains(spared) {
                    assert(here.union(later).contains(spared));
                }
            }
            lemma_walk_selection_spares_unmet(items[from], root, usage, fragments, active, spared);
            lemma_walk_selections_spare_unmet(
                items,
                from + 1,
                root,
                first.usage,
                fragments,
                active,
                spared,
            );
        }
    }
}

/// Whether no field of the usage map has been counted.
pub open spec fn uncounted(usage: Usage) -> bool {
    forall|t: Seq<char>, f: Seq<char>|
        usage.contains_key(t) && usage[t].contains_key(f) ==> (#[trigger] usage[t][f]).count == 0
}

/// The fields of a type, as declared, all have a count of zero.
pub proof fn lemma_declared_fields_uncounted(fields: Seq<FieldDefinitionModel>)
    ensures
        forall|f: Seq<char>|
            declared_fields(fields).contains_key(f) ==> (#[trigger] declared_fields(
                fields,
            )[f]).count == 0,
    decreases fields.len(),
{
    if fields.len() > 0 {
        lemma_declared_fields_uncounted(fields.drop_last());
        let before = declared_fields(fields.drop_last());
        assert forall|f: Seq<char>| declared_fields(fields).contains_key(f) implies (
        #[trigger] declared_fields(fields)[f]).count == 0 by {
            if f != fields.last().name {
                assert(before.contains_key(f));
                assert(declared_fields(fields)[f] == before[f]);
            }
        }
    }
}

/// The usage map of a schema starts with every count at zero.
pub proof fn lemma_schema_usage_uncounted(definitions: Seq<SchemaDefinitionModel>)
    ensures
        uncounted(schema_usage(definitions)),
    decreases definitions.len(),
{
    if definitions.len() > 0 {
        lemma_schema_usage_uncounted(definitions.drop_last());
        match definitions.last() {
            SchemaDefinitionModel::Fields { name, fields } => {
                lemma_declared_fields_uncounted(fields);
            },
            SchemaDefinitionModel::Other => {},
        }
    }
}

/// A document defines finitely many fragments.
pub proof fn lemma_fragments_in_finite(document: Seq<DefinitionModel>)
    ensures
        fragments_in(document).dom().finite(),
    decreases document.len(),
{
    if document.len() > 0 {
        lemma_fragments_in_finite(document.drop_last());
    }
}

/// The types that counting a list of operations meets.
pub open spec fn met_by_operations(
    operations: Seq<OperationModel>,
    usage: Usage,
    fragments: Map<Seq<char>, FragmentModel>,
) -> Set<Seq<char>>
    decreases operations.len(),
{
    if operations.len() == 0 {
        Set::empty()
    } else {
        met_by_operations(operations.drop_last(), usage, fragments).union(
            met_by_selections(
                operations.last().selection_set,
                0,
                root_type_of(operations.last().kind),
                count_operations(operations.drop_last(), usage, fragments).usage,
                fragments,
                Set::empty(),
            ),
        )
    }
}

/// The types that counting the fragments named, each by itself, meets.
pub open spec fn met_by_fragments(
    names: Seq<Seq<char>>,
    usage: Usage,
    fragments: Map<Seq<char>, FragmentModel>,
) -> Set<Seq<char>>
    decreases names.len(),
{
    if names.len() == 0 {
        Set::empty()
    } else {
        met_by_fragments(names.drop_last(), usage, fragments).union(
            met_by_selections(
                fragments[names.last()].selection_set,
                0,
                fragments[names.last()].type_condition,
                count_fragments(names.drop_last(), usage, fragments).usage,
                fragments,
                Set::empty().insert(names.last()),
            ),
        )
    }
}

/// The types that an analysis meets: the types on which a field other than
/// `__typename` is selected while the operations of the document are
/// walked and, where the fragments are counted by themselves, while the
/// fragments are walked.
pub open spec fn met_by_analysis(
    schema: Seq<SchemaDefinitionModel>,
    document: Seq<DefinitionModel>,
    include_fragments: bool,
) -> Set<Seq<char>> {
    let usage = schema_usage(schema);
    let fragments = fragments_in(document);
    let by_operations = met_by_operations(operations_of(document), usage, fragments);
    if include_fragments {
        by_operations.union(
            met_by_fragments(
                fragment_order(document),
                count_operations(operations_of(document), usage, fragments).usage,
                fragments,
            ),
        )
    } else {
        by_operations
    }
}

/// Counting a list of operations leaves every type and field in place and
/// lowers no count.
pub proof fn lemma_count_operations_grows(
    operations: Seq<OperationModel>,
    usage: Usage,
    fragments: Map<Seq<char>, FragmentModel>,
)
    requires
        fragments.dom().finite(),
    ensures
        grown(usage, count_operations(operations, usage, fragments).usage),
    decreases operations.len(),
{
    if operations.len() > 0 {
        lemma_count_operations_grows(operations.drop_last(), usage, fragments);
        let before = count_operations(operations.drop_last(), usage, fragments);
        lemma_walk_selections_grows(
            operations.last().selection_set,
            0,
            root_type_of(operations.last().kind),
            before.usage,
            fragments,
            Set::empty(),
        );
        lemma_grown_transitive(
            usage,
            before.usage,
            walk_operation(operations.last(), before.usage, fragments).usage,
        );
    }
}

/// Counting a list of fragments leaves every type and field in place and
/// lowers no count.
pub proof fn lemma_count_fragments_grows(
    names: Seq<Seq<char>>,
    usage: Usage,
    fragments: Map<Seq<char>, FragmentModel>,
)
    requires
        fragments.dom().finite(),
    ensures
        grown(usage, count_fragments(names, usage, fragments).usage),
    decreases names.len(),
{
    if names.len() > 0 {
        lemma_count_fragments_grows(names.drop_last(), usage, fragments);
        let before = count_fragments(names.drop_last(), usage, fragments);
        lemma_walk_selections_grows(
            fragments[names.last()].selection_set,
            0,
            fragments[names.last()].type_condition,
            before.usage,
            fragments,
            Set::empty().insert(names.last()),
        );
        lemma_grown_transitive(
            usage,
            before.usage,
            walk_fragment(names.last(), fragments[names.last()], before.usage, fragments).usage,
        );
    }
}

/// Counting a list of operations leaves every type that is not met exactly
/// as it was.
pub proof fn lemma_count_operations_spares_unmet(
    operations: Seq<OperationModel>,
    usage: Usage,
    fragments: Map<Seq<char>, FragmentModel>,
    spared: Seq<char>,
)
    requires
        fragments.dom().finite(),
        !met_by_operations(operations, usage, fragments).contains(spared),
    ensures
        count_operations(operations, usage, fragments).usage[spared] == usage[spared],
    decreases operations.len(),
{
    if operations.len() > 0 {
        let before = count_operations(operations.drop_last(), usage, fragments);
        let earlier = met_by_operations(operations.drop_last(), usage, fragments);
        let last = met_by_selections(
            operations.last().selection_set,
            0,
            root_type_of(operations.last().kind),
            before.usage,
            fragments,
            Set::empty(),
        );
        assert(!earlier.contains(spared) && !last.contains(spared)) by {
            if earlier.contains(spared) || last.contains(spared) {
                assert(earlier.union(last).contains(spared));
            }
        }
        lemma_count_operations_spares_unmet(operations.drop_last(), usage, fragments, spared);
        lemma_walk_selections_spare_unmet(
            operations.last().selection_set,
            0,
            root_type_of(operations.last().kind),
            before.usage,
            fragments,
            Set::empty(),
            spared,
        );
    }
}

/// Counting a list of fragments leaves every type that is not met exactly
/// as it was.
pub proof fn lemma_count_fragments_spares_unmet(
    names: Seq<Seq<char>>,
    usage: Usage,
    fragments: Map<Seq<char>, FragmentModel>,
    spared: Seq<char>,
)
    requires
        fragments.dom().finite(),
        !met_by_fragments(names, usage, fragments).contains(spared),
    ensures
        count_fragments(names, usage, fragments).usage[spared] == usage[spared],
    decreases names.len(),
{
    if names.len() > 0 {
        let before = count_fragments(names.drop_last(), usage, fragments);
        let earlier = met_by_fragments(names.drop_last(), usage, fragments);
        let last = met_by_selections(
            fragments[names.last()].selection_set,
            0,
            fragments[names.last()].type_condition,
            before.usage,
            fragments,
            Set::empty().insert(names.last()),
        );
        assert(!earlier.contains(spared) && !last.contains(spared)) by {
            if earlier.contains(spared) || last.contains(spared) {
                assert(earlier.union(last).contains(spared));
            }
        }
        lemma_count_fragments_spares_unmet(names.drop_last(), usage, fragments, spared);
        lemma_walk_selections_spare_unmet(
            fragments[names.last()].selection_set,
            0,
            fragments[names.last()].type_condition,
            before.usage,
            fragments,
            Set::empty().insert(names.last()),
            spared,
        );
    }
}

/// An analysis adds no type and no field to those of the schema and takes
/// none away, keeps every type signature, and leaves no count below zero.
pub proof fn lemma_analysis_keeps_the_schema(
    schema: Seq<SchemaDefinitionModel>,
    document: Seq<DefinitionModel>,
    include_fragments: bool,
)
    ensures
        grown(schema_usage(schema), schema_stats(schema, document, include_fragments).usage),
{
    let usage = schema_usage(schema);
    let fragments = fragments_in(document);
    lemma_fragments_in_finite(document);
    lemma_count_operations_grows(operations_of(document), usage, fragments);
    if include_fragments {
        let operations = count_operations(operations_of(document), usage, fragments);
        lemma_count_fragments_grows(fragment_order(document), operations.usage, fragments);
        lemma_grown_transitive(
            usage,
            operations.usage,
            count_fragments(fragment_order(document), operations.usage, fragments).usage,
        );
    }
}

/// A type of the schema on which no field is selected while the analysis
/// walks comes out of it as it went in: each of its fields has a count of
/// zero.
pub proof fn lemma_unmet_types_stay_uncounted(
    schema: Seq<SchemaDefinitionModel>,
    document: Seq<DefinitionModel>,
    include_fragments: bool,
    spared: Seq<char>,
)
    requires
        !met_by_analysis(schema, document, include_fragments).contains(spared),
    ensures
        schema_stats(schema, document, include_fragments).usage[spared] == schema_usage(
            schema,
        )[spared],
        forall|f: Seq<char>|
            schema_usage(schema).contains_key(spared) && schema_usage(schema)[spared].contains_key(
                f,
            ) ==> (#[trigger] schema_stats(schema, document, include_fragments).usage[spared][f]).count
                == 0,
{
    let usage = schema_usage(schema);
    let fragments = fragments_in(document);
    lemma_fragments_in_finite(document);
    lemma_schema_usage_uncounted(schema);
    let operations = count_operations(operations_of(document), usage, fragments);
    let by_operations = met_by_operations(operations_of(document), usage, fragments);
    let by_fragments = met_by_fragments(fragment_order(document), operations.usage, fragments);
    assert(!by_operations.contains(spared)) by {
        if include_fragments && by_operations.contains(spared) {
            assert(by_operations.union(by_fragments).contains(spared));
        }
    }
    lemma_count_operations_spares_unmet(operations_of(document), usage, fragments, spared);
    if include_fragments {
        assert(!by_fragments.contains(spared)) by {
            if by_fragments.contains(spared) {
                assert(by_operations.union(by_fragments).contains(spared));
            }
        }
        lemma_count_fragments_spares_unmet(
            fragment_order(document),
            operations.usage,
            fragments,
            spared,
        );
    }
    assert forall|f: Seq<char>|
        usage.contains_key(spared) && usage[spared].contains_key(f) implies (#[trigger] schema_stats(
        schema,
        document,
        include_fragments,
    ).usage[spared][f]).count == 0 by {
        assert(usage[spared][f].count == 0);
    }
}

/// Of an analysis of two texts that can be read: a type of the schema on
/// which no field is selected while the analysis walks has a count of zero
/// for each of its fields.
pub proof fn lemma_unmet_types_of_texts_stay_uncounted(
    schema: Seq<char>,
    document: Seq<char>,
    include_fragments: bool,
    spared: Seq<char>,
)
    requires
        schema_of(schema) is Some,
        document_of(document) is Some,
        !met_by_analysis(
            schema_of(schema)->0,
            document_of(document)->0,
            include_fragments,
        ).contains(spared),
    ensures
        analysis_of(schema, document, include_fragments) matches Ok(stats) && (forall|
            f: Seq<char>,
        |
            schema_usage(schema_of(schema)->0).contains_key(spared) && schema_usage(
                schema_of(schema)->0,
            )[spared].contains_key(f) ==> (#[trigger] stats.usage[spared][f]).count == 0),
{
    lemma_unmet_types_stay_uncounted(
        schema_of(schema)->0,
        document_of(document)->0,
        include_fragments,
        spared,
    );
}

} // verus!
