//! The fragments of a document, found by name.

use crate::document::FragmentDefinition;
use crate::document::FragmentModel;
use crate::lookup::distinct;
use crate::lookup::first_index;
use crate::lookup::keyed;
use crate::lookup::lemma_first_index_is;
use crate::lookup::lemma_keyed_domain;
use crate::lookup::lemma_keyed_push;
use crate::lookup::lemma_keyed_update;
use vstd::prelude::*;

verus! {

/// The names of a list of fragments, in order.
pub open spec fn fragment_names(fragments: Seq<FragmentDefinition>) -> Seq<Seq<char>> {
    fragments.map_values(|f: FragmentDefinition| f.name@)
}

/// The models of a list of fragments, in order.
pub open spec fn fragment_models(fragments: Seq<FragmentDefinition>) -> Seq<FragmentModel> {
    fragments.map_values(|f: FragmentDefinition| f@)
}

/// The fragments that a list stands for, by name. Of two fragments with one
/// name the first is the one that is found.
pub open spec fn fragments_of(fragments: Seq<FragmentDefinition>) -> Map<Seq<char>, FragmentModel> {
    keyed(fragment_names(fragments), fragment_models(fragments))
}

/// A list of fragments stands for finitely many names.
pub proof fn lemma_fragments_finite(fragments: Seq<FragmentDefinition>)
    ensures
        fragments_of(fragments).dom().finite(),
{
    lemma_keyed_domain(fragment_names(fragments), fragment_models(fragments));
}

/// Where the fragment called `name` stands in `fragments`.
pub fn fragment_position(fragments: &Vec<FragmentDefinition>, name: &String) -> (r: Option<usize>)
    ensures
        r is Some <==> fragment_names(fragments@).contains(name@),
        r is Some <==> fragments_of(fragments@).contains_key(name@),
        r matches Some(i) ==> i < fragments.len() && i == first_index(
            fragment_names(fragments@),
            name@,
        ) && fragments[i as int].name@ == name@ && fragments_of(fragments@)[name@]
            == fragments[i as int]@,
{
    let ghost names = fragment_names(fragments@);
    let mut i: usize = 0;
    while i < fragments.len()
        invariant
            i <= fragments.len(),
            names == fragment_names(fragments@),
            forall|j: int| 0 <= j < i ==> #[trigger] names[j] != name@,
        decreases fragments.len() - i,
    {
        if fragments[i].name == *name {
            proof {
                assert(names[i as int] == name@);
                lemma_first_index_is(names, name@, i as int);
            }
            return Some(i);
        }
        i = i + 1;
    }
    None
}

/// Puts `fragment` under its name: in place of the fragment that is found
/// under that name, or at the end where there is none.
pub fn insert_fragment(fragments: &mut Vec<FragmentDefinition>, fragment: FragmentDefinition)
    ensures
        fragments_of(final(fragments)@) == fragments_of(old(fragments)@).insert(
            fragment.name@,
            fragment@,
        ),
        distinct(fragment_names(old(fragments)@)) ==> distinct(fragment_names(final(fragments)@)),
        fragment_names(final(fragments)@) == if fragment_names(old(fragments)@).contains(
            fragment.name@,
        ) {
            fragment_names(old(fragments)@)
        } else {
            fragment_names(old(fragments)@).push(fragment.name@)
        },
{
    let ghost names = fragment_names(fragments@);
    let ghost models = fragment_models(fragments@);
    match fragment_position(fragments, &fragment.name) {
        Some(i) => {
            proof {
                lemma_keyed_update(names, models, fragment.name@, fragment@);
            }
            fragments.set(i, fragment);
            proof {
                assert(fragment_names(fragments@) =~= names);
                assert(fragment_models(fragments@) =~= models.update(i as int, fragment@));
            }
        },
        None => {
            proof {
                lemma_keyed_push(names, models, fragment.name@, fragment@);
            }
            fragments.push(fragment);
            proof {
                assert(fragment_names(fragments@) =~= names.push(fragment.name@));
                assert(fragment_models(fragments@) =~= models.push(fragment@));
            }
        },
    }
}

} // verus!
