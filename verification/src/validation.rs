//! Which texts are GraphQL documents.

use crate::parse::document_of;
use crate::parse::parse_text;
use crate::query_extractor::ExtractionResult;
use crate::query_extractor::SkippedModel;
use crate::query_extractor::SkippedResult;
use crate::query_extractor::skipped_models;
use crate::text::texts;
use vstd::prelude::*;

verus! {

/// Whether `text` is a GraphQL document of operations and fragments: whether
/// the parser makes a document of it.
pub open spec fn is_graphql_document(text: Seq<char>) -> bool {
    document_of(text) is Some
}

/// Whether `query` is a GraphQL document.
pub fn query_is_valid(query: &str) -> (r: bool)
    ensures
        r == is_graphql_document(query@),
{
    parse_text(query).is_some()
}

/// Why a text that does not parse is left out.
pub open spec fn invalid_reason() -> Seq<char> {
    "invalid query"@
}

/// The texts of `queries` that are GraphQL documents, in order.
pub open spec fn valid_queries(queries: Seq<Seq<char>>) -> Seq<Seq<char>> {
    queries.filter(|q: Seq<char>| is_graphql_document(q))
}

/// One record for each text of `queries` that is no GraphQL document, in
/// order.
pub open spec fn invalid_records(path: Seq<char>, queries: Seq<Seq<char>>) -> Seq<SkippedModel> {
    queries.filter(|q: Seq<char>| !is_graphql_document(q)).map_values(
        |q: Seq<char>| SkippedModel { path, reason: invalid_reason() },
    )
}

/// Puts `query` where it belongs: with the queries that were kept where it
/// is valid, and as a record with those that were skipped where it is not.
pub fn sort_query(
    path: &String,
    query: String,
    valid: bool,
    kept: &mut Vec<String>,
    skipped: &mut Vec<SkippedResult>,
)
    ensures
        valid ==> texts(final(kept)@) == texts(old(kept)@).push(query@) && skipped_models(
            final(skipped)@,
        ) == skipped_models(old(skipped)@),
        !valid ==> texts(final(kept)@) == texts(old(kept)@) && skipped_models(final(skipped)@)
            == skipped_models(old(skipped)@).push(
            SkippedModel { path: path@, reason: invalid_reason() },
        ),
{
    if valid {
        assert(texts(kept@.push(query)) =~= texts(kept@).push(query@));
        kept.push(query);
    } else {
        let record = SkippedResult { path: path.clone(), reason: "invalid query".to_owned() };
        assert(skipped_models(skipped@.push(record)) =~= skipped_models(skipped@).push(record@));
        skipped.push(record);
    }
}

/// Checks what was extracted from the file at `path` before it is written:
/// the texts that are GraphQL documents stay, in order, and each of the
/// others becomes a record of what was skipped, behind those that were
/// there. So every text of the result is a GraphQL document.
pub fn checked_result(path: &String, result: ExtractionResult) -> (r: ExtractionResult)
    ensures
        texts(r.queries@) == valid_queries(texts(result.queries@)),
        skipped_models(r.skipped_files@) == skipped_models(result.skipped_files@)
            + invalid_records(path@, texts(result.queries@)),
        forall|i: int|
            0 <= i < r.queries@.len() ==> is_graphql_document(#[trigger] texts(r.queries@)[i]),
{
    let ghost all = texts(result.queries@);
    let ghost first_skipped = skipped_models(result.skipped_files@);
    let mut kept: Vec<String> = Vec::new();
    let mut skipped = result.skipped_files;
    let queries = result.queries;
    proof {
        reveal(Seq::filter);
        assert(all.subrange(0, 0) =~= Seq::<Seq<char>>::empty());
        assert(texts(kept@) =~= Seq::<Seq<char>>::empty());
        assert(invalid_records(path@, all.subrange(0, 0)) =~= Seq::<SkippedModel>::empty());
        assert(first_skipped + Seq::<SkippedModel>::empty() =~= first_skipped);
    }
    for query in it: queries
        invariant
            all == texts(queries@),
            texts(kept@) == valid_queries(all.subrange(0, it.index())),
            skipped_models(skipped@) == first_skipped + invalid_records(
                path@,
                all.subrange(0, it.index()),
            ),
            forall|i: int| 0 <= i < kept@.len() ==> is_graphql_document(#[trigger] texts(kept@)[i]),
    {
        let valid = query_is_valid(query.as_str());
        proof {
            reveal(Seq::filter);
            let before = all.subrange(0, it.index());
            let next = all.subrange(0, it.index() + 1);
            assert(next.drop_last() =~= before);
            assert(next.last() == query@);
            let bad = |q: Seq<char>| !is_graphql_document(q);
            let record = |q: Seq<char>| SkippedModel { path: path@, reason: invalid_reason() };
            if !valid {
                assert(next.filter(bad) == before.filter(bad).push(query@));
                assert(next.filter(bad).map_values(record) =~= before.filter(bad).map_values(
                    record,
                ).push(record(query@)));
                assert(first_skipped + invalid_records(path@, before).push(record(query@))
                    =~= (first_skipped + invalid_records(path@, before)).push(record(query@)));
            }
        }
        let ghost kept_before = texts(kept@);
        let ghost text = query@;
        sort_query(path, query, valid, &mut kept, &mut skipped);
        proof {
            assert forall|i: int| 0 <= i < kept@.len() implies is_graphql_document(
                #[trigger] texts(kept@)[i],
            ) by {
                if i < kept_before.len() {
                    assert(texts(kept@)[i] == kept_before[i]);
                    assert(is_graphql_document(kept_before[i]));
                } else {
                    assert(texts(kept@).len() == kept@.len());
                    assert(valid);
                    assert(texts(kept@) == kept_before.push(text));
                    assert(texts(kept@)[i] == text);
                }
            }
        }
    }
    proof {
        assert(all.subrange(0, queries@.len() as int) =~= all);
    }
    ExtractionResult { queries: kept, skipped_files: skipped }
}

} // verus!
