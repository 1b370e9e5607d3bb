//! Names for anonymous fragments, made from a digest of their text.

use crate::text::has_prefix;
use vstd::prelude::*;

verus! {

/// The MD5 digest of the UTF-8 bytes of `text`, written as hexadecimal
/// digits.
pub uninterp spec fn md5_hex(text: Seq<char>) -> Seq<char>;

/// Whether `c` is a hexadecimal digit in lower case.
pub open spec fn is_lower_hex_digit(c: char) -> bool {
    c == '0' || c == '1' || c == '2' || c == '3' || c == '4' || c == '5' || c == '6' || c == '7'
        || c == '8' || c == '9' || c == 'a' || c == 'b' || c == 'c' || c == 'd' || c == 'e' || c
        == 'f'
}

/// `md5::compute` on the bytes of `text`, formatted with `{:x}`: the digest
/// depends on the text alone and `md5_hex` is the name given to it. It has
/// sixteen bytes, and the format writes each as two hexadecimal digits in
/// lower case.
#[verifier::external_body]
pub(crate) fn md5_hex_digest(text: &str) -> (digest: String)
    ensures
        digest@ == md5_hex(text@),
        digest@.len() == 32,
        forall|i: int| 0 <= i < 32 ==> is_lower_hex_digit(#[trigger] digest@[i]),
{
    format!("{:x}", md5::compute(text))
}

/// What an anonymous fragment starts with.
pub open spec fn anonymous_prefix() -> Seq<char> {
    "fragment on "@
}

/// Whether `text` is an anonymous fragment.
pub open spec fn is_anonymous_fragment(text: Seq<char>) -> bool {
    anonymous_prefix().is_prefix_of(text)
}

/// The anonymous fragment `text` with the name `F_` and `digest` put
/// between `fragment` and `on`.
pub open spec fn named_fragment(text: Seq<char>, digest: Seq<char>) -> Seq<char> {
    "fragment F_"@ + digest + " on "@ + text.subrange(
        anonymous_prefix().len() as int,
        text.len() as int,
    )
}

/// `text` with a name where it is an anonymous fragment: the name is made of
/// the digest of the whole text. Any other text stays as it is.
pub open spec fn with_fragment_name(text: Seq<char>) -> Seq<char> {
    if is_anonymous_fragment(text) {
        named_fragment(text, md5_hex(text))
    } else {
        text
    }
}

/// Gives the anonymous fragment `query` a name made of `digest`; any other
/// text comes back as it is.
pub fn rename_anonymous_fragment(query: &str, digest: &str) -> (r: String)
    ensures
        r@ == if is_anonymous_fragment(query@) {
            named_fragment(query@, digest@)
        } else {
            query@
        },
{
    if !has_prefix(query, "fragment on ") {
        return query.to_owned();
    }
    let skip: usize = "fragment on ".unicode_len();
    let rest = query.substring_char(skip, query.unicode_len());
    let mut named = "fragment F_".to_owned();
    named.append(digest);
    named.append(" on ");
    named.append(rest);
    named
}

/// Gives `query` a name where it is an anonymous fragment. The name depends
/// on the text of the fragment alone: the same text gets the same name,
/// whenever and wherever it is named.
pub fn name_anonymous_fragment(query: String) -> (r: String)
    ensures
        r@ == with_fragment_name(query@),
        is_anonymous_fragment(query@) ==> r@.len() == query@.len() + 35,
        is_anonymous_fragment(query@) ==> r@.subrange(0, 11) == "fragment F_"@ && r@.subrange(
            11,
            43,
        ) == md5_hex(query@) && forall|i: int|
            11 <= i < 43 ==> is_lower_hex_digit(#[trigger] r@[i]),
        !is_anonymous_fragment(query@) ==> r@ == query@,
{
    if !has_prefix(query.as_str(), "fragment on ") {
        return query;
    }
    let digest = md5_hex_digest(query.as_str());
    proof {
        reveal_strlit("fragment on ");
        reveal_strlit("fragment F_");
        reveal_strlit(" on ");
    }
    let named = rename_anonymous_fragment(query.as_str(), digest.as_str());
    proof {
        assert(named@.subrange(0, 11) =~= "fragment F_"@);
        assert(named@.subrange(11, 43) =~= digest@);
        assert forall|i: int| 11 <= i < 43 implies is_lower_hex_digit(#[trigger] named@[i]) by {
            assert(named@[i] == digest@[i - 11]);
        }
    }
    named
}

/// Two texts that are the same get the same name.
pub proof fn lemma_same_text_same_name(a: Seq<char>, b: Seq<char>)
    requires
        a == b,
    ensures
        with_fragment_name(a) == with_fragment_name(b),
{
}

/// An anonymous fragment that was given a name is no anonymous fragment any
/// more.
pub proof fn lemma_named_fragment_is_named(text: Seq<char>)
    requires
        is_anonymous_fragment(text),
    ensures
        !is_anonymous_fragment(with_fragment_name(text)),
{
    reveal_strlit("fragment on ");
    reveal_strlit("fragment F_");
    let named = with_fragment_name(text);
    if is_anonymous_fragment(named) {
        assert(named.subrange(0, 12)[9] == anonymous_prefix()[9]);
        assert(named[9] == 'F');
        assert(anonymous_prefix()[9] == 'o');
    }
}

/// Naming twice changes nothing more than naming once.
pub proof fn lemma_naming_is_idempotent(text: Seq<char>)
    ensures
        with_fragment_name(with_fragment_name(text)) == with_fragment_name(text),
{
    if is_anonymous_fragment(text) {
        lemma_named_fragment_is_named(text);
    }
}

} // verus!
