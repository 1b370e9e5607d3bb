//! Operations on text, stated over sequences of characters.

use vstd::prelude::*;

verus! {

/// Whether an ASCII character is white space: the space, and the
/// characters from the tabulator to the carriage return.
pub open spec fn is_ascii_white_space(c: char) -> bool {
    c == ' ' || 9 <= c as u32 <= 13
}

/// Whether a character outside ASCII is white space.
pub uninterp spec fn is_wide_white_space(c: char) -> bool;

/// Whether `c` counts as white space when a text is trimmed.
pub open spec fn is_whitespace(c: char) -> bool {
    if (c as u32) < 128 {
        is_ascii_white_space(c)
    } else {
        is_wide_white_space(c)
    }
}

/// `char::is_whitespace` of the standard library, which tells whether a
/// character has the property `White_Space` of Unicode. Of the ASCII
/// characters the space and U+0009 to U+000D have it, and no other. For a
/// character outside ASCII the answer depends on the character alone, and
/// `is_wide_white_space` is the name given to it; the documentation gives
/// it for two such characters: the no-break space is white space, and `越`
/// is none.
#[verifier::external_body]
pub(crate) fn char_is_whitespace(c: char) -> (r: bool)
    ensures
        r == is_whitespace(c),
        c as u32 >= 128 ==> r == is_wide_white_space(c),
        c == '\u{a0}' ==> r,
        c == '越' ==> !r,
{
    c.is_whitespace()
}

/// `String::push` of the standard library: the character is put behind the
/// text.
#[verifier::external_body]
pub(crate) fn push_char(text: &mut String, c: char)
    ensures
        final(text)@ == old(text)@.push(c),
{
    text.push(c)
}

/// How many characters at the front of `s` are white space.
pub open spec fn leading_whitespace(s: Seq<char>) -> nat
    decreases s.len(),
{
    if s.len() > 0 && is_whitespace(s[0]) {
        1 + leading_whitespace(s.drop_first())
    } else {
        0
    }
}

/// How many characters at the back of `s` are white space.
pub open spec fn trailing_whitespace(s: Seq<char>) -> nat
    decreases s.len(),
{
    if s.len() > 0 && is_whitespace(s.last()) {
        1 + trailing_whitespace(s.drop_last())
    } else {
        0
    }
}

/// `s` without the white space at its front and at its back.
pub open spec fn trimmed(s: Seq<char>) -> Seq<char> {
    let rest = s.subrange(leading_whitespace(s) as int, s.len() as int);
    rest.subrange(0, rest.len() - trailing_whitespace(rest))
}

/// Whether `c` is one of the marks that decorate a type name in a type
/// signature: the brackets of a list and the mark of a non-null type.
pub open spec fn is_decoration(c: char) -> bool {
    c == '[' || c == ']' || c == '!'
}

/// The characters of `s` that are no decoration, in order.
pub open spec fn strip_decoration(s: Seq<char>) -> Seq<char> {
    s.filter(|c: char| !is_decoration(c))
}

/// Whether no character of `s` is a decoration.
pub open spec fn is_plain_name(s: Seq<char>) -> bool {
    forall|i: int| 0 <= i < s.len() ==> !is_decoration(#[trigger] s[i])
}

/// The white space at the front of a text is made of white space, is no
/// longer than the text, and ends in front of a character that is none.
pub proof fn lemma_leading_whitespace_bound(s: Seq<char>)
    ensures
        leading_whitespace(s) <= s.len(),
        forall|i: int| 0 <= i < leading_whitespace(s) ==> is_whitespace(#[trigger] s[i]),
        leading_whitespace(s) < s.len() ==> !is_whitespace(s[leading_whitespace(s) as int]),
    decreases s.len(),
{
    if s.len() > 0 && is_whitespace(s[0]) {
        let t = s.drop_first();
        lemma_leading_whitespace_bound(t);
        assert forall|i: int| 0 <= i < leading_whitespace(s) implies is_whitespace(
            #[trigger] s[i],
        ) by {
            if i > 0 {
                assert(s[i] == t[i - 1]);
            }
        }
        if leading_whitespace(s) < s.len() {
            assert(s[leading_whitespace(s) as int] == t[leading_whitespace(t) as int]);
        }
    }
}

/// The white space at the back of a text is made of white space, is no
/// longer than the text, and starts behind a character that is none.
pub proof fn lemma_trailing_whitespace_bound(s: Seq<char>)
    ensures
        trailing_whitespace(s) <= s.len(),
        forall|i: int|
            s.len() - trailing_whitespace(s) <= i < s.len() ==> is_whitespace(#[trigger] s[i]),
        trailing_whitespace(s) < s.len() ==> !is_whitespace(
            s[s.len() - trailing_whitespace(s) - 1],
        ),
    decreases s.len(),
{
    if s.len() > 0 && is_whitespace(s.last()) {
        let t = s.drop_last();
        lemma_trailing_whitespace_bound(t);
        assert forall|i: int|
            s.len() - trailing_whitespace(s) <= i < s.len() implies is_whitespace(
            #[trigger] s[i],
        ) by {
            if i < s.len() - 1 {
                assert(s[i] == t[i]);
            }
        }
        if trailing_whitespace(s) < s.len() {
            assert(s[s.len() - trailing_whitespace(s) - 1] == t[t.len() - trailing_whitespace(t)
                - 1]);
        }
    }
}

/// A trimmed text is a stretch of the text it was made from: everything
/// before and behind that stretch is white space, and where the stretch is not
/// empty, it neither starts nor ends with white space.
pub proof fn lemma_trimmed_is_the_inner_stretch(s: Seq<char>) -> (bounds: (int, int))
    ensures
        0 <= bounds.0 <= bounds.1 <= s.len(),
        trimmed(s) == s.subrange(bounds.0, bounds.1),
        forall|i: int| 0 <= i < bounds.0 ==> is_whitespace(#[trigger] s[i]),
        forall|i: int| bounds.1 <= i < s.len() ==> is_whitespace(#[trigger] s[i]),
        bounds.0 < bounds.1 ==> !is_whitespace(s[bounds.0]) && !is_whitespace(s[bounds.1 - 1]),
{
    let a = leading_whitespace(s) as int;
    lemma_leading_whitespace_bound(s);
    let rest = s.subrange(a, s.len() as int);
    lemma_trailing_whitespace_bound(rest);
    let b = s.len() - trailing_whitespace(rest);
    assert(trimmed(s) =~= s.subrange(a, b));
    assert forall|i: int| b <= i < s.len() implies is_whitespace(#[trigger] s[i]) by {
        assert(s[i] == rest[i - a]);
    }
    if a < b {
        assert(rest[0] == s[a]);
        assert(rest[rest.len() - trailing_whitespace(rest) - 1] == s[b - 1]);
    }
    (a, b)
}

/// A text that neither starts nor ends with white space is its own trimmed
/// form.
pub proof fn lemma_trimmed_of_tight_text(s: Seq<char>)
    requires
        s.len() > 0 ==> !is_whitespace(s[0]) && !is_whitespace(s.last()),
    ensures
        trimmed(s) == s,
{
    assert(leading_whitespace(s) == 0);
    assert(s.subrange(0, s.len() as int) =~= s);
    assert(trailing_whitespace(s) == 0);
}

/// A text between braces is its own trimmed form: neither brace is white
/// space.
pub proof fn lemma_trimmed_of_braced_text(s: Seq<char>)
    requires
        s.len() > 0,
        s[0] == '{',
        s.last() == '}',
    ensures
        trimmed(s) == s,
{
    lemma_trimmed_of_tight_text(s);
}

/// Trimming twice gives what trimming once gives.
pub proof fn lemma_trimmed_is_idempotent(s: Seq<char>)
    ensures
        trimmed(trimmed(s)) == trimmed(s),
{
    let bounds = lemma_trimmed_is_the_inner_stretch(s);
    let t = trimmed(s);
    if t.len() > 0 {
        assert(t[0] == s[bounds.0]);
        assert(t.last() == s[bounds.1 - 1]);
    }
    lemma_trimmed_of_tight_text(t);
}

/// The name inside a decorated type signature: a name that holds no
/// decoration comes back unchanged from under any list and non-null marks,
/// so the signature `[Foo!]!` names `Foo`.
pub proof fn lemma_strip_decorated_name(before: Seq<char>, name: Seq<char>, after: Seq<char>)
    requires
        is_plain_name(name),
        forall|i: int| 0 <= i < before.len() ==> is_decoration(#[trigger] before[i]),
        forall|i: int| 0 <= i < after.len() ==> is_decoration(#[trigger] after[i]),
    ensures
        strip_decoration(before + name + after) == name,
{
    let keep = |c: char| !is_decoration(c);
    Seq::filter_distributes_over_add(before + name, after, keep);
    Seq::filter_distributes_over_add(before, name, keep);
    lemma_filter_keeps_none(before);
    lemma_filter_keeps_none(after);
    lemma_filter_keeps_all(name);
    assert(Seq::<char>::empty() + name + Seq::<char>::empty() =~= name);
}

/// The signature of a non-null list of non-null `name`s names `name`.
pub proof fn lemma_strip_list_of_non_null(name: Seq<char>)
    requires
        is_plain_name(name),
    ensures
        strip_decoration(seq!['['] + name + seq!['!', ']', '!']) == name,
{
    let before = seq!['['];
    let after = seq!['!', ']', '!'];
    assert forall|i: int| 0 <= i < before.len() implies is_decoration(#[trigger] before[i]) by {
        assert(before[0] == '[');
    }
    assert forall|i: int| 0 <= i < after.len() implies is_decoration(#[trigger] after[i]) by {
        assert(after[0] == '!' && after[1] == ']' && after[2] == '!');
    }
    lemma_strip_decorated_name(before, name, after);
}

/// Nothing is left of a text that is made of decoration.
proof fn lemma_filter_keeps_none(s: Seq<char>)
    requires
        forall|i: int| 0 <= i < s.len() ==> is_decoration(#[trigger] s[i]),
    ensures
        strip_decoration(s) == Seq::<char>::empty(),
    decreases s.len(),
{
    reveal(Seq::filter);
    if s.len() > 0 {
        lemma_filter_keeps_none(s.drop_last());
    }
}

/// A text without decoration is left as it is.
proof fn lemma_filter_keeps_all(s: Seq<char>)
    requires
        is_plain_name(s),
    ensures
        strip_decoration(s) == s,
    decreases s.len(),
{
    reveal(Seq::filter);
    if s.len() > 0 {
        lemma_filter_keeps_all(s.drop_last());
        assert(s.drop_last().push(s.last()) =~= s);
    }
}

/// Trims `s`: the result is `s` without the white space at either end.
pub fn trim(s: &str) -> (r: String)
    ensures
        r@ == trimmed(s@),
{
    let n: usize = s.unicode_len();
    let mut start: usize = 0;
    assert(s@.subrange(0, n as int) =~= s@);
    while start < n && char_is_whitespace(s.get_char(start))
        invariant
            n == s@.len(),
            start <= n,
            leading_whitespace(s@) == start + leading_whitespace(
                s@.subrange(start as int, n as int),
            ),
        decreases n - start,
    {
        proof {
            let cur = s@.subrange(start as int, n as int);
            assert(cur[0] == s@[start as int]);
            assert(cur.drop_first() =~= s@.subrange(start + 1, n as int));
        }
        start = start + 1;
    }
    proof {
        let cur = s@.subrange(start as int, n as int);
        if start < n {
            assert(cur[0] == s@[start as int]);
        }
        assert(leading_whitespace(cur) == 0);
        assert(s@.subrange(0, n as int) =~= s@);
    }
    let ghost rest = s@.subrange(start as int, n as int);
    let mut end: usize = n;
    while end > start && char_is_whitespace(s.get_char(end - 1))
        invariant
            n == s@.len(),
            start <= end <= n,
            rest == s@.subrange(start as int, n as int),
            trailing_whitespace(rest) == (n - end) + trailing_whitespace(
                s@.subrange(start as int, end as int),
            ),
        decreases end - start,
    {
        proof {
            let cur = s@.subrange(start as int, end as int);
            assert(cur.last() == s@[end - 1]);
            assert(cur.drop_last() =~= s@.subrange(start as int, end - 1));
        }
        end = end - 1;
    }
    proof {
        let cur = s@.subrange(start as int, end as int);
        if end > start {
            assert(cur.last() == s@[end - 1]);
        }
        assert(trailing_whitespace(cur) == 0);
        assert(rest.subrange(0, rest.len() - trailing_whitespace(rest)) =~= cur);
    }
    s.substring_char(start, end).to_owned()
}

/// Whether `s` starts with `prefix`.
pub fn has_prefix(s: &str, prefix: &str) -> (r: bool)
    ensures
        r == prefix@.is_prefix_of(s@),
{
    let n: usize = s.unicode_len();
    let m: usize = prefix.unicode_len();
    if m > n {
        return false;
    }
    let mut i: usize = 0;
    while i < m
        invariant
            n == s@.len(),
            m == prefix@.len(),
            m <= n,
            i <= m,
            forall|j: int| 0 <= j < i ==> s@[j] == prefix@[j],
        decreases m - i,
    {
        if s.get_char(i) != prefix.get_char(i) {
            proof {
                if prefix@.is_prefix_of(s@) {
                    assert(s@.subrange(0, m as int)[i as int] == prefix@[i as int]);
                }
            }
            return false;
        }
        i = i + 1;
    }
    assert(s@.subrange(0, m as int) =~= prefix@);
    true
}

/// The type name inside a type signature: the signature without its list
/// and non-null marks.
pub fn strip_type_decoration(signature: &str) -> (r: String)
    ensures
        r@ == strip_decoration(signature@),
{
    let n: usize = signature.unicode_len();
    let mut out = String::new();
    let mut i: usize = 0;
    proof {
        reveal(Seq::filter);
        assert(signature@.subrange(0, 0) =~= Seq::<char>::empty());
    }
    while i < n
        invariant
            n == signature@.len(),
            i <= n,
            out@ == strip_decoration(signature@.subrange(0, i as int)),
        decreases n - i,
    {
        let c = signature.get_char(i);
        proof {
            reveal(Seq::filter);
            let next = signature@.subrange(0, i + 1);
            assert(next.drop_last() =~= signature@.subrange(0, i as int));
            assert(next.last() == c);
        }
        if c != '[' && c != ']' && c != '!' {
            let piece = signature.substring_char(i, i + 1);
            assert(piece@ =~= seq![c]);
            out.append(piece);
            assert(out@ =~= strip_decoration(signature@.subrange(0, i as int)).push(c));
        }
        i = i + 1;
    }
    assert(signature@.subrange(0, n as int) =~= signature@);
    out
}


/// Whether `a` and `b` hold the same characters.
pub fn same_text(a: &str, b: &str) -> (r: bool)
    ensures
        r == (a@ == b@),
{
    if a.unicode_len() != b.unicode_len() {
        return false;
    }
    let r = has_prefix(a, b);
    proof {
        if r {
            assert(a@.subrange(0, b@.len() as int) =~= a@);
        }
        if a@ == b@ {
            assert(a@.subrange(0, b@.len() as int) =~= b@);
        }
    }
    r
}


/// The texts of a list, in order.
pub open spec fn texts(list: Seq<String>) -> Seq<Seq<char>> {
    list.map_values(|s: String| s@)
}

/// Whether `text` is one of `list`.
pub fn contains_text(list: &Vec<String>, text: &String) -> (r: bool)
    ensures
        r == texts(list@).contains(text@),
{
    let ghost all = texts(list@);
    let mut i: usize = 0;
    while i < list.len()
        invariant
            i <= list.len(),
            all == texts(list@),
            forall|j: int| 0 <= j < i ==> #[trigger] all[j] != text@,
        decreases list.len() - i,
    {
        if list[i] == *text {
            assert(all[i as int] == text@);
            return true;
        }
        i = i + 1;
    }
    false
}

/// The text that an optional text holds, if any.
pub open spec fn optional_text(text: Option<String>) -> Option<Seq<char>> {
    match text {
        Some(t) => Some(t@),
        None => None,
    }
}

/// Whether every white space character of `text` is an ASCII character.
pub open spec fn white_space_is_ascii(text: Seq<char>) -> bool {
    forall|i: int| 0 <= i < text.len() && is_whitespace(#[trigger] text[i]) ==> (text[i] as u32) < 128
}

/// Whether every white space character of `text` is an ASCII character.
pub fn has_only_ascii_white_space(text: &str) -> (r: bool)
    ensures
        r == white_space_is_ascii(text@),
{
    for c in it: text.chars()
        invariant
            it.seq() == text@,
            forall|j: int|
                0 <= j < it.index() && is_whitespace(#[trigger] text@[j]) ==> (text@[j] as u32)
                    < 128,
    {
        assert(c == text@[it.index()]);
        if char_is_whitespace(c) && c as u32 >= 128 {
            return false;
        }
    }
    true
}

/// Whether three quotation marks stand in `text` at the place `at`.
pub open spec fn block_quote_at(text: Seq<char>, at: int) -> bool {
    0 <= at && at + 3 <= text.len() && text[at] == '"' && text[at + 1] == '"' && text[at + 2]
        == '"'
}

/// Whether `text` holds three quotation marks in a row, the mark that a
/// block string begins and ends with.
pub open spec fn holds_block_quote(text: Seq<char>) -> bool {
    exists|at: int| block_quote_at(text, at)
}

/// Whether `text` holds three quotation marks in a row.
pub fn has_block_quote(text: &str) -> (r: bool)
    ensures
        r == holds_block_quote(text@),
{
    let mut quotes: usize = 0;
    for c in it: text.chars()
        invariant
            it.seq() == text@,
            quotes <= 2,
            quotes <= it.index(),
            forall|at: int| at + 3 <= it.index() ==> !block_quote_at(text@, at),
            forall|k: int| it.index() - quotes <= k < it.index() ==> text@[k] == '"',
            quotes < 2 && quotes < it.index() ==> text@[it.index() - quotes - 1] != '"',
    {
        assert(c == text@[it.index()]);
        if c == '"' {
            if quotes == 2 {
                assert(block_quote_at(text@, it.index() - 2));
                return true;
            }
            quotes = quotes + 1;
        } else {
            quotes = 0;
        }
    }
    false
}

/// Whether `text` can be handed to the parser as it is: whether its white
/// space is all ASCII, or it holds no block string.
pub open spec fn is_readable(text: Seq<char>) -> bool {
    white_space_is_ascii(text) || !holds_block_quote(text)
}

/// Whether `text` can be handed to the parser as it is.
pub fn can_be_read(text: &str) -> (r: bool)
    ensures
        r == is_readable(text@),
{
    !has_block_quote(text) || has_only_ascii_white_space(text)
}

/// The character that stands in for white space outside ASCII in a copy
/// that is made for the parser: it is no white space itself, and the parser
/// takes it, as it takes white space outside ASCII, only inside strings and
/// comments.
pub open spec fn filler() -> char {
    '越'
}

/// `c`, or the filler where `c` is white space outside ASCII.
pub open spec fn filled(c: char) -> char {
    if c as u32 >= 128 && is_wide_white_space(c) {
        filler()
    } else {
        c
    }
}

/// The copy of `text` in which the filler stands for each white space
/// character outside ASCII, and every other character for itself.
pub open spec fn parser_copy(text: Seq<char>) -> Seq<char> {
    text.map_values(|c: char| filled(c))
}

/// Makes the copy of `text` in which the filler stands for each white space
/// character outside ASCII. The white space of the copy is all ASCII.
pub fn copy_for_parser(text: &str) -> (r: String)
    ensures
        r@ == parser_copy(text@),
        white_space_is_ascii(r@),
{
    let filler_is_white = char_is_whitespace('越');
    assert(!is_whitespace(filler()));
    let mut copy = String::new();
    proof {
        assert(copy@ =~= parser_copy(text@).subrange(0, 0));
    }
    for c in it: text.chars()
        invariant
            it.seq() == text@,
            !is_whitespace(filler()),
            copy@ == parser_copy(text@).subrange(0, it.index()),
    {
        assert(c == text@[it.index()]);
        let ghost before = copy@;
        if char_is_whitespace(c) && c as u32 >= 128 {
            push_char(&mut copy, '越');
        } else {
            push_char(&mut copy, c);
        }
        proof {
            assert(copy@ == before.push(filled(c)));
            assert(parser_copy(text@).subrange(0, it.index() + 1) =~= parser_copy(
                text@,
            ).subrange(0, it.index()).push(filled(c)));
        }
    }
    proof {
        assert(parser_copy(text@).subrange(0, text@.len() as int) =~= parser_copy(text@));
        assert forall|i: int| 0 <= i < copy@.len() && is_whitespace(#[trigger] copy@[i]) implies (
        copy@[i] as u32) < 128 by {
            assert(copy@[i] == filled(text@[i]));
        }
    }
    copy
}

/// The text that the parser is handed for `text`: the text itself where it
/// can be read as it is, and its copy with fillers where not.
pub open spec fn parser_text(text: Seq<char>) -> Seq<char> {
    if is_readable(text) {
        text
    } else {
        parser_copy(text)
    }
}

/// The text that the parser is handed is one that it can read.
pub proof fn lemma_parser_text_is_readable(text: Seq<char>)
    requires
        !is_wide_white_space(filler()),
    ensures
        is_readable(parser_text(text)),
{
    if !is_readable(text) {
        let copy = parser_copy(text);
        assert forall|i: int| 0 <= i < copy.len() && is_whitespace(#[trigger] copy[i]) implies (
        copy[i] as u32) < 128 by {
            assert(copy[i] == filled(text[i]));
        }
    }
}

} // verus!
