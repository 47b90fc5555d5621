//! Text as a sequence of characters: trimming, searching and joining, each with
//! the mathematical function it computes.

use vstd::prelude::*;
use vstd::slice::slice_subrange;
use vstd::utf8::{decode_utf8, valid_utf8};

verus! {

/// `String::push` appends one character.
pub assume_specification[ String::push ](s: &mut String, c: char)
    ensures
        final(s)@ == old(s)@.push(c),
;

/// The Unicode `White_Space` property.
pub open spec fn white_space(c: char) -> bool {
    ||| '\u{9}' <= c <= '\u{d}'
    ||| c == ' '
    ||| c == '\u{85}'
    ||| c == '\u{a0}'
    ||| c == '\u{1680}'
    ||| '\u{2000}' <= c <= '\u{200a}'
    ||| c == '\u{2028}'
    ||| c == '\u{2029}'
    ||| c == '\u{202f}'
    ||| c == '\u{205f}'
    ||| c == '\u{3000}'
}

/// Whether a character has the Unicode `White_Space` property.
fn is_white_space(c: char) -> (r: bool)
    ensures
        r == white_space(c),
{
    ('\u{9}' <= c && c <= '\u{d}') || c == ' ' || c == '\u{85}' || c == '\u{a0}' || c == '\u{1680}'
        || ('\u{2000}' <= c && c <= '\u{200a}') || c == '\u{2028}' || c == '\u{2029}' || c
        == '\u{202f}' || c == '\u{205f}' || c == '\u{3000}'
}

/// The text that `String::from_utf8_lossy` makes of bytes.
pub uninterp spec fn utf8_lossy(bytes: Seq<u8>) -> Seq<char>;

/// Calls `String::from_utf8_lossy`. Claims that the text is a function of the
/// bytes, and that bytes which are UTF-8 give the text that they encode. How bytes
/// are replaced that are not is left unsaid.
#[verifier::external_body]
pub(crate) fn lossy_text(bytes: &[u8]) -> (r: String)
    ensures
        r@ == utf8_lossy(bytes@),
        valid_utf8(bytes@) ==> r@ == decode_utf8(bytes@),
{
    String::from_utf8_lossy(bytes).into_owned()
}

/// The decimal digits `0` to `9`.
pub open spec fn ascii_digit(c: char) -> bool {
    '0' <= c <= '9'
}

/// ASCII letters and decimal digits.
pub open spec fn ascii_alphanumeric(c: char) -> bool {
    ||| 'a' <= c <= 'z'
    ||| 'A' <= c <= 'Z'
    ||| ascii_digit(c)
}

/// An ASCII capital in lower case; any other character as it is.
pub open spec fn ascii_lower(c: char) -> char {
    if 'A' <= c <= 'Z' {
        (c as u32 + 32) as char
    } else {
        c
    }
}

/// `s` with every ASCII capital in lower case.
pub open spec fn lower_text(s: Seq<char>) -> Seq<char> {
    Seq::new(s.len(), |i: int| ascii_lower(s[i]))
}

/// `s` without the longest run of characters at its start for which `f` holds.
pub open spec fn drop_leading(s: Seq<char>, f: spec_fn(char) -> bool) -> Seq<char>
    decreases s.len(),
{
    if s.len() > 0 && f(s[0]) {
        drop_leading(s.drop_first(), f)
    } else {
        s
    }
}

/// `s` without the longest run of characters at its end for which `f` holds.
pub open spec fn drop_trailing(s: Seq<char>, f: spec_fn(char) -> bool) -> Seq<char>
    decreases s.len(),
{
    if s.len() > 0 && f(s.last()) {
        drop_trailing(s.drop_last(), f)
    } else {
        s
    }
}

/// `s` without leading white space.
pub open spec fn trim_start(s: Seq<char>) -> Seq<char> {
    drop_leading(s, |c: char| white_space(c))
}

/// `s` without trailing white space.
pub open spec fn trim_end(s: Seq<char>) -> Seq<char> {
    drop_trailing(s, |c: char| white_space(c))
}

/// `s` without white space at either end.
pub open spec fn trim(s: Seq<char>) -> Seq<char> {
    trim_end(trim_start(s))
}

/// The predicate that holds of `c` alone.
pub open spec fn only(c: char) -> spec_fn(char) -> bool {
    |x: char| x == c
}

/// `s` without the run of `c` at its start.
pub open spec fn trim_start_of(s: Seq<char>, c: char) -> Seq<char> {
    drop_leading(s, only(c))
}

/// `s` without the run of `c` at its end.
pub open spec fn trim_end_of(s: Seq<char>, c: char) -> Seq<char> {
    drop_trailing(s, only(c))
}

/// The position of the first `c` in `s`, or the length of `s` when there is none.
pub open spec fn first_index(s: Seq<char>, c: char) -> int
    decreases s.len(),
{
    if s.len() == 0 || s[0] == c {
        0
    } else {
        1 + first_index(s.drop_first(), c)
    }
}

/// Whether `part` stands in `s` at position `i`.
pub open spec fn occurs_at(s: Seq<char>, part: Seq<char>, i: int) -> bool {
    &&& 0 <= i
    &&& i + part.len() <= s.len()
    &&& s.subrange(i, i + part.len()) == part
}

/// Whether `part` stands anywhere in `s`.
pub open spec fn contains_text(s: Seq<char>, part: Seq<char>) -> bool {
    exists|i: int| occurs_at(s, part, i)
}

/// Whether `i` is the position of the first occurrence of `part` in `s`.
pub open spec fn first_occurrence(s: Seq<char>, part: Seq<char>, i: int) -> bool {
    &&& occurs_at(s, part, i)
    &&& forall|j: int| 0 <= j < i ==> !occurs_at(s, part, j)
}

/// The position of the first occurrence of `part` in `s`, where there is one.
pub open spec fn first_position(s: Seq<char>, part: Seq<char>) -> int {
    choose|i: int| first_occurrence(s, part, i)
}

/// There is only one first occurrence.
pub proof fn first_position_is(s: Seq<char>, part: Seq<char>, i: int)
    requires
        first_occurrence(s, part, i),
    ensures
        first_position(s, part) == i,
{
    let j = first_position(s, part);
    assert(first_occurrence(s, part, j));
    assert(occurs_at(s, part, i));
    assert(occurs_at(s, part, j));
}

/// Whether `s` begins with `prefix`.
pub open spec fn begins_with(s: Seq<char>, prefix: Seq<char>) -> bool {
    occurs_at(s, prefix, 0)
}

/// `parts` one after the other, with `sep` between neighbours.
pub open spec fn join_text(parts: Seq<Seq<char>>, sep: Seq<char>) -> Seq<char>
    decreases parts.len(),
{
    if parts.len() == 0 {
        Seq::empty()
    } else if parts.len() == 1 {
        parts[0]
    } else {
        join_text(parts.drop_last(), sep) + sep + parts.last()
    }
}

/// `first_index` is where the first `c` stands.
pub proof fn first_index_bounds(s: Seq<char>, c: char)
    ensures
        0 <= first_index(s, c) <= s.len(),
        first_index(s, c) < s.len() ==> s[first_index(s, c)] == c,
        forall|i: int| 0 <= i < first_index(s, c) ==> s[i] != c,
    decreases s.len(),
{
    if s.len() > 0 && s[0] != c {
        first_index_bounds(s.drop_first(), c);
        let n = first_index(s.drop_first(), c);
        assert forall|i: int| 0 <= i < n + 1 implies s[i] != c by {
            if i > 0 {
                assert(s[i] == s.drop_first()[i - 1]);
            }
        }
    }
}

/// Text added after the first `c` does not move it.
pub proof fn first_index_append(s: Seq<char>, more: Seq<char>, c: char)
    ensures
        first_index(s, c) < s.len() ==> first_index(s + more, c) == first_index(s, c),
    decreases s.len(),
{
    if s.len() > 0 && s[0] != c {
        assert((s + more).drop_first() == s.drop_first() + more);
        first_index_append(s.drop_first(), more, c);
    }
}

/// The first `c` stands right after text that holds none.
pub proof fn first_index_after(s: Seq<char>, c: char, rest: Seq<char>)
    requires
        !s.contains(c),
    ensures
        first_index(s + seq![c] + rest, c) == s.len(),
{
    let whole = s + seq![c] + rest;
    first_index_bounds(whole, c);
    let n = first_index(whole, c);
    assert(whole[s.len() as int] == c);
    if n < s.len() {
        assert(whole[n] == s[n]);
        assert(s.contains(s[n]));
    }
}

/// Trimming takes nothing but characters away.
pub proof fn trimmed_is_no_longer(s: Seq<char>, f: spec_fn(char) -> bool)
    ensures
        drop_leading(s, f).len() <= s.len(),
        drop_trailing(s, f).len() <= s.len(),
    decreases s.len(),
{
    if s.len() > 0 {
        trimmed_is_no_longer(s.drop_first(), f);
        trimmed_is_no_longer(s.drop_last(), f);
    }
}

/// White space before a text is what trimming its start takes off.
pub proof fn leading_space_is_trimmed(space: Seq<char>, text: Seq<char>)
    requires
        forall|k: int| 0 <= k < space.len() ==> white_space(#[trigger] space[k]),
        text.len() > 0 ==> !white_space(text[0]),
    ensures
        trim_start(space + text) == text,
    decreases space.len(),
{
    let s = space + text;
    if space.len() == 0 {
        assert(s =~= text);
    } else {
        assert(s[0] == space[0]);
        assert(white_space(space[0]));
        assert(s.drop_first() =~= space.drop_first() + text);
        assert forall|k: int| 0 <= k < space.len() - 1 implies white_space(
            #[trigger] space.drop_first()[k],
        ) by {
            assert(white_space(space[k + 1]));
        }
        leading_space_is_trimmed(space.drop_first(), text);
    }
}

/// White space behind a text is what trimming its end takes off.
pub proof fn trailing_space_is_trimmed(text: Seq<char>, space: Seq<char>)
    requires
        forall|k: int| 0 <= k < space.len() ==> white_space(#[trigger] space[k]),
        text.len() > 0 ==> !white_space(text.last()),
    ensures
        trim_end(text + space) == text,
    decreases space.len(),
{
    let s = text + space;
    if space.len() == 0 {
        assert(s =~= text);
    } else {
        assert(s.last() == space.last());
        assert(white_space(space[space.len() - 1]));
        assert(s.drop_last() =~= text + space.drop_last());
        assert forall|k: int| 0 <= k < space.len() - 1 implies white_space(
            #[trigger] space.drop_last()[k],
        ) by {
            assert(white_space(space[k]));
        }
        trailing_space_is_trimmed(text, space.drop_last());
    }
}

/// White space around a text is what trimming takes off.
pub proof fn outer_space_is_trimmed(before: Seq<char>, text: Seq<char>, after: Seq<char>)
    requires
        forall|k: int| 0 <= k < before.len() ==> white_space(#[trigger] before[k]),
        forall|k: int| 0 <= k < after.len() ==> white_space(#[trigger] after[k]),
        text.len() > 0,
        !white_space(text[0]),
        !white_space(text.last()),
    ensures
        trim(before + text + after) == text,
{
    assert(before + text + after =~= before + (text + after));
    leading_space_is_trimmed(before, text + after);
    trailing_space_is_trimmed(text, after);
}

/// A run of `c` before a text is what trimming it off the start takes off.
pub proof fn leading_runs_are_trimmed(run: Seq<char>, text: Seq<char>, c: char)
    requires
        forall|k: int| 0 <= k < run.len() ==> #[trigger] run[k] == c,
        text.len() > 0 ==> text[0] != c,
    ensures
        trim_start_of(run + text, c) == text,
    decreases run.len(),
{
    let s = run + text;
    if run.len() == 0 {
        assert(s =~= text);
    } else {
        assert(s[0] == run[0]);
        assert(s.drop_first() =~= run.drop_first() + text);
        assert forall|k: int| 0 <= k < run.len() - 1 implies #[trigger] run.drop_first()[k] == c by {
            assert(run[k + 1] == c);
        }
        leading_runs_are_trimmed(run.drop_first(), text, c);
    }
}

/// A run of `c` behind a text is what trimming it off the end takes off.
pub proof fn trailing_runs_are_trimmed(text: Seq<char>, run: Seq<char>, c: char)
    requires
        forall|k: int| 0 <= k < run.len() ==> #[trigger] run[k] == c,
        text.len() > 0 ==> text.last() != c,
    ensures
        trim_end_of(text + run, c) == text,
    decreases run.len(),
{
    let s = text + run;
    if run.len() == 0 {
        assert(s =~= text);
    } else {
        assert(s.last() == run.last());
        assert(run[run.len() - 1] == c);
        assert(s.drop_last() =~= text + run.drop_last());
        assert forall|k: int| 0 <= k < run.len() - 1 implies #[trigger] run.drop_last()[k] == c by {
            assert(run[k] == c);
        }
        trailing_runs_are_trimmed(text, run.drop_last(), c);
    }
}

/// A text begins with each of its beginnings, and with no other text.
pub proof fn beginnings_are_prefixes(prefix: Seq<char>, rest: Seq<char>, s: Seq<char>)
    ensures
        begins_with(prefix + rest, prefix),
        begins_with(s, prefix) ==> s.len() >= prefix.len() && (forall|k: int|
            0 <= k < prefix.len() ==> #[trigger] s[k] == prefix[k]),
{
    assert((prefix + rest).subrange(0, prefix.len() as int) =~= prefix);
    if begins_with(s, prefix) {
        assert forall|k: int| 0 <= k < prefix.len() implies #[trigger] s[k] == prefix[k] by {
            assert(s.subrange(0, prefix.len() as int)[k] == s[k]);
        }
    }
}

/// A text contains exactly the texts that stand somewhere in it.
pub proof fn parts_are_contained(before: Seq<char>, part: Seq<char>, after: Seq<char>, s: Seq<char>)
    ensures
        contains_text(before + part + after, part),
        contains_text(s, part) ==> exists|i: int|
            0 <= i && i + part.len() <= s.len() && #[trigger] s.skip(i).take(part.len() as int)
                == part,
{
    let whole = before + part + after;
    let at = before.len() as int;
    assert(whole.subrange(at, at + part.len()) =~= part);
    assert(occurs_at(whole, part, at));
    if contains_text(s, part) {
        let i = choose|i: int| occurs_at(s, part, i);
        assert(s.skip(i).take(part.len() as int) =~= s.subrange(i, i + part.len()));
    }
}

/// Lower case leaves every character where it is and changes only the letters `A` to
/// `Z`, each to the letter that stands in its place behind `a`.
pub proof fn lower_case_changes_capitals_only(s: Seq<char>, i: int)
    requires
        0 <= i < s.len(),
    ensures
        lower_text(s).len() == s.len(),
        'A' <= s[i] <= 'Z' ==> lower_text(s)[i] as int - 'a' as int == s[i] as int - 'A' as int,
        !('A' <= s[i] <= 'Z') ==> lower_text(s)[i] == s[i],
{
}

/// Joined texts stand in order, with the separator between neighbours only.
pub proof fn texts_are_joined_in_order(parts: Seq<Seq<char>>, last: Seq<char>, sep: Seq<char>)
    ensures
        join_text(seq![last], sep) == last,
        parts.len() > 0 ==> join_text(parts.push(last), sep) == join_text(parts, sep) + sep + last,
        join_text(Seq::empty(), sep) == Seq::<char>::empty(),
{
    assert(parts.push(last).drop_last() =~= parts);
}

/// The characters of a string, in order.
pub fn to_chars(s: &str) -> (r: Vec<char>)
    ensures
        r@ == s@,
{
    let mut r: Vec<char> = Vec::new();
    for c in it: s.chars()
        invariant
            r@ == it.seq().take(it.index() as int),
            it.seq() == s@,
    {
        r.push(c);
    }
    r
}

/// The string made of the given characters.
pub fn to_text(chars: &[char]) -> (r: String)
    ensures
        r@ == chars@,
{
    let mut r = String::new();
    for i in 0..chars.len()
        invariant
            r@ == chars@.take(i as int),
    {
        r.push(chars[i]);
    }
    assert(chars@.take(chars.len() as int) == chars@);
    r
}

/// Appends `more` to `chars`.
pub fn append_chars(chars: &mut Vec<char>, more: &[char])
    ensures
        final(chars)@ == old(chars)@ + more@,
{
    let ghost before = chars@;
    for i in 0..more.len()
        invariant
            chars@ == before + more@.take(i as int),
    {
        chars.push(more[i]);
    }
    assert(more@.take(more.len() as int) == more@);
}

/// A copy of a text that may be there.
pub fn copy_text(o: &Option<String>) -> (r: Option<String>)
    ensures
        r == *o,
        r.deep_view() == o.deep_view(),
{
    match o {
        Some(s) => Some(s.clone()),
        None => None,
    }
}

/// Copies of the strings of `list`, in order.
pub fn copy_texts(list: &[String]) -> (r: Vec<String>)
    ensures
        r.deep_view() == list.deep_view(),
{
    let mut r: Vec<String> = Vec::new();
    for i in 0..list.len()
        invariant
            r.deep_view() == list.deep_view().take(i as int),
    {
        let ghost had = r.deep_view();
        r.push(list[i].clone());
        assert(r.deep_view() =~= had.push(list@[i as int]@));
    }
    assert(list.deep_view().take(list@.len() as int) =~= list.deep_view());
    r
}

/// Whether two character sequences are the same.
pub fn same_chars(a: &[char], b: &[char]) -> (r: bool)
    ensures
        r == (a@ == b@),
{
    if a.len() != b.len() {
        return false;
    }
    for i in 0..a.len()
        invariant
            a.len() == b.len(),
            forall|j: int| 0 <= j < i ==> a@[j] == b@[j],
    {
        if a[i] != b[i] {
            return false;
        }
    }
    assert(a@ == b@);
    true
}

/// Whether two strings hold the same text.
pub fn same_text(a: &str, b: &str) -> (r: bool)
    ensures
        r == (a@ == b@),
{
    same_chars(to_chars(a).as_slice(), to_chars(b).as_slice())
}

/// Whether `part` stands in `s` at position `i`.
pub fn is_at(s: &[char], part: &[char], i: usize) -> (r: bool)
    ensures
        r == occurs_at(s@, part@, i as int),
{
    if i > s.len() || part.len() > s.len() - i {
        return false;
    }
    same_chars(slice_subrange(s, i, i + part.len()), part)
}

/// Whether `s` begins with `prefix`.
pub fn starts_with(s: &[char], prefix: &str) -> (r: bool)
    ensures
        r == begins_with(s@, prefix@),
{
    is_at(s, to_chars(prefix).as_slice(), 0)
}

/// What follows `prefix` in `s`, where `s` begins with it.
pub fn strip_prefix<'a>(s: &'a [char], prefix: &str) -> (r: Option<&'a [char]>)
    ensures
        r is Some <==> begins_with(s@, prefix@),
        r matches Some(rest) ==> rest@ == s@.skip(prefix@.len() as int),
{
    let p = to_chars(prefix);
    if is_at(s, p.as_slice(), 0) {
        Some(slice_subrange(s, p.len(), s.len()))
    } else {
        None
    }
}

/// The position of the first occurrence of `part` in `s`.
pub fn find_text(s: &[char], part: &str) -> (r: Option<usize>)
    ensures
        r is Some <==> contains_text(s@, part@),
        r matches Some(i) ==> first_occurrence(s@, part@, i as int) && i == first_position(
            s@,
            part@,
        ),
{
    let p = to_chars(part);
    if p.len() > s.len() {
        return None;
    }
    let last: usize = s.len() - p.len();
    let mut i: usize = 0;
    while i < last
        invariant
            p@ == part@,
            last == s@.len() - p@.len(),
            i <= last,
            forall|j: int| 0 <= j < i ==> !occurs_at(s@, part@, j),
        decreases last - i,
    {
        if is_at(s, p.as_slice(), i) {
            proof {
                first_position_is(s@, part@, i as int);
            }
            return Some(i);
        }
        i = i + 1;
    }
    if is_at(s, p.as_slice(), last) {
        proof {
            first_position_is(s@, part@, last as int);
        }
        Some(last)
    } else {
        None
    }
}

/// The position of the first `c` in `s`, or the length of `s` when there is none.
pub fn index_of(s: &[char], c: char) -> (r: usize)
    ensures
        r == first_index(s@, c),
        r <= s@.len(),
{
    let mut i: usize = 0;
    proof {
        assert(s@.skip(0) == s@);
    }
    while i < s.len() && s[i] != c
        invariant
            i <= s@.len(),
            first_index(s@, c) == i + first_index(s@.skip(i as int), c),
        decreases s.len() - i,
    {
        proof {
            assert(s@.skip(i as int).drop_first() == s@.skip(i + 1));
        }
        i = i + 1;
    }
    i
}

/// Whether `part` stands anywhere in `s`.
pub fn has_text(s: &[char], part: &str) -> (r: bool)
    ensures
        r == contains_text(s@, part@),
{
    find_text(s, part).is_some()
}

/// `s` without leading white space.
pub fn without_leading_space<'a>(s: &'a [char]) -> (r: &'a [char])
    ensures
        r@ == trim_start(s@),
{
    let ghost f = |c: char| white_space(c);
    let mut i: usize = 0;
    proof {
        assert(s@.skip(0) == s@);
    }
    while i < s.len() && is_white_space(s[i])
        invariant
            i <= s@.len(),
            f == (|c: char| white_space(c)),
            drop_leading(s@, f) == drop_leading(s@.skip(i as int), f),
        decreases s.len() - i,
    {
        proof {
            assert(f(s@[i as int]));
            assert(s@.skip(i as int).drop_first() == s@.skip(i + 1));
        }
        i = i + 1;
    }
    proof {
        assert(i < s@.len() ==> !f(s@[i as int]));
    }
    slice_subrange(s, i, s.len())
}

/// `s` without trailing white space.
pub fn without_trailing_space<'a>(s: &'a [char]) -> (r: &'a [char])
    ensures
        r@ == trim_end(s@),
{
    let ghost f = |c: char| white_space(c);
    let mut n: usize = s.len();
    proof {
        assert(s@.take(n as int) == s@);
    }
    while n > 0 && is_white_space(s[n - 1])
        invariant
            n <= s@.len(),
            f == (|c: char| white_space(c)),
            drop_trailing(s@, f) == drop_trailing(s@.take(n as int), f),
        decreases n,
    {
        proof {
            assert(f(s@[n - 1]));
            assert(s@.take(n as int).drop_last() == s@.take(n - 1));
        }
        n = n - 1;
    }
    proof {
        assert(n > 0 ==> !f(s@[n - 1]));
    }
    slice_subrange(s, 0, n)
}

/// `s` without white space at either end.
pub fn without_outer_space<'a>(s: &'a [char]) -> (r: &'a [char])
    ensures
        r@ == trim(s@),
{
    without_trailing_space(without_leading_space(s))
}

/// `s` without the run of `c` at its start.
pub fn without_leading<'a>(s: &'a [char], c: char) -> (r: &'a [char])
    ensures
        r@ == trim_start_of(s@, c),
{
    let ghost f = only(c);
    let mut i: usize = 0;
    proof {
        assert(s@.skip(0) == s@);
    }
    while i < s.len() && s[i] == c
        invariant
            i <= s@.len(),
            f == only(c),
            drop_leading(s@, f) == drop_leading(s@.skip(i as int), f),
        decreases s.len() - i,
    {
        proof {
            assert(f(s@[i as int]));
            assert(s@.skip(i as int).drop_first() == s@.skip(i + 1));
        }
        i = i + 1;
    }
    proof {
        assert(i < s@.len() ==> !f(s@[i as int]));
    }
    slice_subrange(s, i, s.len())
}

/// `s` without the run of `c` at its end.
pub fn without_trailing<'a>(s: &'a [char], c: char) -> (r: &'a [char])
    ensures
        r@ == trim_end_of(s@, c),
{
    let ghost f = only(c);
    let mut n: usize = s.len();
    proof {
        assert(s@.take(n as int) == s@);
    }
    while n > 0 && s[n - 1] == c
        invariant
            n <= s@.len(),
            f == only(c),
            drop_trailing(s@, f) == drop_trailing(s@.take(n as int), f),
        decreases n,
    {
        proof {
            assert(f(s@[n - 1]));
            assert(s@.take(n as int).drop_last() == s@.take(n - 1));
        }
        n = n - 1;
    }
    proof {
        assert(n > 0 ==> !f(s@[n - 1]));
    }
    slice_subrange(s, 0, n)
}

/// `s` with every ASCII capital in lower case.
pub fn lower_chars(s: &[char]) -> (r: Vec<char>)
    ensures
        r@ == lower_text(s@),
{
    let mut r: Vec<char> = Vec::new();
    for i in 0..s.len()
        invariant
            r@ == lower_text(s@).take(i as int),
    {
        let c = s[i];
        if 'A' <= c && c <= 'Z' {
            r.push(((c as u8) + 32) as char);
        } else {
            r.push(c);
        }
    }
    assert(lower_text(s@).take(s@.len() as int) == lower_text(s@));
    r
}

/// The strings of `parts` one after the other, with `sep` between neighbours.
pub fn join_strings(parts: &[String], sep: &str) -> (r: String)
    ensures
        r@ == join_text(parts.deep_view(), sep@),
{
    let mut r = String::new();
    let ghost views = parts.deep_view();
    for i in 0..parts.len()
        invariant
            views == parts.deep_view(),
            r@ == join_text(views.take(i as int), sep@),
    {
        proof {
            assert(views.take(i + 1).drop_last() == views.take(i as int));
            assert(views.take(i + 1).last() == parts@[i as int]@);
        }
        if i > 0 {
            r.append(sep);
        }
        r.append(parts[i].as_str());
        assert(i == 0 ==> r@ == views.take(i + 1)[0]);
    }
    assert(views.take(parts.len() as int) == views);
    r
}

/// White space are these code points and no others.
pub proof fn white_space_is_these(c: char)
    ensures
        ({
            let n = c as u32;
            white_space(c) <==> n == 0x09 || n == 0x0a || n == 0x0b || n == 0x0c || n == 0x0d || n
                == 0x20 || n == 0x85 || n == 0xa0 || n == 0x1680 || (0x2000 <= n && n <= 0x200a)
                || n == 0x2028 || n == 0x2029 || n == 0x202f || n == 0x205f || n == 0x3000
        }),
{
}

/// Letters and digits are those of ASCII.
pub proof fn letters_and_digits_are_these(c: char)
    ensures
        ascii_digit(c) <==> 48 <= c as u32 <= 57,
        ascii_alphanumeric(c) <==> (48 <= c as u32 <= 57) || (65 <= c as u32 <= 90) || (97
            <= c as u32 <= 122),
{
}

/// A text that does not begin earlier is found where it stands.
pub proof fn texts_are_found_where_they_stand(before: Seq<char>, part: Seq<char>, after: Seq<char>)
    requires
        forall|i: int|
            0 <= i < before.len() ==> #[trigger] (before + part + after).subrange(
                i,
                i + part.len(),
            ) != part,
    ensures
        contains_text(before + part + after, part),
        first_position(before + part + after, part) == before.len(),
{
    let s = before + part + after;
    let at = before.len() as int;
    assert(s.subrange(at, at + part.len()) =~= part);
    assert(occurs_at(s, part, at));
    assert forall|j: int| 0 <= j < at implies !occurs_at(s, part, j) by {
        assert(s.subrange(j, j + part.len()) != part);
    }
    first_position_is(s, part, at);
}

} // verus!
