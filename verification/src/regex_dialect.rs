//! Which regex constructs a provider's `pattern` validator can compile.
//!
//! A validator built on RE2 has no backtracking and therefore no lookaround, so
//! a schema that carries such a pattern fails as a whole. Detection is
//! syntactic and conservative: dropping a `pattern` only widens what a model is
//! told it may send, while keeping one that does not compile fails every
//! request.

use crate::text::to_chars;
use vstd::prelude::*;
use vstd::slice::slice_subrange;

verus! {

/// A regex construct RE2 cannot compile.
#[derive(Clone, Copy, Debug, PartialEq, Eq, Structural)]
pub enum UnsupportedRegex {
    /// `(?=`, `(?!`, `(?<=`, `(?<!`: RE2 has no backtracking.
    Lookaround,
    /// `\1`, `\2`: a backreference needs backtracking for the same reason.
    Backreference,
    /// `(?>` (atomic group) and `(?(` (conditional), both backtracking-only.
    AtomicOrConditional,
    /// `a{2,}+`, `a*+`: possessive quantifiers are a backtracking-control
    /// construct with no RE2 equivalent.
    PossessiveQuantifier,
    /// `\p{...}` outside RE2's supported class syntax, and `\X`, `\K`, `\G`.
    UnsupportedEscape,
}

/// The text that describes a construct.
pub open spec fn description_of(kind: UnsupportedRegex) -> Seq<char> {
    match kind {
        UnsupportedRegex::Lookaround => "lookaround"@,
        UnsupportedRegex::Backreference => "a backreference"@,
        UnsupportedRegex::AtomicOrConditional => "an atomic or conditional group"@,
        UnsupportedRegex::PossessiveQuantifier => "a possessive quantifier"@,
        UnsupportedRegex::UnsupportedEscape => "an unsupported escape"@,
    }
}

impl UnsupportedRegex {
    /// Short description for diagnostics.
    pub fn description(self) -> (r: &'static str)
        ensures
            r@ == description_of(self),
    {
        match self {
            UnsupportedRegex::Lookaround => "lookaround",
            UnsupportedRegex::Backreference => "a backreference",
            UnsupportedRegex::AtomicOrConditional => "an atomic or conditional group",
            UnsupportedRegex::PossessiveQuantifier => "a possessive quantifier",
            UnsupportedRegex::UnsupportedEscape => "an unsupported escape",
        }
    }
}

/// The character of `s` at `i`, if there is one.
pub open spec fn char_at(s: Seq<char>, i: int) -> Option<char> {
    if 0 <= i < s.len() {
        Some(s[i])
    } else {
        None
    }
}

/// The construct that a group is whose parenthesis opens `rest`.
pub open spec fn group_construct(rest: Seq<char>) -> Option<UnsupportedRegex> {
    if char_at(rest, 1) != Some('?') {
        None
    } else if char_at(rest, 2) == Some('=') || char_at(rest, 2) == Some('!') {
        Some(UnsupportedRegex::Lookaround)
    } else if char_at(rest, 2) == Some('>') || char_at(rest, 2) == Some('(') {
        Some(UnsupportedRegex::AtomicOrConditional)
    } else if char_at(rest, 2) == Some('<') && (char_at(rest, 3) == Some('=') || char_at(rest, 3)
        == Some('!')) {
        Some(UnsupportedRegex::Lookaround)
    } else {
        None
    }
}

/// How many backslashes stand directly before `index`.
pub open spec fn backslashes_before(s: Seq<char>, index: int) -> nat
    decreases index,
{
    if 0 < index <= s.len() && s[index - 1] == '\\' {
        1 + backslashes_before(s, index - 1)
    } else {
        0
    }
}

/// Whether the character at `index` is escaped: an odd number of backslashes
/// stands before it.
pub open spec fn escaped(s: Seq<char>, index: int) -> bool {
    backslashes_before(s, index) % 2 == 1
}

/// A character of the names that RE2 gives to Unicode classes.
pub open spec fn class_name_char(c: char) -> bool {
    'a' <= c <= 'z' || 'A' <= c <= 'Z' || c == '_'
}

/// Whether a character that no class name holds stands in `s` before any `}`.
pub open spec fn breaks_class_name(s: Seq<char>) -> bool
    decreases s.len(),
{
    s.len() > 0 && s[0] != '}' && (!class_name_char(s[0]) || breaks_class_name(s.drop_first()))
}

/// Whether `s`, which follows `\p{`, cannot name a Unicode class as RE2 writes it,
/// which is an optional `^`, a name, and `}`: the name is empty, or it holds a
/// character that no name holds. A name that is not closed is a malformed pattern,
/// not an unsupported construct.
pub open spec fn names_no_class(s: Seq<char>) -> bool {
    let name = if s.len() > 0 && s[0] == '^' {
        s.drop_first()
    } else {
        s
    };
    name.len() > 0 && (name[0] == '}' || breaks_class_name(name))
}

/// The construct that an escape is; `rest` is what follows its backslash.
pub open spec fn escape_construct(rest: Seq<char>, in_class: bool) -> Option<UnsupportedRegex> {
    if rest.len() == 0 {
        None
    } else if !in_class && '1' <= rest[0] <= '9' {
        Some(UnsupportedRegex::Backreference)
    } else if rest[0] == 'K' || rest[0] == 'G' || rest[0] == 'X' {
        Some(UnsupportedRegex::UnsupportedEscape)
    } else if (rest[0] == 'p' || rest[0] == 'P') && rest.len() > 1 && rest[1] == '{'
        && names_no_class(rest.skip(2)) {
        Some(UnsupportedRegex::UnsupportedEscape)
    } else {
        None
    }
}

/// Whether `\p{` or `\P{`, not escaped itself, stands directly before `k`.
pub open spec fn class_name_opens(s: Seq<char>, k: int) -> bool {
    &&& 3 <= k <= s.len()
    &&& s[k - 1] == '{'
    &&& s[k - 2] == 'p' || s[k - 2] == 'P'
    &&& s[k - 3] == '\\'
    &&& !escaped(s, k - 3)
}

/// Whether the name of a Unicode class starts at `k`.
pub open spec fn class_name_starts(s: Seq<char>, k: int) -> bool {
    class_name_opens(s, k) || (1 <= k <= s.len() && s[k - 1] == '^' && class_name_opens(s, k - 1))
}

/// Whether the characters directly before `k` are the name of a Unicode class.
pub open spec fn class_name_before(s: Seq<char>, k: int) -> bool
    decreases k,
{
    &&& 0 < k <= s.len()
    &&& class_name_char(s[k - 1])
    &&& class_name_starts(s, k - 1) || class_name_before(s, k - 1)
}

/// Whether the character at `i` closes the name of a Unicode class.
pub open spec fn closes_class_name(s: Seq<char>, i: int) -> bool {
    s[i] == '}' && class_name_before(s, i)
}

/// Whether a quantifier can end with the character at `i`: it is not escaped, and it
/// does not close the name of a Unicode class.
pub open spec fn ends_quantifier(s: Seq<char>, i: int) -> bool {
    &&& s[i] == '*' || s[i] == '+' || s[i] == '?' || s[i] == '}'
    &&& !escaped(s, i)
    &&& !closes_class_name(s, i)
}

/// The construct that the token at `i` is. `in_class` tells whether it stands
/// inside `[...]`.
pub open spec fn construct_at(s: Seq<char>, i: int, in_class: bool) -> Option<UnsupportedRegex> {
    if s[i] == '\\' {
        escape_construct(s.skip(i + 1), in_class)
    } else if s[i] == '(' && !in_class {
        group_construct(s.skip(i))
    } else if s[i] == '+' && !in_class && i > 0 && ends_quantifier(s, i - 1) {
        Some(UnsupportedRegex::PossessiveQuantifier)
    } else {
        None
    }
}

/// Where a class that opens at `i` has its first member that can close it: a `]`
/// directly after `[` or `[^` is literal.
pub open spec fn class_body(s: Seq<char>, i: int) -> int {
    let body = if char_at(s, i + 1) == Some('^') {
        i + 2
    } else {
        i + 1
    };
    if char_at(s, body) == Some(']') {
        body + 1
    } else {
        body
    }
}

/// Where the token after the one at `i` starts, and whether that is inside a class.
pub open spec fn next_token(s: Seq<char>, i: int, in_class: bool) -> (int, bool) {
    if s[i] == '\\' {
        (i + 2, in_class)
    } else if s[i] == '[' && !in_class {
        (class_body(s, i), true)
    } else if s[i] == ']' && in_class {
        (i + 1, false)
    } else {
        (i + 1, in_class)
    }
}

/// The first construct among the tokens of `s` from the one at `i` on.
pub open spec fn first_construct_from(s: Seq<char>, i: int, in_class: bool) -> Option<
    UnsupportedRegex,
>
    decreases s.len() + 1 - i,
{
    if i < 0 || i >= s.len() {
        None
    } else if construct_at(s, i, in_class) is Some {
        construct_at(s, i, in_class)
    } else {
        first_construct_from(s, next_token(s, i, in_class).0, next_token(s, i, in_class).1)
    }
}

/// The first construct in `s` that RE2 cannot compile.
pub open spec fn first_construct(s: Seq<char>) -> Option<UnsupportedRegex> {
    first_construct_from(s, 0, false)
}

/// The first RE2-incompatible construct in `pattern`, if any.
///
/// Walks the pattern as a regex rather than as text so that an *escaped*
/// construct is not mistaken for a real one: `\(?=` matches a literal paren and
/// is perfectly fine, and a character class like `[(?=]` is just three
/// characters.
pub fn unsupported_construct(pattern: &str) -> (r: Option<UnsupportedRegex>)
    ensures
        r == first_construct(pattern@),
{
    let chars = to_chars(pattern);
    let mut i: usize = 0;
    let mut in_class = false;
    while i < chars.len()
        invariant
            chars@ == pattern@,
            i <= chars@.len() + 1,
            first_construct(chars@) == first_construct_from(chars@, i as int, in_class),
        decreases chars.len() + 1 - i,
    {
        let c = chars[i];
        if c == '\\' {
            // A trailing backslash is a malformed pattern, not an unsupported
            // construct; that judgement is left to the provider.
            if i + 1 == chars.len() {
                assert(first_construct_from(chars@, i + 2, in_class) is None);
                return None;
            }
            let found = classify_escape(
                slice_subrange(chars.as_slice(), i + 1, chars.len()),
                in_class,
            );
            if found.is_some() {
                return found;
            }
            i = i + 2;
        } else if c == '[' && !in_class {
            in_class = true;
            i = i + 1;
            if i < chars.len() && chars[i] == '^' {
                i = i + 1;
            }
            if i < chars.len() && chars[i] == ']' {
                i = i + 1;
            }
        } else if c == ']' && in_class {
            in_class = false;
            i = i + 1;
        } else if c == '(' && !in_class {
            let found = classify_group(slice_subrange(chars.as_slice(), i, chars.len()));
            if found.is_some() {
                return found;
            }
            i = i + 1;
        } else if c == '+' && !in_class && i > 0 {
            if is_quantifier_end(chars.as_slice(), i - 1) {
                return Some(UnsupportedRegex::PossessiveQuantifier);
            }
            i = i + 1;
        } else {
            i = i + 1;
        }
    }
    None
}

/// Classify an escape; `rest` is what follows its backslash.
fn classify_escape(rest: &[char], in_class: bool) -> (r: Option<UnsupportedRegex>)
    ensures
        r == escape_construct(rest@, in_class),
{
    if rest.len() == 0 {
        return None;
    }
    let next = rest[0];
    // A backreference outside a class needs backtracking. `\0` is an octal
    // escape, not a backreference.
    if !in_class && '1' <= next && next <= '9' {
        return Some(UnsupportedRegex::Backreference);
    }
    // `\K` (reset match start), `\G` (previous match end) and `\X` (grapheme
    // cluster) are PCRE-only.
    if next == 'K' || next == 'G' || next == 'X' {
        return Some(UnsupportedRegex::UnsupportedEscape);
    }
    if (next == 'p' || next == 'P') && rest.len() > 1 && rest[1] == '{' && is_no_class_name(
        slice_subrange(rest, 2, rest.len()),
    ) {
        return Some(UnsupportedRegex::UnsupportedEscape);
    }
    None
}

/// Whether `s`, which follows `\p{`, cannot name a Unicode class as RE2 writes it.
fn is_no_class_name(s: &[char]) -> (r: bool)
    ensures
        r == names_no_class(s@),
{
    let start: usize = if s.len() > 0 && s[0] == '^' {
        1
    } else {
        0
    };
    let ghost name = s@.skip(start as int);
    assert(name == if s@.len() > 0 && s@[0] == '^' {
        s@.drop_first()
    } else {
        s@
    });
    if start == s.len() {
        return false;
    }
    if s[start] == '}' {
        return true;
    }
    let mut i: usize = start;
    while i < s.len() && s[i] != '}'
        invariant
            start <= i <= s@.len(),
            names_no_class(s@) == breaks_class_name(name),
            breaks_class_name(name) == breaks_class_name(s@.skip(i as int)),
        decreases s.len() - i,
    {
        let c = s[i];
        assert(s@.skip(i as int).drop_first() == s@.skip(i + 1));
        if !(('a' <= c && c <= 'z') || ('A' <= c && c <= 'Z') || c == '_') {
            return true;
        }
        i = i + 1;
    }
    false
}

/// Classify a group opening at the start of `rest` (which begins with `(`).
pub fn classify_group(rest: &[char]) -> (r: Option<UnsupportedRegex>)
    ensures
        r == group_construct(rest@),
{
    if rest.len() < 3 || rest[1] != '?' {
        return None;
    }
    let kind = rest[2];
    if kind == '=' || kind == '!' {
        Some(UnsupportedRegex::Lookaround)
    } else if kind == '>' || kind == '(' {
        Some(UnsupportedRegex::AtomicOrConditional)
    } else if kind == '<' && rest.len() > 3 && (rest[3] == '=' || rest[3] == '!') {
        // A bare `(?<name>` is a named capture group, which RE2 accepts.
        Some(UnsupportedRegex::Lookaround)
    } else {
        None
    }
}

/// Whether the character at `index` is itself escaped, counting the backslash
/// run before it so that `\\` (an escaped backslash) does not read as an escape.
pub fn is_escaped(chars: &[char], index: usize) -> (r: bool)
    requires
        index <= chars@.len(),
    ensures
        r == escaped(chars@, index as int),
{
    let mut odd = false;
    let mut cursor: usize = index;
    while cursor > 0 && chars[cursor - 1] == '\\'
        invariant
            cursor <= index <= chars@.len(),
            backslashes_before(chars@, index as int) == (index - cursor) + backslashes_before(
                chars@,
                cursor as int,
            ),
            odd == ((index - cursor) % 2 == 1),
        decreases cursor,
    {
        odd = !odd;
        cursor = cursor - 1;
    }
    odd
}

/// Whether a quantifier can end with the character at `index`.
fn is_quantifier_end(chars: &[char], index: usize) -> (r: bool)
    requires
        index < chars@.len(),
    ensures
        r == ends_quantifier(chars@, index as int),
{
    let c = chars[index];
    (c == '*' || c == '+' || c == '?' || (c == '}' && !is_after_class_name(chars, index)))
        && !is_escaped(chars, index)
}

/// Whether the characters directly before `index` are the name of a Unicode class.
fn is_after_class_name(chars: &[char], index: usize) -> (r: bool)
    requires
        index <= chars@.len(),
    ensures
        r == class_name_before(chars@, index as int),
{
    let mut cursor: usize = index;
    while cursor > 0
        invariant
            cursor <= index <= chars@.len(),
            class_name_before(chars@, index as int) == class_name_before(chars@, cursor as int),
        decreases cursor,
    {
        let c = chars[cursor - 1];
        if !(('a' <= c && c <= 'z') || ('A' <= c && c <= 'Z') || c == '_') {
            return false;
        }
        cursor = cursor - 1;
        if is_class_name_start(chars, cursor) {
            return true;
        }
    }
    false
}

/// Whether the name of a Unicode class starts at `index`.
fn is_class_name_start(chars: &[char], index: usize) -> (r: bool)
    requires
        index <= chars@.len(),
    ensures
        r == class_name_starts(chars@, index as int),
{
    let mut k: usize = index;
    if k > 0 && chars[k - 1] == '^' {
        k = k - 1;
    }
    k >= 3 && chars[k - 1] == '{' && (chars[k - 2] == 'p' || chars[k - 2] == 'P') && chars[k - 3]
        == '\\' && !is_escaped(chars, k - 3)
}

/// Where the token number `n` of `s` starts, and whether that is inside a class.
pub open spec fn token(s: Seq<char>, n: nat) -> (int, bool)
    decreases n,
{
    if n == 0 {
        (0, false)
    } else {
        let (i, in_class) = token(s, (n - 1) as nat);
        if i >= s.len() {
            (i, in_class)
        } else {
            next_token(s, i, in_class)
        }
    }
}

/// The construct that the token number `n` of `s` is.
pub open spec fn token_construct(s: Seq<char>, n: nat) -> Option<UnsupportedRegex> {
    let (i, in_class) = token(s, n);
    if i < s.len() {
        construct_at(s, i, in_class)
    } else {
        None
    }
}

proof fn lemma_token_advances(s: Seq<char>, i: int, in_class: bool)
    requires
        0 <= i < s.len(),
    ensures
        i < next_token(s, i, in_class).0 <= s.len() + 1,
{
}

proof fn lemma_tokens_from(s: Seq<char>, n: nat)
    ensures
        0 <= token(s, n).0 <= s.len() + 1,
        (forall|m: nat| m < n ==> token_construct(s, m) is None) ==> first_construct(s)
            == first_construct_from(s, token(s, n).0, token(s, n).1),
        token(s, n).0 < s.len() ==> token(s, n).0 >= n,
    decreases n,
{
    if n > 0 {
        let m = (n - 1) as nat;
        lemma_tokens_from(s, m);
        if token(s, m).0 < s.len() {
            lemma_token_advances(s, token(s, m).0, token(s, m).1);
        }
        assert(token_construct(s, m) is None || !(forall|k: nat|
            k < n ==> token_construct(s, k) is None));
    }
}

/// What the check reports is the construct of the first token that is one, and
/// it reports nothing exactly when no token is one.
pub proof fn reports_the_first_construct(s: Seq<char>, n: nat)
    ensures
        token_construct(s, n) is Some && (forall|m: nat|
            m < n ==> token_construct(s, m) is None) ==> first_construct(s) == token_construct(
            s,
            n,
        ),
        first_construct(s) is None <==> (forall|m: nat| token_construct(s, m) is None),
{
    lemma_tokens_from(s, n);
    if forall|m: nat| token_construct(s, m) is None {
        lemma_tokens_from(s, (s.len() + 2) as nat);
    } else {
        let found = choose|m: nat| token_construct(s, m) is Some;
        let least = lemma_least_construct(s, found);
        lemma_tokens_from(s, least);
    }
}

proof fn lemma_least_construct(s: Seq<char>, n: nat) -> (least: nat)
    requires
        token_construct(s, n) is Some,
    ensures
        token_construct(s, least) is Some,
        forall|m: nat| m < least ==> token_construct(s, m) is None,
    decreases n,
{
    if exists|m: nat| m < n && token_construct(s, m) is Some {
        let m = choose|m: nat| m < n && token_construct(s, m) is Some;
        lemma_least_construct(s, m)
    } else {
        n
    }
}

/// Counting backslashes agrees with the walk: a token never starts at an escaped
/// character, and the character that an escape takes with it is escaped.
pub proof fn escapes_agree_with_the_walk(s: Seq<char>, n: nat)
    ensures
        !escaped(s, token(s, n).0),
        token(s, n).0 + 1 < s.len() && s[token(s, n).0] == '\\' ==> escaped(s, token(s, n).0 + 1),
    decreases n,
{
    lemma_tokens_from(s, n);
    if n > 0 {
        let m = (n - 1) as nat;
        escapes_agree_with_the_walk(s, m);
        lemma_tokens_from(s, m);
        let i = token(s, m).0;
        if i < s.len() {
            let j = token(s, n).0;
            if s[i] == '\\' {
                if j <= s.len() {
                    assert(backslashes_before(s, i + 1) == 1 + backslashes_before(s, i));
                    assert(backslashes_before(s, j) == 0 || backslashes_before(s, j) == 1
                        + backslashes_before(s, i + 1));
                }
            } else {
                assert(s[j - 1] != '\\');
            }
        }
    }
    let here = token(s, n).0;
    if here + 1 < s.len() && s[here] == '\\' {
        assert(backslashes_before(s, here + 1) == 1 + backslashes_before(s, here));
    }
}

proof fn lemma_shifted_backslashes(prefix: Seq<char>, rest: Seq<char>, k: int)
    requires
        0 <= k <= rest.len(),
        backslashes_before(prefix, prefix.len() as int) % 2 == 0,
    ensures
        escaped(prefix + rest, prefix.len() + k) == escaped(rest, k),
    decreases k,
{
    let s = prefix + rest;
    let n = prefix.len() as int;
    if k == 0 {
        lemma_backslashes_in_prefix(prefix, rest, n);
    } else if rest[k - 1] == '\\' {
        assert(s[n + k - 1] == '\\');
        lemma_shifted_backslashes(prefix, rest, k - 1);
        assert(backslashes_before(s, n + k) == 1 + backslashes_before(s, n + k - 1));
        assert(backslashes_before(rest, k) == 1 + backslashes_before(rest, k - 1));
    } else {
        assert(s[n + k - 1] == rest[k - 1]);
    }
}

proof fn lemma_backslashes_in_prefix(prefix: Seq<char>, rest: Seq<char>, k: int)
    requires
        0 <= k <= prefix.len(),
    ensures
        backslashes_before(prefix + rest, k) == backslashes_before(prefix, k),
    decreases k,
{
    if k > 0 {
        assert((prefix + rest)[k - 1] == prefix[k - 1]);
        lemma_backslashes_in_prefix(prefix, rest, k - 1);
    }
}

proof fn lemma_class_names_in_prefix(prefix: Seq<char>, rest: Seq<char>, k: int)
    requires
        0 <= k <= prefix.len(),
    ensures
        class_name_starts(prefix + rest, k) == class_name_starts(prefix, k),
        class_name_before(prefix + rest, k) == class_name_before(prefix, k),
    decreases k,
{
    let s = prefix + rest;
    assert(forall|j: int| 0 <= j < prefix.len() ==> s[j] == prefix[j]);
    if k >= 3 {
        lemma_backslashes_in_prefix(prefix, rest, k - 3);
    }
    if k >= 4 {
        lemma_backslashes_in_prefix(prefix, rest, k - 4);
    }
    if k > 0 {
        lemma_class_names_in_prefix(prefix, rest, k - 1);
    }
}

/// Whether no class name goes on from `prefix` into `rest`.
spec fn parts_class_names(prefix: Seq<char>, rest: Seq<char>) -> bool {
    let n = prefix.len() as int;
    &&& n > 0
    &&& backslashes_before(prefix, n) % 2 == 0
    &&& !class_name_starts(prefix, n)
    &&& !class_name_before(prefix, n)
    &&& !((prefix.last() == 'p' || prefix.last() == 'P') && rest.len() > 0 && rest[0] == '{')
}

proof fn lemma_shifted_opening(prefix: Seq<char>, rest: Seq<char>, k: int)
    requires
        0 <= k <= rest.len(),
        parts_class_names(prefix, rest),
    ensures
        class_name_opens(prefix + rest, prefix.len() + k) == class_name_opens(rest, k),
{
    let s = prefix + rest;
    let n = prefix.len() as int;
    assert(forall|j: int| 0 <= j < rest.len() ==> s[n + j] == rest[j]);
    assert(s[n - 1] == prefix.last());
    if k == 0 {
        lemma_class_names_in_prefix(prefix, rest, n);
        assert(forall|j: int| 0 <= j < n ==> s[j] == prefix[j]);
        if n >= 3 {
            lemma_backslashes_in_prefix(prefix, rest, n - 3);
        }
    } else if k == 2 {
        lemma_backslashes_in_prefix(prefix, rest, n - 1);
    } else if k >= 3 {
        lemma_shifted_backslashes(prefix, rest, k - 3);
    }
}

proof fn lemma_shifted_class_name(prefix: Seq<char>, rest: Seq<char>, k: int)
    requires
        0 <= k <= rest.len(),
        parts_class_names(prefix, rest),
    ensures
        class_name_starts(prefix + rest, prefix.len() + k) == class_name_starts(rest, k),
        class_name_before(prefix + rest, prefix.len() + k) == class_name_before(rest, k),
    decreases k,
{
    let s = prefix + rest;
    let n = prefix.len() as int;
    lemma_shifted_opening(prefix, rest, k);
    if k == 0 {
        lemma_class_names_in_prefix(prefix, rest, n);
    } else {
        assert(s[n + k - 1] == rest[k - 1]);
        lemma_shifted_opening(prefix, rest, k - 1);
        lemma_shifted_class_name(prefix, rest, k - 1);
    }
}

/// Text before a pattern that is made of whole tokens, and that no quantifier
/// ends, has no part in what the rest is.
proof fn lemma_shifted_walk(prefix: Seq<char>, rest: Seq<char>, i: int, in_class: bool)
    requires
        0 <= i,
        parts_class_names(prefix, rest),
        !ends_quantifier(prefix, prefix.len() - 1),
    ensures
        first_construct_from(prefix + rest, prefix.len() + i, in_class) == first_construct_from(
            rest,
            i,
            in_class,
        ),
    decreases rest.len() + 1 - i,
{
    let s = prefix + rest;
    let n = prefix.len() as int;
    if i < rest.len() {
        assert(s[n + i] == rest[i]);
        assert(i + 1 < rest.len() ==> s[n + i + 1] == rest[i + 1]);
        assert(s.skip(n + i) =~= rest.skip(i));
        assert(s.skip(n + i + 1) =~= rest.skip(i + 1));
        if i > 0 {
            assert(s[n + i - 1] == rest[i - 1]);
            lemma_shifted_backslashes(prefix, rest, i - 1);
            lemma_shifted_class_name(prefix, rest, i - 1);
        } else {
            lemma_backslashes_in_prefix(prefix, rest, n - 1);
            lemma_class_names_in_prefix(prefix, rest, n - 1);
            assert(s[n - 1] == prefix.last());
        }
        assert(construct_at(s, n + i, in_class) == construct_at(rest, i, in_class));
        assert(char_at(s, n + i + 1) == char_at(rest, i + 1));
        assert(char_at(s, n + i + 2) == char_at(rest, i + 2));
        lemma_token_advances(rest, i, in_class);
        let (j, class_after) = next_token(rest, i, in_class);
        assert(next_token(s, n + i, in_class) == (n + j, class_after));
        lemma_shifted_walk(prefix, rest, j, class_after);
    }
}

/// An escaped character is literal text, whatever it is, unless the escape itself
/// is a construct or opens the name of a class: it has no part in what the rest of
/// the pattern is.
pub proof fn escaped_characters_are_literal(c: char, rest: Seq<char>)
    requires
        escape_construct(seq![c] + rest, false) is None,
        !((c == 'p' || c == 'P') && rest.len() > 0 && rest[0] == '{'),
    ensures
        first_construct(seq!['\\', c] + rest) == first_construct(rest),
{
    assert((seq!['\\', c] + rest).skip(1) =~= seq![c] + rest);
    let prefix = seq!['\\', c];
    assert(backslashes_before(prefix, 0) == 0);
    assert(backslashes_before(prefix, 1) == 1);
    assert(escaped(prefix, 1));
    reveal_with_fuel(class_name_before, 3);
    assert(!class_name_before(prefix, 2));
    lemma_shifted_walk(prefix, rest, 0, false);
}

proof fn lemma_inside_class_name(s: Seq<char>, i: int, end: int)
    requires
        3 <= i <= end < s.len(),
        s[end] == '}',
        forall|k: int| i <= k < end ==> class_name_char(#[trigger] s[k]),
    ensures
        first_construct_from(s, i, false) == first_construct_from(s, end + 1, false),
    decreases end - i,
{
    if i < end {
        assert(class_name_char(s[i]));
        lemma_inside_class_name(s, i + 1, end);
    }
}

proof fn lemma_name_is_before(s: Seq<char>, start: int, k: int)
    requires
        0 <= start < k <= s.len(),
        class_name_starts(s, start),
        forall|j: int| start <= j < k ==> class_name_char(#[trigger] s[j]),
    ensures
        class_name_before(s, k),
    decreases k,
{
    assert(class_name_char(s[k - 1]));
    if start < k - 1 {
        lemma_name_is_before(s, start, k - 1);
    }
}

proof fn lemma_name_does_not_break(name: Seq<char>, more: Seq<char>)
    requires
        forall|k: int| 0 <= k < name.len() ==> class_name_char(#[trigger] name[k]),
    ensures
        !breaks_class_name(name + seq!['}'] + more),
    decreases name.len(),
{
    let s = name + seq!['}'] + more;
    if name.len() > 0 {
        assert(class_name_char(name[0]));
        assert(s.drop_first() =~= name.drop_first() + seq!['}'] + more);
        assert forall|k: int| 0 <= k < name.len() - 1 implies class_name_char(
            #[trigger] name.drop_first()[k],
        ) by {
            assert(class_name_char(name[k + 1]));
        }
        lemma_name_does_not_break(name.drop_first(), more);
    }
}

/// A Unicode class that is written as RE2 writes it is one token: it has no part in
/// what the rest of the pattern is, not even in whether a `+` behind it is
/// possessive.
pub proof fn class_names_are_one_token(c: char, negated: bool, name: Seq<char>, rest: Seq<char>)
    requires
        c == 'p' || c == 'P',
        name.len() > 0,
        forall|k: int| 0 <= k < name.len() ==> class_name_char(#[trigger] name[k]),
    ensures
        ({
            let opening = if negated {
                seq!['\\', c, '{', '^']
            } else {
                seq!['\\', c, '{']
            };
            first_construct(opening + name + seq!['}'] + rest) == first_construct(rest)
        }),
{
    let opening = if negated {
        seq!['\\', c, '{', '^']
    } else {
        seq!['\\', c, '{']
    };
    let prefix = opening + name + seq!['}'];
    let s = prefix + rest;
    let start = opening.len() as int;
    let end = start + name.len();
    assert(s[0] == '\\' && s[1] == c && s[2] == '{');
    assert(negated ==> s[3] == '^');
    assert(s[end] == '}' && prefix[end] == '}');
    assert forall|k: int| start <= k < end implies class_name_char(#[trigger] s[k]) by {
        assert(class_name_char(name[k - start]));
    }
    assert forall|k: int| start <= k < end implies class_name_char(#[trigger] prefix[k]) by {
        assert(class_name_char(name[k - start]));
    }
    // The escape is no construct.
    assert(class_name_char(s[start]));
    let body = s.skip(1).skip(2);
    let named = name + seq!['}'] + rest;
    assert(body =~= if negated {
        seq!['^'] + named
    } else {
        named
    });
    assert(negated ==> body.drop_first() =~= named);
    assert(named[0] == name[0] && class_name_char(name[0]));
    lemma_name_does_not_break(name, rest);
    assert(construct_at(s, 0, false) is None);
    // Nor is anything in the name.
    reveal_with_fuel(first_construct_from, 4);
    lemma_inside_class_name(s, start, end);
    assert(first_construct(s) == first_construct_from(s, end + 1, false));
    // The name is closed in front of the rest.
    assert(backslashes_before(prefix, 0) == 0);
    assert(prefix[0] == '\\' && prefix[1] == c && prefix[2] == '{');
    assert(negated ==> prefix[3] == '^');
    assert(class_name_opens(prefix, 3));
    assert(class_name_starts(prefix, start));
    lemma_name_is_before(prefix, start, end);
    assert(prefix.last() == '}');
    assert(!class_name_starts(prefix, prefix.len() as int));
    lemma_shifted_walk(prefix, rest, 0, false);
}

proof fn lemma_inside_class(s: Seq<char>, i: int, end: int)
    requires
        0 <= i <= end < s.len(),
        s[end] == ']',
        forall|k: int| i <= k < end ==> s[k] != ']' && s[k] != '\\',
    ensures
        first_construct_from(s, i, true) == first_construct_from(s, end + 1, false),
    decreases end - i,
{
    if i < end {
        lemma_inside_class(s, i + 1, end);
    }
}

/// A character class is literal text, whatever its members are: it has no part
/// in what the rest of the pattern is.
pub proof fn classes_are_literal(members: Seq<char>, rest: Seq<char>)
    requires
        members.len() > 0,
        members[0] == '^' ==> members.len() > 1,
        !members.contains(']'),
        !members.contains('\\'),
    ensures
        first_construct(seq!['['] + members + seq![']'] + rest) == first_construct(rest),
{
    let prefix = seq!['['] + members + seq![']'];
    let s = prefix + rest;
    let end = members.len() as int + 1;
    assert(prefix + rest == seq!['['] + members + seq![']'] + rest);
    assert(s[0] == '[');
    assert(s[end] == ']');
    assert forall|k: int| 1 <= k < end implies s[k] != ']' && s[k] != '\\' by {
        assert(s[k] == members[k - 1]);
        assert(members.contains(members[k - 1]));
    }
    assert(construct_at(s, 0, false) is None);
    assert(next_token(s, 0, false) == (class_body(s, 0), true));
    lemma_inside_class(s, class_body(s, 0), end);
    assert(prefix.last() == ']');
    assert(backslashes_before(prefix, prefix.len() as int) == 0);
    lemma_shifted_walk(prefix, rest, 0, false);
}

proof fn lemma_broken_names_stay_broken(s: Seq<char>, more: Seq<char>)
    requires
        breaks_class_name(s),
    ensures
        breaks_class_name(s + more),
    decreases s.len(),
{
    if class_name_char(s[0]) {
        lemma_broken_names_stay_broken(s.drop_first(), more);
        assert((s + more).drop_first() =~= s.drop_first() + more);
    }
}

proof fn lemma_escape_appended(rest: Seq<char>, more: Seq<char>, in_class: bool)
    requires
        escape_construct(rest, in_class) is Some,
    ensures
        escape_construct(rest + more, in_class) == escape_construct(rest, in_class),
{
    if rest.len() > 1 {
        let s = rest.skip(2);
        assert((rest + more).skip(2) =~= s + more);
        if names_no_class(s) {
            let name = if s[0] == '^' {
                s.drop_first()
            } else {
                s
            };
            assert((s + more).drop_first() =~= s.drop_first() + more);
            if breaks_class_name(name) {
                lemma_broken_names_stay_broken(name, more);
            }
        }
    }
}

/// A character that a construct can start with.
spec fn starts_construct(c: char) -> bool {
    c == '\\' || c == '(' || c == '+'
}

/// Where a construct that is reported stands.
proof fn lemma_construct_position(p: Seq<char>, i: int, in_class: bool) -> (k: int)
    requires
        0 <= i,
        first_construct_from(p, i, in_class) is Some,
    ensures
        i <= k < p.len(),
        starts_construct(p[k]),
    decreases p.len() + 1 - i,
{
    if construct_at(p, i, in_class) is Some {
        i
    } else {
        lemma_token_advances(p, i, in_class);
        let (j, class_after) = next_token(p, i, in_class);
        lemma_construct_position(p, j, class_after)
    }
}

proof fn lemma_closed_names_stay_closed(s: Seq<char>, more: Seq<char>, k: int)
    requires
        0 <= k < s.len(),
        starts_construct(s[k]),
        !breaks_class_name(s),
    ensures
        !breaks_class_name(s + more),
    decreases s.len(),
{
    if s[0] != '}' {
        assert(s.drop_first()[k - 1] == s[k]);
        lemma_closed_names_stay_closed(s.drop_first(), more, k - 1);
        assert((s + more).drop_first() =~= s.drop_first() + more);
    }
}

/// A token that is no construct does not become one by text behind a later one.
proof fn lemma_literal_appended(p: Seq<char>, s: Seq<char>, i: int, in_class: bool, k: int)
    requires
        0 <= i < p.len(),
        construct_at(p, i, in_class) is None,
        next_token(p, i, in_class).0 <= k < p.len(),
        starts_construct(p[k]),
    ensures
        construct_at(p + s, i, in_class) is None,
{
    let whole = p + s;
    assert(whole.skip(i) =~= p.skip(i) + s);
    assert(whole.skip(i + 1) =~= p.skip(i + 1) + s);
    if i > 0 {
        assert(whole[i - 1] == p[i - 1]);
        lemma_backslashes_in_prefix(p, s, i - 1);
        lemma_class_names_in_prefix(p, s, i - 1);
    }
    if p[i] == '\\' {
        let rest = p.skip(i + 1);
        assert(rest[0] == p[i + 1] && rest[1] == p[i + 2]);
        if rest[1] == '{' {
            let body = rest.skip(2);
            assert((rest + s).skip(2) =~= body + s);
            assert(body[k - i - 3] == p[k]);
            assert((body + s).drop_first() =~= body.drop_first() + s);
            if body[0] == '^' {
                assert(body.drop_first()[k - i - 4] == p[k]);
                if !breaks_class_name(body.drop_first()) {
                    lemma_closed_names_stay_closed(body.drop_first(), s, k - i - 4);
                }
            } else if !breaks_class_name(body) {
                lemma_closed_names_stay_closed(body, s, k - i - 3);
            }
        }
    } else if p[i] == '(' && !in_class {
        let rest = p.skip(i);
        assert(rest[k - i] == p[k]);
        assert(forall|n: int| 0 <= n < rest.len() ==> (rest + s)[n] == rest[n]);
    }
}

proof fn lemma_walk_appended(p: Seq<char>, s: Seq<char>, i: int, in_class: bool)
    requires
        0 <= i,
        first_construct_from(p, i, in_class) is Some,
    ensures
        first_construct_from(p + s, i, in_class) == first_construct_from(p, i, in_class),
    decreases p.len() + 1 - i,
{
    let whole = p + s;
    assert(whole[i] == p[i]);
    if construct_at(p, i, in_class) is Some {
        assert(whole.skip(i) =~= p.skip(i) + s);
        assert(whole.skip(i + 1) =~= p.skip(i + 1) + s);
        if i > 0 {
            assert(whole[i - 1] == p[i - 1]);
            lemma_backslashes_in_prefix(p, s, i - 1);
            lemma_class_names_in_prefix(p, s, i - 1);
        }
        if p[i] == '\\' {
            lemma_escape_appended(p.skip(i + 1), s, in_class);
        }
    } else {
        lemma_token_advances(p, i, in_class);
        let (j, class_after) = next_token(p, i, in_class);
        let k = lemma_construct_position(p, j, class_after);
        lemma_literal_appended(p, s, i, in_class, k);
        assert(i + 1 < p.len() ==> whole[i + 1] == p[i + 1]);
        assert(i + 2 < p.len() ==> whole[i + 2] == p[i + 2]);
        assert(next_token(whole, i, in_class) == (j, class_after));
        lemma_walk_appended(p, s, j, class_after);
    }
}

/// Text appended to a reported pattern changes nothing: what is reported is the
/// leftmost construct.
pub proof fn appended_text_changes_nothing(p: Seq<char>, s: Seq<char>)
    requires
        first_construct(p) is Some,
    ensures
        first_construct(p + s) == first_construct(p),
{
    lemma_walk_appended(p, s, 0, false);
}

/// A pattern without backslashes, parentheses and `+` is left alone.
pub proof fn plain_patterns_are_left_alone(s: Seq<char>)
    requires
        !s.contains('\\'),
        !s.contains('('),
        !s.contains('+'),
    ensures
        first_construct(s) is None,
{
    assert forall|m: nat| token_construct(s, m) is None by {
        let i = token(s, m).0;
        lemma_tokens_from(s, m);
        if i < s.len() {
            assert(s.contains(s[i]));
        }
    }
    reports_the_first_construct(s, 0);
}

/// Tokens are told by their characters: a backslash takes the next character with
/// it, `[` opens a class together with a `^` and a `]` behind it, `]` closes a class,
/// and any other character is a token of its own.
pub proof fn tokens_are_told_by_their_characters(s: Seq<char>, n: nat)
    ensures
        token(s, 0) == (0int, false),
        ({
            let (i, in_class) = token(s, n);
            let next = token(s, n + 1);
            i < s.len() ==> {
                &&& 0 <= i
                &&& s[i] == '\\' ==> next == (i + 2, in_class)
                &&& s[i] == '[' && !in_class ==> {
                    &&& next.1
                    &&& i + 1 == s.len() ==> next.0 == i + 1
                    &&& i + 1 < s.len() && s[i + 1] != '^' && s[i + 1] != ']' ==> next.0 == i + 1
                    &&& i + 1 < s.len() && s[i + 1] == ']' ==> next.0 == i + 2
                    &&& i + 1 < s.len() && s[i + 1] == '^' ==> {
                        &&& i + 2 < s.len() && s[i + 2] == ']' ==> next.0 == i + 3
                        &&& i + 2 == s.len() || s[i + 2] != ']' ==> next.0 == i + 2
                    }
                }
                &&& s[i] == ']' && in_class ==> next == (i + 1, false)
                &&& s[i] != '\\' && (s[i] != '[' || in_class) && (s[i] != ']' || !in_class)
                    ==> next == (i + 1, in_class)
            }
        }),
        token(s, n).0 >= s.len() ==> token(s, n + 1) == token(s, n),
{
    lemma_tokens_from(s, n);
}

/// Where the name starts behind the `\p{` or `\P{` that stands at `i`, with an optional
/// `^` between.
pub open spec fn name_start(s: Seq<char>, i: int) -> int {
    if i + 3 < s.len() && s[i + 3] == '^' {
        i + 4
    } else {
        i + 3
    }
}

/// Whether, behind `\p{` or `\P{` and an optional `^`, the name that starts at `f`
/// ends at `e`, which is the first position that no letter and no `_` takes.
pub open spec fn name_ends(s: Seq<char>, f: int, e: int) -> bool {
    &&& 0 <= f <= e < s.len()
    &&& forall|k: int|
        f <= k < e ==> ('a' <= #[trigger] s[k] <= 'z' || 'A' <= s[k] <= 'Z' || s[k] == '_')
    &&& !('a' <= s[e] <= 'z' || 'A' <= s[e] <= 'Z' || s[e] == '_')
}

proof fn lemma_break_position(s: Seq<char>, f: int, e: int)
    requires
        name_ends(s, f, e),
    ensures
        breaks_class_name(s.skip(f)) == (s[e] != '}'),
    decreases e - f,
{
    let t = s.skip(f);
    assert(t[0] == s[f]);
    if f < e {
        assert(class_name_char(s[f]));
        assert(name_ends(s, f + 1, e));
        lemma_break_position(s, f + 1, e);
        assert(t.drop_first() =~= s.skip(f + 1));
    }
}

proof fn lemma_no_break(s: Seq<char>, f: int)
    requires
        0 <= f <= s.len(),
        forall|e: int| !#[trigger] name_ends(s, f, e),
    ensures
        !breaks_class_name(s.skip(f)),
        f < s.len() ==> s[f] != '}',
    decreases s.len() - f,
{
    if f < s.len() {
        assert(!name_ends(s, f, f));
        assert forall|e: int| !#[trigger] name_ends(s, f + 1, e) by {
            if name_ends(s, f + 1, e) {
                assert forall|k: int| f <= k < e implies ('a' <= #[trigger] s[k] <= 'z' || 'A'
                    <= s[k] <= 'Z' || s[k] == '_') by {
                    assert(f + 1 <= k ==> ('a' <= s[k] <= 'z' || 'A' <= s[k] <= 'Z' || s[k]
                        == '_'));
                }
                assert(name_ends(s, f, e));
            }
        }
        lemma_no_break(s, f + 1);
        assert(s.skip(f).drop_first() =~= s.skip(f + 1));
        assert(s.skip(f)[0] == s[f]);
    }
}

/// Each kind of construct is told by its characters alone: by those of its token,
/// and for a possessive quantifier by the quantifier that ends before it. What else
/// stands before it makes no difference.
pub proof fn constructs_are_told_by_their_characters(s: Seq<char>, n: nat)
    requires
        token(s, n).0 < s.len(),
    ensures
        ({
            let (i, in_class) = token(s, n);
            let kind = token_construct(s, n);
            let f = name_start(s, i);
            &&& kind == Some(UnsupportedRegex::Backreference) <==> s[i] == '\\' && !in_class && i
                + 1 < s.len() && '1' <= s[i + 1] <= '9'
            &&& kind == Some(UnsupportedRegex::UnsupportedEscape) <==> s[i] == '\\' && i + 1
                < s.len() && (s[i + 1] == 'K' || s[i + 1] == 'G' || s[i + 1] == 'X' || ((s[i + 1]
                == 'p' || s[i + 1] == 'P') && i + 2 < s.len() && s[i + 2] == '{' && exists|e: int| #[trigger]
                name_ends(s, f, e) && (s[e] != '}' || e == f)))
            &&& kind == Some(UnsupportedRegex::Lookaround) <==> s[i] == '(' && !in_class && i + 2
                < s.len() && s[i + 1] == '?' && (s[i + 2] == '=' || s[i + 2] == '!' || (s[i + 2]
                == '<' && i + 3 < s.len() && (s[i + 3] == '=' || s[i + 3] == '!')))
            &&& kind == Some(UnsupportedRegex::AtomicOrConditional) <==> s[i] == '(' && !in_class
                && i + 2 < s.len() && s[i + 1] == '?' && (s[i + 2] == '>' || s[i + 2] == '(')
            &&& kind == Some(UnsupportedRegex::PossessiveQuantifier) <==> s[i] == '+' && !in_class
                && i > 0 && (s[i - 1] == '*' || s[i - 1] == '+' || s[i - 1] == '?' || s[i - 1]
                == '}') && !escaped(s, i - 1) && !closes_class_name(s, i - 1)
        }),
{
    lemma_tokens_from(s, n);
    let (i, in_class) = token(s, n);
    let rest = s.skip(i + 1);
    let group = s.skip(i);
    assert(i + 1 < s.len() ==> group[1] == s[i + 1] && rest[0] == s[i + 1]);
    assert(i + 2 < s.len() ==> group[2] == s[i + 2] && rest[1] == s[i + 2]);
    assert(i + 3 < s.len() ==> group[3] == s[i + 3]);
    if i + 2 < s.len() && s[i + 2] == '{' {
        let body = rest.skip(2);
        assert(body =~= s.skip(i + 3));
        let f = name_start(s, i);
        assert(i + 3 < s.len() ==> body[0] == s[i + 3]);
        assert(f == i + 4 ==> body.drop_first() =~= s.skip(f));
        let name = s.skip(f);
        assert(f < s.len() ==> name[0] == s[f]);
        assert(names_no_class(body) == (name.len() > 0 && (name[0] == '}' || breaks_class_name(
            name,
        ))));
        if exists|e: int| name_ends(s, f, e) {
            let e = choose|e: int| name_ends(s, f, e);
            lemma_break_position(s, f, e);
            assert forall|d: int| #[trigger] name_ends(s, f, d) implies d == e by {
                if d < e {
                    assert('a' <= s[d] <= 'z' || 'A' <= s[d] <= 'Z' || s[d] == '_');
                } else if e < d {
                    assert('a' <= s[e] <= 'z' || 'A' <= s[e] <= 'Z' || s[e] == '_');
                }
            }
            if s[f] == '}' {
                assert(name_ends(s, f, f));
            }
            assert(names_no_class(body) == (s[e] != '}' || e == f));
        } else {
            lemma_no_break(s, f);
        }
    }
}

/// A character is escaped exactly where the run of backslashes before it is odd.
pub proof fn escapes_are_odd_runs(s: Seq<char>, i: int, run: int)
    requires
        0 <= run <= i <= s.len(),
        forall|j: int| i - run <= j < i ==> #[trigger] s[j] == '\\',
        i == run || s[i - run - 1] != '\\',
    ensures
        escaped(s, i) <==> run % 2 == 1,
{
    lemma_run_length(s, i, run);
}

proof fn lemma_run_length(s: Seq<char>, i: int, run: int)
    requires
        0 <= run <= i <= s.len(),
        forall|j: int| i - run <= j < i ==> #[trigger] s[j] == '\\',
        i == run || s[i - run - 1] != '\\',
    ensures
        backslashes_before(s, i) == run,
    decreases run,
{
    if run > 0 {
        assert(s[i - 1] == '\\');
        lemma_run_length(s, i - 1, run - 1);
    }
}

/// Whether `\p{name}`, `\p{^name}` or the same with `P` stands in `s` from `b` to
/// `e`, where the name is made of letters and `_`.
pub open spec fn class_written(s: Seq<char>, b: int, e: int) -> bool {
    let f = if s[b + 3] == '^' {
        b + 4
    } else {
        b + 3
    };
    &&& 0 <= b
    &&& f < e < s.len()
    &&& s[b] == '\\'
    &&& s[b + 1] == 'p' || s[b + 1] == 'P'
    &&& s[b + 2] == '{'
    &&& s[e] == '}'
    &&& forall|k: int|
        f <= k < e ==> ('a' <= #[trigger] s[k] <= 'z' || 'A' <= s[k] <= 'Z' || s[k] == '_')
}

/// A `}` closes a class name exactly where it ends such a class, whose backslash is
/// not escaped.
pub proof fn class_names_end_at_their_brace(s: Seq<char>, e: int)
    requires
        0 <= e < s.len(),
    ensures
        closes_class_name(s, e) <==> exists|b: int| #[trigger] class_written(s, b, e) && !escaped(
            s,
            b,
        ),
{
    if closes_class_name(s, e) {
        let b = lemma_name_beginning(s, e);
        assert(class_written(s, b, e));
    }
    if exists|b: int| #[trigger] class_written(s, b, e) && !escaped(s, b) {
        let b = choose|b: int| #[trigger] class_written(s, b, e) && !escaped(s, b);
        let f = if s[b + 3] == '^' {
            b + 4
        } else {
            b + 3
        };
        assert(class_name_opens(s, b + 3));
        assert forall|j: int| f <= j < e implies class_name_char(#[trigger] s[j]) by {}
        lemma_name_is_before(s, f, e);
    }
}

proof fn lemma_name_beginning(s: Seq<char>, k: int) -> (b: int)
    requires
        class_name_before(s, k),
    ensures
        0 <= b,
        b + 3 < s.len(),
        s[b] == '\\',
        s[b + 1] == 'p' || s[b + 1] == 'P',
        s[b + 2] == '{',
        !escaped(s, b),
        ({
            let f = if s[b + 3] == '^' {
                b + 4
            } else {
                b + 3
            };
            &&& f < k
            &&& forall|j: int|
                f <= j < k ==> ('a' <= #[trigger] s[j] <= 'z' || 'A' <= s[j] <= 'Z' || s[j] == '_')
        }),
    decreases k,
{
    assert(class_name_char(s[k - 1]));
    if class_name_opens(s, k - 1) {
        k - 4
    } else if class_name_starts(s, k - 1) {
        k - 5
    } else {
        lemma_name_beginning(s, k - 1)
    }
}

/// The first token that is a construct decides, whatever stands before it: a
/// backreference, an escape that only PCRE knows, or the opening of a lookaround, an
/// atomic or a conditional group.
pub proof fn the_first_construct_decides(s: Seq<char>, n: nat)
    requires
        token(s, n).0 < s.len(),
        forall|m: nat| m < n ==> token_construct(s, m) is None,
    ensures
        ({
            let (i, in_class) = token(s, n);
            &&& s[i] == '\\' && !in_class && i + 1 < s.len() && '1' <= s[i + 1] <= '9'
                ==> first_construct(s) == Some(UnsupportedRegex::Backreference)
            &&& s[i] == '\\' && i + 1 < s.len() && (s[i + 1] == 'K' || s[i + 1] == 'G' || s[i + 1]
                == 'X') ==> first_construct(s) == Some(UnsupportedRegex::UnsupportedEscape)
            &&& s[i] == '(' && !in_class && i + 2 < s.len() && s[i + 1] == '?' && (s[i + 2] == '='
                || s[i + 2] == '!') ==> first_construct(s) == Some(UnsupportedRegex::Lookaround)
            &&& s[i] == '(' && !in_class && i + 3 < s.len() && s[i + 1] == '?' && s[i + 2] == '<'
                && (s[i + 3] == '=' || s[i + 3] == '!') ==> first_construct(s) == Some(
                UnsupportedRegex::Lookaround,
            )
            &&& s[i] == '(' && !in_class && i + 2 < s.len() && s[i + 1] == '?' && (s[i + 2] == '>'
                || s[i + 2] == '(') ==> first_construct(s) == Some(
                UnsupportedRegex::AtomicOrConditional,
            )
        }),
{
    constructs_are_told_by_their_characters(s, n);
    reports_the_first_construct(s, n);
}

/// Text that holds no backslash, no bracket, no parenthesis and no `+`, but may hold
/// any quantifier else, hides nothing that stands behind it.
pub proof fn text_hides_no_construct(text: Seq<char>, rest: Seq<char>, d: char)
    requires
        forall|k: int|
            0 <= k < text.len() ==> #[trigger] text[k] != '\\' && text[k] != '[' && text[k] != '('
                && text[k] != '+',
    ensures
        '1' <= d <= '9' ==> first_construct(text + seq!['\\', d] + rest) == Some(
            UnsupportedRegex::Backreference,
        ),
        d == 'K' || d == 'G' || d == 'X' ==> first_construct(text + seq!['\\', d] + rest) == Some(
            UnsupportedRegex::UnsupportedEscape,
        ),
        d == '=' || d == '!' ==> first_construct(text + seq!['(', '?', d] + rest) == Some(
            UnsupportedRegex::Lookaround,
        ),
        d == '=' || d == '!' ==> first_construct(text + seq!['(', '?', '<', d] + rest) == Some(
            UnsupportedRegex::Lookaround,
        ),
        d == '>' || d == '(' ==> first_construct(text + seq!['(', '?', d] + rest) == Some(
            UnsupportedRegex::AtomicOrConditional,
        ),
{
    let n = text.len();
    let a = text + seq!['\\', d] + rest;
    let b = text + seq!['(', '?', d] + rest;
    let c = text + seq!['(', '?', '<', d] + rest;
    lemma_literal_text(text, a, n);
    lemma_literal_text(text, b, n);
    lemma_literal_text(text, c, n);
    let i = n as int;
    assert(a[i] == '\\' && a[i + 1] == d);
    assert(b[i] == '(' && b[i + 1] == '?' && b[i + 2] == d);
    assert(c[i] == '(' && c[i + 1] == '?' && c[i + 2] == '<' && c[i + 3] == d);
    the_first_construct_decides(a, n);
    the_first_construct_decides(b, n);
    the_first_construct_decides(c, n);
}

proof fn lemma_literal_text(text: Seq<char>, s: Seq<char>, n: nat)
    requires
        n <= text.len() < s.len(),
        forall|k: int| 0 <= k < text.len() ==> s[k] == text[k],
        forall|k: int|
            0 <= k < text.len() ==> #[trigger] text[k] != '\\' && text[k] != '[' && text[k] != '('
                && text[k] != '+',
    ensures
        token(s, n) == (n as int, false),
        forall|m: nat| m < n ==> token_construct(s, m) is None,
    decreases n,
{
    if n > 0 {
        let m = (n - 1) as nat;
        lemma_literal_text(text, s, m);
        assert(s[m as int] == text[m as int]);
    }
}

/// A group is told by the characters that open it.
pub proof fn groups_are_told_by_their_opening(rest: Seq<char>)
    ensures
        group_construct(rest) == Some(UnsupportedRegex::Lookaround) <==> rest.len() > 2 && rest[1]
            == '?' && (rest[2] == '=' || rest[2] == '!' || (rest[2] == '<' && rest.len() > 3 && (
        rest[3] == '=' || rest[3] == '!'))),
        group_construct(rest) == Some(UnsupportedRegex::AtomicOrConditional) <==> rest.len() > 2
            && rest[1] == '?' && (rest[2] == '>' || rest[2] == '('),
        group_construct(rest) is None || group_construct(rest) == Some(UnsupportedRegex::Lookaround)
            || group_construct(rest) == Some(UnsupportedRegex::AtomicOrConditional),
{
}

/// Each construct is described in its own words.
pub proof fn constructs_are_described(one: UnsupportedRegex, other: UnsupportedRegex)
    ensures
        one is Lookaround ==> description_of(one) == "lookaround"@,
        one is Backreference ==> description_of(one) == "a backreference"@,
        one is AtomicOrConditional ==> description_of(one) == "an atomic or conditional group"@,
        one is PossessiveQuantifier ==> description_of(one) == "a possessive quantifier"@,
        one is UnsupportedEscape ==> description_of(one) == "an unsupported escape"@,
        one != other ==> description_of(one) != description_of(other),
{
    reveal_strlit("lookaround");
    reveal_strlit("a backreference");
    reveal_strlit("an atomic or conditional group");
    reveal_strlit("a possessive quantifier");
    reveal_strlit("an unsupported escape");
    assert("lookaround"@.len() == 10 && "a backreference"@.len() == 15);
    assert("an atomic or conditional group"@.len() == 30);
    assert("a possessive quantifier"@.len() == 23 && "an unsupported escape"@.len() == 21);
}

} // verus!
