//! What a server's `WWW-Authenticate` challenge points at.

use crate::text::{
    contains_text, find_text, first_index, first_index_after, first_index_bounds, first_occurrence,
    first_position, first_position_is, index_of, leading_runs_are_trimmed, leading_space_is_trimmed,
    occurs_at, only, outer_space_is_trimmed, texts_are_found_where_they_stand, to_chars, to_text,
    trailing_runs_are_trimmed, trim, trim_end_of, trim_start_of, white_space, without_leading,
    without_outer_space, without_trailing,
};
use vstd::prelude::*;
use vstd::slice::slice_subrange;

verus! {

/// The value that follows `resource_metadata=`: what stands before the next quote,
/// after those that open it, or before the end where there is none, without the
/// commas at its end and then without white space around it.
pub open spec fn metadata_value(rest: Seq<char>) -> Seq<char> {
    let unquoted = trim_start_of(rest, '"');
    trim(trim_end_of(unquoted.take(first_index(unquoted, '"')), ','))
}

/// The metadata URL that a challenge names with its first `resource_metadata=`.
pub open spec fn metadata_in(header: Seq<char>) -> Option<Seq<char>> {
    if contains_text(header, "resource_metadata="@) {
        let at = first_position(header, "resource_metadata="@);
        let value = metadata_value(header.skip(at + "resource_metadata="@.len()));
        if value.len() == 0 {
            None
        } else {
            Some(value)
        }
    } else {
        None
    }
}

/// Parse `resource_metadata="..."` out of a `WWW-Authenticate` header.
pub fn resource_metadata_from_challenge(header: &str) -> (r: Option<String>)
    ensures
        r.deep_view() == metadata_in(header@),
{
    let chars = to_chars(header);
    let key = "resource_metadata=";
    match find_text(chars.as_slice(), key) {
        None => None,
        Some(at) => {
            let key_len = to_chars(key).len();
            assert(at + key_len <= chars.len());
            let rest = slice_subrange(chars.as_slice(), at + key_len, chars.len());
            let rest = without_leading(rest, '"');
            let end = index_of(rest, '"');
            let value = without_outer_space(without_trailing(slice_subrange(rest, 0, end), ','));
            assert(rest@.subrange(0, end as int) == rest@.take(end as int));
            if value.len() == 0 {
                None
            } else {
                Some(to_text(value))
            }
        },
    }
}

/// A quoted metadata URL is found whatever stands before and after it.
pub proof fn quoted_metadata_is_found(before: Seq<char>, url: Seq<char>, after: Seq<char>)
    requires
        first_occurrence(
            before + "resource_metadata="@ + seq!['"'] + url + seq!['"'] + after,
            "resource_metadata="@,
            before.len() as int,
        ),
        url.len() > 0,
        trim(url) == url,
        url.last() != ',',
        !url.contains('"'),
    ensures
        metadata_in(before + "resource_metadata="@ + seq!['"'] + url + seq!['"'] + after) == Some(
            url,
        ),
{
    let key = "resource_metadata="@;
    let header = before + key + seq!['"'] + url + seq!['"'] + after;
    first_position_is(header, key, before.len() as int);
    assert(occurs_at(header, key, before.len() as int));
    let rest = header.skip((before.len() + key.len()) as int);
    assert(rest =~= seq!['"'] + url + seq!['"'] + after);
    let inner = url + seq!['"'] + after;
    assert(rest.drop_first() =~= inner);
    assert(rest[0] == '"');
    assert(inner[0] == url[0]);
    assert(url.contains(url[0]));
    assert(trim_start_of(rest, '"') == inner) by {
        assert(only('"')(rest[0]));
        assert(!only('"')(inner[0]));
        reveal_with_fuel(crate::text::drop_leading, 2);
    }
    first_index_after(url, '"', after);
    assert(inner.take(url.len() as int) =~= url);
    assert(trim_end_of(url, ',') == url) by {
        assert(!only(',')(url.last()));
    }
}

/// The value behind the first key is read without the quotes before it, up to the next
/// quote or to the end, without the commas at its end and without white space around
/// it, whatever stands before the key and after the value.
pub proof fn metadata_is_unwrapped(
    before: Seq<char>,
    quotes: Seq<char>,
    lead: Seq<char>,
    url: Seq<char>,
    trail: Seq<char>,
    commas: Seq<char>,
    after: Seq<char>,
)
    requires
        ({
            let rest = quotes + (lead + url + trail + commas) + after;
            forall|i: int|
                0 <= i < before.len() ==> #[trigger] (before + "resource_metadata="@
                    + rest).subrange(i, i + "resource_metadata="@.len()) != "resource_metadata="@
        }),
        forall|k: int| 0 <= k < quotes.len() ==> #[trigger] quotes[k] == '"',
        forall|k: int| 0 <= k < lead.len() ==> white_space(#[trigger] lead[k]),
        forall|k: int| 0 <= k < trail.len() ==> white_space(#[trigger] trail[k]),
        forall|k: int| 0 <= k < commas.len() ==> #[trigger] commas[k] == ',',
        forall|k: int| 0 <= k < url.len() ==> #[trigger] url[k] != '"',
        url.len() > 0,
        !white_space(url[0]),
        !white_space(url.last()),
        trail.len() == 0 ==> url.last() != ',',
        after.len() > 0 ==> after[0] == '"',
    ensures
        metadata_in(
            before + "resource_metadata="@ + (quotes + (lead + url + trail + commas) + after),
        ) == Some(url),
{
    let key = "resource_metadata="@;
    let core = lead + url + trail;
    let inner = core + commas;
    let rest = quotes + inner + after;
    let header = before + key + rest;
    texts_are_found_where_they_stand(before, key, rest);
    assert(header.skip((before.len() + key.len()) as int) =~= rest);
    assert(rest =~= quotes + (inner + after));
    assert(inner[0] != '"') by {
        if lead.len() > 0 {
            assert(white_space(lead[0]));
        }
    }
    leading_runs_are_trimmed(quotes, inner + after, '"');
    assert(!inner.contains('"')) by {
        assert forall|k: int| 0 <= k < inner.len() implies inner[k] != '"' by {
            if k < lead.len() {
                assert(inner[k] == lead[k]);
            } else if k < lead.len() + url.len() {
                assert(inner[k] == url[k - lead.len()]);
            } else if k < core.len() {
                assert(inner[k] == trail[k - lead.len() - url.len()]);
            } else {
                assert(inner[k] == commas[k - core.len()]);
            }
        }
    }
    if after.len() > 0 {
        first_index_after(inner, '"', after.drop_first());
        assert(inner + seq!['"'] + after.drop_first() =~= inner + after);
    } else {
        assert(inner + after =~= inner);
        first_index_bounds(inner, '"');
    }
    assert((inner + after).take(inner.len() as int) =~= inner);
    assert(core.last() != ',') by {
        if trail.len() > 0 {
            assert(core.last() == trail[trail.len() - 1]);
        } else {
            assert(core.last() == url.last());
        }
    }
    trailing_runs_are_trimmed(core, commas, ',');
    outer_space_is_trimmed(lead, url, trail);
}

/// A challenge without the key names nothing.
pub proof fn challenges_name_metadata_by_its_key(header: Seq<char>)
    requires
        forall|i: int|
            0 <= i <= header.len() - "resource_metadata="@.len() ==> #[trigger] header.subrange(
                i,
                i + "resource_metadata="@.len(),
            ) != "resource_metadata="@,
    ensures
        metadata_in(header) is None,
{
    if contains_text(header, "resource_metadata="@) {
        let i = choose|i: int| occurs_at(header, "resource_metadata="@, i);
        assert(header.subrange(i, i + "resource_metadata="@.len()) == "resource_metadata="@);
    }
}

/// A key without a value, which is nothing but quotes, white space and commas, names
/// nothing.
pub proof fn empty_values_name_nothing(
    before: Seq<char>,
    quotes: Seq<char>,
    space: Seq<char>,
    commas: Seq<char>,
    after: Seq<char>,
)
    requires
        ({
            let rest = quotes + (space + commas) + after;
            forall|i: int|
                0 <= i < before.len() ==> #[trigger] (before + "resource_metadata="@
                    + rest).subrange(i, i + "resource_metadata="@.len()) != "resource_metadata="@
        }),
        forall|k: int| 0 <= k < quotes.len() ==> #[trigger] quotes[k] == '"',
        forall|k: int| 0 <= k < space.len() ==> white_space(#[trigger] space[k]),
        forall|k: int| 0 <= k < commas.len() ==> #[trigger] commas[k] == ',',
        after.len() > 0 ==> after[0] == '"' && space.len() + commas.len() > 0,
    ensures
        metadata_in(before + "resource_metadata="@ + (quotes + (space + commas) + after)) is None,
{
    let key = "resource_metadata="@;
    let inner = space + commas;
    let rest = quotes + inner + after;
    let header = before + key + rest;
    texts_are_found_where_they_stand(before, key, rest);
    assert(header.skip((before.len() + key.len()) as int) =~= rest);
    assert(rest =~= quotes + (inner + after));
    assert(inner.len() > 0 ==> inner[0] != '"') by {
        if space.len() > 0 {
            assert(white_space(space[0]));
        } else if commas.len() > 0 {
            assert(commas[0] == ',');
        }
    }
    leading_runs_are_trimmed(quotes, inner + after, '"');
    assert(!inner.contains('"')) by {
        assert forall|k: int| 0 <= k < inner.len() implies inner[k] != '"' by {
            if k < space.len() {
                assert(inner[k] == space[k]);
            } else {
                assert(inner[k] == commas[k - space.len()]);
            }
        }
    }
    if after.len() > 0 {
        first_index_after(inner, '"', after.drop_first());
        assert(inner + seq!['"'] + after.drop_first() =~= inner + after);
    } else {
        assert(inner + after =~= inner);
        first_index_bounds(inner, '"');
    }
    assert((inner + after).take(inner.len() as int) =~= inner);
    trailing_runs_are_trimmed(space, commas, ',');
    leading_space_is_trimmed(space, Seq::empty());
    assert(space + Seq::<char>::empty() =~= space);
}

} // verus!
