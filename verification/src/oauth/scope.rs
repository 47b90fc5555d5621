//! Which scopes to ask for.

use crate::text::{join_strings, join_text, same_text};
use vstd::prelude::*;

verus! {

/// The two names under which providers offer offline access.
pub open spec fn offline(scope: Seq<char>) -> bool {
    scope == "offline"@ || scope == "offline_access"@
}

/// Whether any of `scopes` is offline access.
pub open spec fn has_offline(scopes: Seq<Seq<char>>) -> bool {
    exists|i: int| 0 <= i < scopes.len() && #[trigger] offline(scopes[i])
}

/// `scopes` in their order, with only the first offline synonym.
pub open spec fn one_offline(scopes: Seq<Seq<char>>) -> Seq<Seq<char>>
    decreases scopes.len(),
{
    if scopes.len() == 0 {
        Seq::empty()
    } else {
        let before = one_offline(scopes.drop_last());
        if offline(scopes.last()) && has_offline(scopes.drop_last()) {
            before
        } else {
            before.push(scopes.last())
        }
    }
}

/// The `scope` value to request for the advertised list.
pub open spec fn scope_request(supported: Seq<Seq<char>>) -> Option<Seq<char>> {
    if supported.len() == 0 {
        None
    } else {
        Some(join_text(one_offline(supported), " "@))
    }
}

/// Build the `scope` value to request from the advertised list.
///
/// Returns `None` when the server advertises nothing, so servers that reject an
/// explicit scope keep working unchanged. `offline` and `offline_access` are
/// synonyms across providers; asking for both can be rejected, so the one that
/// the server lists first is taken.
pub fn requested_scope(supported: &[String]) -> (r: Option<String>)
    ensures
        r.deep_view() == scope_request(supported.deep_view()),
{
    if supported.len() == 0 {
        return None;
    }
    let ghost all = supported.deep_view();
    let mut scopes: Vec<String> = Vec::new();
    let mut seen_offline = false;
    for i in 0..supported.len()
        invariant
            all == supported.deep_view(),
            scopes.deep_view() == one_offline(all.take(i as int)),
            seen_offline == has_offline(all.take(i as int)),
    {
        let scope = &supported[i];
        let is_offline = same_text(scope.as_str(), "offline") || same_text(
            scope.as_str(),
            "offline_access",
        );
        let ghost before = all.take(i as int);
        let ghost had = scopes.deep_view();
        proof {
            assert(all.take(i + 1).drop_last() =~= before);
            assert(all.take(i + 1).last() == scope@);
            lemma_offline_push(before, scope@);
            assert(all.take(i + 1) =~= before.push(scope@));
        }
        if !(is_offline && seen_offline) {
            scopes.push(scope.clone());
            assert(scopes.deep_view() =~= had.push(scope@));
        }
        if is_offline {
            seen_offline = true;
        }
    }
    assert(all.take(supported@.len() as int) =~= all);
    Some(join_strings(scopes.as_slice(), " "))
}

proof fn lemma_offline_push(scopes: Seq<Seq<char>>, scope: Seq<char>)
    ensures
        has_offline(scopes.push(scope)) == (has_offline(scopes) || offline(scope)),
{
    let longer = scopes.push(scope);
    if has_offline(scopes) {
        let i = choose|i: int| 0 <= i < scopes.len() && #[trigger] offline(scopes[i]);
        assert(offline(longer[i]));
    }
    if offline(scope) {
        assert(offline(longer[scopes.len() as int]));
    }
    if has_offline(longer) {
        let i = choose|i: int| 0 <= i < longer.len() && #[trigger] offline(longer[i]);
        if i < scopes.len() {
            assert(offline(scopes[i]));
        }
    }
}

/// At most one offline synonym is requested, and one is requested exactly when
/// one is advertised.
pub proof fn one_offline_synonym(scopes: Seq<Seq<char>>)
    ensures
        forall|i: int, j: int|
            0 <= i < j < one_offline(scopes).len() ==> !(#[trigger] offline(one_offline(scopes)[i])
                && #[trigger] offline(one_offline(scopes)[j])),
        has_offline(one_offline(scopes)) == has_offline(scopes),
    decreases scopes.len(),
{
    if scopes.len() > 0 {
        let before = scopes.drop_last();
        let kept = one_offline(before);
        one_offline_synonym(before);
        assert(scopes =~= before.push(scopes.last()));
        lemma_offline_push(before, scopes.last());
        lemma_offline_push(kept, scopes.last());
        if offline(scopes.last()) && !has_offline(before) {
            assert forall|i: int| 0 <= i < kept.len() implies !offline(#[trigger] kept[i]) by {}
        }
    }
}

/// Of several offline synonyms the one is requested that is listed first.
pub proof fn first_synonym_is_kept(scopes: Seq<Seq<char>>, i: int)
    requires
        0 <= i < scopes.len(),
        offline(scopes[i]),
        forall|j: int| 0 <= j < i ==> !offline(#[trigger] scopes[j]),
    ensures
        exists|k: int|
            0 <= k < one_offline(scopes).len() && #[trigger] one_offline(scopes)[k] == scopes[i],
        forall|k: int|
            0 <= k < one_offline(scopes).len() && offline(#[trigger] one_offline(scopes)[k])
                ==> one_offline(scopes)[k] == scopes[i],
    decreases scopes.len(),
{
    let before = scopes.drop_last();
    let kept = one_offline(before);
    if i < scopes.len() - 1 {
        assert forall|j: int| 0 <= j < i implies !offline(#[trigger] before[j]) by {
            assert(before[j] == scopes[j]);
        }
        first_synonym_is_kept(before, i);
        assert(offline(before[i]));
        let k = choose|k: int| 0 <= k < kept.len() && #[trigger] kept[k] == scopes[i];
        assert(one_offline(scopes)[k] == kept[k]);
    } else {
        assert(!has_offline(before)) by {
            if has_offline(before) {
                let j = choose|j: int| 0 <= j < before.len() && #[trigger] offline(before[j]);
                assert(offline(scopes[j]));
            }
        }
        one_offline_synonym(before);
        assert(one_offline(scopes)[kept.len() as int] == scopes[i]);
        assert forall|k: int| 0 <= k < kept.len() implies !offline(#[trigger] kept[k]) by {}
    }
}

/// Every scope that is not an offline synonym is requested, and nothing is
/// requested that is not advertised.
pub proof fn other_scopes_are_kept(scopes: Seq<Seq<char>>, scope: Seq<char>)
    ensures
        !offline(scope) ==> (scopes.contains(scope) <==> one_offline(scopes).contains(scope)),
        one_offline(scopes).contains(scope) ==> scopes.contains(scope),
    decreases scopes.len(),
{
    if scopes.len() > 0 {
        let before = scopes.drop_last();
        let kept = one_offline(before);
        other_scopes_are_kept(before, scope);
        assert(scopes =~= before.push(scopes.last()));
        assert(before.push(scopes.last()).contains(scope) == (before.contains(scope)
            || scopes.last() == scope)) by {
            broadcast use vstd::seq_lib::group_seq_properties;
        }
        assert(kept.push(scopes.last()).contains(scope) == (kept.contains(scope) || scopes.last()
            == scope)) by {
            broadcast use vstd::seq_lib::group_seq_properties;
        }
    }
}

/// A list without two offline synonyms is requested as it is advertised.
pub proof fn scopes_are_requested_verbatim(scopes: Seq<Seq<char>>)
    requires
        forall|i: int, j: int|
            0 <= i < j < scopes.len() ==> !(#[trigger] offline(scopes[i]) && #[trigger] offline(
                scopes[j],
            )),
    ensures
        one_offline(scopes) == scopes,
    decreases scopes.len(),
{
    if scopes.len() > 0 {
        let before = scopes.drop_last();
        assert forall|i: int, j: int| 0 <= i < j < before.len() implies !(#[trigger] offline(
            before[i],
        ) && #[trigger] offline(before[j])) by {
            assert(before[i] == scopes[i] && before[j] == scopes[j]);
        }
        scopes_are_requested_verbatim(before);
        if offline(scopes.last()) && has_offline(before) {
            let i = choose|i: int| 0 <= i < before.len() && #[trigger] offline(before[i]);
            assert(offline(scopes[i]) && offline(scopes[scopes.len() - 1]));
        }
        assert(before.push(scopes.last()) =~= scopes);
    }
}

/// A scope more is requested too, behind a space, unless it is offline access and that
/// is requested already; nothing is requested exactly where nothing is advertised.
pub proof fn scopes_are_requested_one_by_one(scopes: Seq<Seq<char>>, scope: Seq<char>)
    ensures
        ({
            let synonym = scope == "offline"@ || scope == "offline_access"@;
            let listed = scopes.contains("offline"@) || scopes.contains("offline_access"@);
            let before = scope_request(scopes);
            let after = scope_request(scopes.push(scope));
            &&& scopes.len() == 0 ==> before is None && after == Some(scope)
            &&& scopes.len() > 0 && synonym && listed ==> before is Some && after == before
            &&& scopes.len() > 0 && !(synonym && listed) ==> before is Some && after == Some(
                before->0 + seq![' '] + scope,
            )
        }),
{
    let all = scopes.push(scope);
    assert(all.drop_last() =~= scopes);
    lemma_listed_is_offline(scopes);
    lemma_something_is_requested(scopes);
    reveal_strlit(" ");
    assert(" "@ =~= seq![' ']);
    let kept = one_offline(scopes);
    assert(kept.push(scope).drop_last() =~= kept);
    if scopes.len() == 0 {
        assert(!has_offline(scopes));
        assert(kept.push(scope) =~= seq![scope]);
    }
}

proof fn lemma_listed_is_offline(scopes: Seq<Seq<char>>)
    ensures
        has_offline(scopes) == (scopes.contains("offline"@) || scopes.contains("offline_access"@)),
{
    if scopes.contains("offline"@) {
        let i = choose|i: int| 0 <= i < scopes.len() && scopes[i] == "offline"@;
        assert(offline(scopes[i]));
    }
    if scopes.contains("offline_access"@) {
        let i = choose|i: int| 0 <= i < scopes.len() && scopes[i] == "offline_access"@;
        assert(offline(scopes[i]));
    }
}

proof fn lemma_something_is_requested(scopes: Seq<Seq<char>>)
    ensures
        scopes.len() > 0 ==> one_offline(scopes).len() > 0,
    decreases scopes.len(),
{
    if scopes.len() > 0 {
        lemma_something_is_requested(scopes.drop_last());
    }
}

} // verus!
