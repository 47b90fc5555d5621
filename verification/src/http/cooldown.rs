//! How often a browser is opened for one server.
//!
//! The start of a sign-in is remembered in the process and in a small marker
//! file, so that neither concurrent requests nor new processes reopen the same
//! consent page. The marker holds the time alone, never credentials.

use crate::decimal::{
    numeral, numeral_reads_back, numeral_value, numerals_read_back_between_spaces, read_decimal,
    write_decimal,
};
use crate::text::{same_text, to_chars, trim, white_space, without_outer_space};
use vstd::prelude::*;

verus! {

/// How many seconds after the start of one sign-in no other is started.
pub const INTERACTIVE_AUTH_COOLDOWN: u64 = 600;

/// The same in nanoseconds.
pub const COOLDOWN_NANOS: u64 = 600_000_000_000;

/// The time that a marker tells, in Unix seconds.
pub open spec fn marker_time(marker: Option<Seq<char>>) -> Option<u64> {
    match marker {
        Some(text) => numeral_value(trim(text)),
        None => None,
    }
}

/// Whether a sign-in has been started too short a time ago: `elapsed` nanoseconds
/// ago in this process, or at the time that the marker tells, which may also lie in
/// the future of a clock that was set back.
pub open spec fn cooling_down(
    elapsed: Option<u64>,
    marker: Option<Seq<char>>,
    now: Option<u64>,
) -> bool {
    ||| elapsed is Some && elapsed->0 < COOLDOWN_NANOS
    ||| marker_time(marker) is Some && now is Some && now->0 - marker_time(marker)->0
        < INTERACTIVE_AUTH_COOLDOWN
}

/// Whether a browser may be opened now.
#[derive(Clone, Copy, Debug, PartialEq, Eq, Structural)]
pub enum SignIn {
    /// No: one was opened a short while ago.
    Refused,
    /// Yes, and the time is to be remembered.
    Allowed,
    /// Yes, and nothing is to be remembered.
    Unlimited,
}

/// Whether a browser may be opened now: in an automated run always, else unless
/// one was opened a short while ago. `elapsed` are the nanoseconds since a sign-in
/// was started in this process, `marker` the text of the marker file and `now` the
/// Unix time in seconds, each where it is known.
pub fn interactive_auth_allowed(
    autofollow: bool,
    elapsed: Option<u64>,
    marker: Option<&str>,
    now: Option<u64>,
) -> (r: SignIn)
    ensures
        r == (if autofollow {
            SignIn::Unlimited
        } else if cooling_down(elapsed, marker.deep_view(), now) {
            SignIn::Refused
        } else {
            SignIn::Allowed
        }),
{
    if autofollow {
        return SignIn::Unlimited;
    }
    if let Some(elapsed) = elapsed {
        if elapsed < COOLDOWN_NANOS {
            return SignIn::Refused;
        }
    }
    if let Some(text) = marker {
        let chars = to_chars(text);
        let started = read_decimal(without_outer_space(chars.as_slice()));
        if let Some(started) = started {
            if let Some(now) = now {
                if now < started || now - started < INTERACTIVE_AUTH_COOLDOWN {
                    return SignIn::Refused;
                }
            }
        }
    }
    SignIn::Allowed
}

/// What a list of starts, oldest first, says of each server.
pub open spec fn starts_of(list: Seq<(Seq<char>, u64)>) -> Map<Seq<char>, u64>
    decreases list.len(),
{
    if list.len() == 0 {
        Map::empty()
    } else {
        starts_of(list.drop_last()).insert(list.last().0, list.last().1)
    }
}

/// How many nanoseconds ago a sign-in for `name` was started.
pub open spec fn elapsed_since(starts: Map<Seq<char>, u64>, name: Seq<char>, now: u64) -> Option<
    u64,
> {
    if starts.contains_key(name) {
        Some(
            if now < starts[name] {
                0
            } else {
                (now - starts[name]) as u64
            },
        )
    } else {
        None
    }
}

/// When the sign-ins of this process were started, by server, in nanoseconds of a
/// clock that runs forward.
#[derive(Debug)]
pub struct AuthStarts {
    list: Vec<(String, u64)>,
}

impl View for AuthStarts {
    type V = Map<Seq<char>, u64>;

    closed spec fn view(&self) -> Map<Seq<char>, u64> {
        starts_of(self.list.deep_view())
    }
}

impl AuthStarts {
    /// No sign-in has been started.
    pub fn new() -> (r: Self)
        ensures
            r@ == Map::<Seq<char>, u64>::empty(),
    {
        let list: Vec<(String, u64)> = Vec::new();
        assert(list.deep_view() =~= Seq::<(Seq<char>, u64)>::empty());
        AuthStarts { list }
    }

    /// How many nanoseconds ago a sign-in for `name` was started.
    pub fn elapsed(&self, name: &str, now: u64) -> (r: Option<u64>)
        ensures
            r == elapsed_since(self@, name@, now),
    {
        let ghost all = self.list.deep_view();
        let mut i: usize = self.list.len();
        assert(all.take(all.len() as int) =~= all);
        while i > 0
            invariant
                all == self.list.deep_view(),
                i <= all.len(),
                elapsed_since(starts_of(all), name@, now) == elapsed_since(
                    starts_of(all.take(i as int)),
                    name@,
                    now,
                ),
            decreases i,
        {
            i = i - 1;
            proof {
                assert(all.take(i + 1).drop_last() =~= all.take(i as int));
                assert(all.take(i + 1).last() == self.list@[i as int].deep_view());
            }
            if same_text(self.list[i].0.as_str(), name) {
                let started = self.list[i].1;
                return Some(
                    if now < started {
                        0
                    } else {
                        now - started
                    },
                );
            }
        }
        assert(all.take(0) =~= Seq::<(Seq<char>, u64)>::empty());
        None
    }

    /// Forgets the start of a sign-in for `name`. It must not outlast the attempt:
    /// left behind, it would hold up the next one although there are no usable
    /// credentials.
    pub fn clear(&mut self, name: &str)
        ensures
            final(self)@ == old(self)@.remove(name@),
    {
        let mut kept: Vec<(String, u64)> = Vec::new();
        let ghost all = self.list.deep_view();
        proof {
            assert(all.take(0) =~= Seq::<(Seq<char>, u64)>::empty());
            assert(kept.deep_view() =~= Seq::<(Seq<char>, u64)>::empty());
            assert(starts_of(kept.deep_view()) =~= starts_of(all.take(0)).remove(name@));
        }
        for i in 0..self.list.len()
            invariant
                all == self.list.deep_view(),
                starts_of(kept.deep_view()) == starts_of(all.take(i as int)).remove(name@),
        {
            let ghost had = kept.deep_view();
            let server = &self.list[i].0;
            proof {
                assert(all.take(i + 1).drop_last() =~= all.take(i as int));
                assert(all.take(i + 1).last() == self.list@[i as int].deep_view());
            }
            if !same_text(server.as_str(), name) {
                kept.push((server.clone(), self.list[i].1));
                proof {
                    assert(kept.deep_view() =~= had.push(self.list@[i as int].deep_view()));
                    assert(kept.deep_view().drop_last() =~= had);
                }
            }
            assert(starts_of(kept.deep_view()) =~= starts_of(all.take(i + 1)).remove(name@));
        }
        assert(all.take(all.len() as int) =~= all);
        self.list = kept;
    }

    fn record(&mut self, name: &str, now: u64)
        ensures
            final(self)@ == old(self)@.insert(name@, now),
    {
        self.clear(name);
        let ghost had = self.list.deep_view();
        self.list.push((name.to_owned(), now));
        proof {
            assert(self.list.deep_view() =~= had.push((name@, now)));
            assert(self.list.deep_view().drop_last() =~= had);
            assert(self@ =~= old(self)@.insert(name@, now));
        }
    }

    /// Whether a browser may be opened now for `name`; if so, and the time is to be
    /// remembered, it is remembered here. `now` is the time of the clock that runs
    /// forward and `epoch` the Unix time in seconds, where it is known.
    pub fn allow(
        &mut self,
        name: &str,
        autofollow: bool,
        now: u64,
        marker: Option<&str>,
        epoch: Option<u64>,
    ) -> (r: SignIn)
        ensures
            r == (if autofollow {
                SignIn::Unlimited
            } else if cooling_down(
                elapsed_since(old(self)@, name@, now),
                marker.deep_view(),
                epoch,
            ) {
                SignIn::Refused
            } else {
                SignIn::Allowed
            }),
            final(self)@ == (if r == SignIn::Allowed {
                old(self)@.insert(name@, now)
            } else {
                old(self)@
            }),
    {
        let elapsed = self.elapsed(name, now);
        let decision = interactive_auth_allowed(autofollow, elapsed, marker, epoch);
        if decision == SignIn::Allowed {
            self.record(name, now);
        }
        decision
    }
}

/// The text of the marker for a sign-in that was started at `now`.
pub fn cooldown_marker(now: u64) -> (r: String)
    ensures
        r@ == numeral(now as nat),
{
    write_decimal(now)
}

/// Browser flows are impossible in headless runs: a setting that is there and is
/// not `0` says so.
pub fn non_interactive(no_browser: Option<&str>) -> (r: bool)
    ensures
        r == (no_browser.deep_view() is Some && no_browser.deep_view() != Some("0"@)),
{
    match no_browser {
        Some(value) => !same_text(value, "0"),
        None => false,
    }
}

/// A marker that was written at `start` refuses a sign-in until the cooldown has
/// passed, and no longer.
pub proof fn markers_last_for_the_cooldown(start: u64, now: u64)
    ensures
        cooling_down(None, Some(numeral(start as nat)), Some(now)) <==> now < start
            + INTERACTIVE_AUTH_COOLDOWN,
{
    numeral_reads_back(start);
}

/// Once a sign-in has been started in this process, another for the same server is
/// refused until the cooldown has passed, whatever the marker says; after that only
/// the marker counts. Other servers are not held up by it.
pub proof fn starts_last_for_the_cooldown(
    starts: Map<Seq<char>, u64>,
    name: Seq<char>,
    other: Seq<char>,
    start: u64,
    now: u64,
    marker: Option<Seq<char>>,
    epoch: Option<u64>,
)
    ensures
        ({
            let after = starts.insert(name, start);
            &&& now - start < COOLDOWN_NANOS ==> cooling_down(
                elapsed_since(after, name, now),
                marker,
                epoch,
            )
            &&& now - start >= COOLDOWN_NANOS ==> cooling_down(
                elapsed_since(after, name, now),
                marker,
                epoch,
            ) == cooling_down(None, marker, epoch)
            &&& other != name ==> elapsed_since(after, other, now) == elapsed_since(
                starts,
                other,
                now,
            )
        }),
{
}

/// Once the start and the marker of an attempt are cleared, the next attempt is
/// not held up; nor does a marker hold it up that tells no time.
pub proof fn cleared_attempts_are_forgotten(
    starts: Map<Seq<char>, u64>,
    name: Seq<char>,
    now: u64,
    marker: Seq<char>,
    epoch: Option<u64>,
)
    ensures
        ({
            let after = starts.remove(name);
            &&& !cooling_down(elapsed_since(after, name, now), None, epoch)
            &&& numeral_value(trim(marker)) is None ==> !cooling_down(
                elapsed_since(after, name, now),
                Some(marker),
                epoch,
            )
        }),
{
}

/// A sign-in is held up exactly where one was started in this process less than the
/// cooldown ago, or where the marker, whatever white space stands around its number,
/// tells of one and the time is known and not past the cooldown; one that lies in the
/// future holds it up too.
pub proof fn sign_ins_are_held_up_for_the_cooldown(
    elapsed: Option<u64>,
    before: Seq<char>,
    start: u64,
    after: Seq<char>,
    now: u64,
)
    requires
        forall|k: int| 0 <= k < before.len() ==> white_space(#[trigger] before[k]),
        forall|k: int| 0 <= k < after.len() ==> white_space(#[trigger] after[k]),
    ensures
        ({
            let marker = Some(before + numeral(start as nat) + after);
            let recent = elapsed is Some && elapsed->0 < 600_000_000_000;
            &&& cooling_down(elapsed, marker, Some(now)) <==> recent || now < start + 600
            &&& cooling_down(elapsed, marker, None) <==> recent
            &&& cooling_down(elapsed, None, Some(now)) <==> recent
            &&& cooling_down(elapsed, None, None) <==> recent
            &&& marker_time(marker) == Some(start)
        }),
{
    numerals_read_back_between_spaces(start, before, after);
}

/// A start lies as far back as the time that has passed since, and not at all where
/// the clock stands before it; where there was none nothing is known.
pub proof fn starts_lie_back(starts: Map<Seq<char>, u64>, name: Seq<char>, start: u64, now: u64)
    ensures
        now >= start ==> elapsed_since(starts.insert(name, start), name, now) == Some(
            (now - start) as u64,
        ),
        now < start ==> elapsed_since(starts.insert(name, start), name, now) == Some(0u64),
        elapsed_since(starts.remove(name), name, now) is None,
{
}

/// The last start of a server counts, and those of other servers stay.
pub proof fn the_last_start_counts(
    list: Seq<(Seq<char>, u64)>,
    name: Seq<char>,
    start: u64,
    other: Seq<char>,
)
    ensures
        ({
            let after = starts_of(list.push((name, start)));
            &&& after.contains_key(name) && after[name] == start
            &&& other != name ==> after.contains_key(other) == starts_of(list).contains_key(other)
            &&& other != name && after.contains_key(other) ==> after[other] == starts_of(
                list,
            )[other]
        }),
        starts_of(Seq::empty()) == Map::<Seq<char>, u64>::empty(),
{
    assert(list.push((name, start)).drop_last() =~= list);
}

/// A marker tells the number that it is once the white space around it is taken off,
/// and one that is none tells nothing and holds nothing up.
pub proof fn markers_tell_their_number(elapsed: Option<u64>, marker: Seq<char>, now: u64)
    ensures
        ({
            let recent = elapsed is Some && elapsed->0 < 600_000_000_000;
            let told = numeral_value(trim(marker));
            &&& marker_time(Some(marker)) == told
            &&& told is None ==> (cooling_down(elapsed, Some(marker), Some(now)) <==> recent)
            &&& told is Some ==> (cooling_down(elapsed, Some(marker), Some(now)) <==> recent || now
                < told->0 + 600)
            &&& cooling_down(elapsed, Some(marker), None) <==> recent
        }),
{
}

} // verus!
