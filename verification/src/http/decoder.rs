//! Incremental decoding of an event stream that carries one response.

use crate::protocol::{parses_as, JsonRpcResponse};
use crate::text::{
    append_chars, beginnings_are_prefixes, begins_with, first_index, first_index_after,
    first_index_append, first_index_bounds, index_of, leading_space_is_trimmed, lossy_text, only,
    strip_prefix, to_chars, to_text, trailing_runs_are_trimmed, trailing_space_is_trimmed, trim_end,
    trim_end_of, trim_start, utf8_lossy, white_space, without_leading_space, without_trailing,
    without_trailing_space,
};
use vstd::prelude::*;
use vstd::slice::{slice_subrange, slice_to_vec};
use vstd::utf8::{decode_utf8, valid_utf8};

verus! {

/// What a decoder remembers: text that is not decoded yet, and the `data:`
/// payload of the event under way.
#[verifier::ext_equal]
pub struct Undecoded {
    pub pending: Seq<char>,
    pub data: Seq<char>,
}

impl Undecoded {
    /// The same, with `chunk` arrived after it.
    pub open spec fn then_chunk(self, chunk: Seq<char>) -> Undecoded {
        Undecoded { pending: self.pending + chunk, data: self.data }
    }
}

/// `data` after one non-empty line of the stream: a `data:` line adds its value,
/// any other line adds nothing.
pub open spec fn with_line(data: Seq<char>, line: Seq<char>) -> Seq<char> {
    if begins_with(line, "data:"@) {
        data + trim_start(line.skip("data:"@.len() as int))
    } else {
        data
    }
}

/// The first complete event in what is undecoded, and what is left after it. A
/// blank line completes an event whose payload is not empty.
pub open spec fn first_event(s: Undecoded) -> (Undecoded, Option<Seq<char>>)
    decreases s.pending.len(),
{
    let n = first_index(s.pending, '\n');
    if n < 0 || n >= s.pending.len() {
        (s, None)
    } else {
        let line = trim_end_of(s.pending.take(n), '\r');
        let rest = s.pending.skip(n + 1);
        if line.len() > 0 {
            first_event(Undecoded { pending: rest, data: with_line(s.data, line) })
        } else if s.data.len() == 0 {
            first_event(Undecoded { pending: rest, data: s.data })
        } else {
            (Undecoded { pending: rest, data: Seq::empty() }, Some(s.data))
        }
    }
}

/// A parsed message that answers a request: one that carries an id.
pub open spec fn answer<V>(parsed: Option<JsonRpcResponse<V>>) -> Option<JsonRpcResponse<V>> {
    if parsed is Some && parsed->0.id is Some {
        parsed
    } else {
        None
    }
}

/// The first event whose payload `p` reads as an answer, and what is left after it.
pub open spec fn first_answer<V>(
    s: Undecoded,
    p: spec_fn(Seq<char>) -> Option<JsonRpcResponse<V>>,
) -> (Undecoded, Option<JsonRpcResponse<V>>)
    decreases s.pending.len(),
{
    let (rest, event) = first_event(s);
    match event {
        None => (rest, None),
        Some(payload) => {
            if answer(p(payload)) is Some {
                (rest, answer(p(payload)))
            } else {
                proof {
                    event_consumes_text(s);
                }
                first_answer(rest, p)
            }
        },
    }
}

/// The payload of the event that the end of the stream completes: a last line
/// without a line break still counts.
pub open spec fn last_payload(s: Undecoded) -> Seq<char> {
    with_line(s.data, trim_end(s.pending))
}

/// A complete event takes its blank line with it.
pub proof fn event_consumes_text(s: Undecoded)
    ensures
        first_event(s).1 is Some ==> first_event(s).0.pending.len() < s.pending.len(),
        first_event(s).0.pending.len() <= s.pending.len(),
        first_event(s).1 is None ==> !first_event(s).0.pending.contains('\n'),
    decreases s.pending.len(),
{
    first_index_bounds(s.pending, '\n');
    let n = first_index(s.pending, '\n');
    if n < s.pending.len() {
        let line = trim_end_of(s.pending.take(n), '\r');
        let rest = s.pending.skip(n + 1);
        if line.len() > 0 {
            event_consumes_text(Undecoded { pending: rest, data: with_line(s.data, line) });
        } else if s.data.len() == 0 {
            event_consumes_text(Undecoded { pending: rest, data: s.data });
        }
    }
}

/// More text after a complete event stays undecoded; where there is no complete
/// event yet, it makes no difference whether the text arrived earlier or later.
pub proof fn events_ignore_chunk_boundaries(s: Undecoded, more: Seq<char>)
    ensures
        first_event(s).1 is Some ==> first_event(s.then_chunk(more)) == (
            first_event(s).0.then_chunk(more),
            first_event(s).1,
        ),
        first_event(s).1 is None ==> first_event(s.then_chunk(more)) == first_event(
            first_event(s).0.then_chunk(more),
        ),
    decreases s.pending.len(),
{
    let n = first_index(s.pending, '\n');
    first_index_bounds(s.pending, '\n');
    first_index_append(s.pending, more, '\n');
    if n < s.pending.len() {
        let longer = s.pending + more;
        assert(longer.take(n) == s.pending.take(n));
        assert(longer.skip(n + 1) == s.pending.skip(n + 1) + more);
        let line = trim_end_of(s.pending.take(n), '\r');
        let rest = s.pending.skip(n + 1);
        if line.len() > 0 {
            events_ignore_chunk_boundaries(
                Undecoded { pending: rest, data: with_line(s.data, line) },
                more,
            );
        } else if s.data.len() == 0 {
            events_ignore_chunk_boundaries(Undecoded { pending: rest, data: s.data }, more);
        }
    }
}

/// Two chunks pushed one after the other give the same response, and leave the
/// same text undecoded, as both pushed at once.
pub proof fn answers_ignore_chunk_boundaries<V>(
    s: Undecoded,
    first: Seq<char>,
    second: Seq<char>,
    p: spec_fn(Seq<char>) -> Option<JsonRpcResponse<V>>,
)
    ensures
        first_answer(s.then_chunk(first), p).1 is Some ==> first_answer(
            s.then_chunk(first + second),
            p,
        ) == (
            first_answer(s.then_chunk(first), p).0.then_chunk(second),
            first_answer(s.then_chunk(first), p).1,
        ),
        first_answer(s.then_chunk(first), p).1 is None ==> first_answer(
            s.then_chunk(first + second),
            p,
        ) == first_answer(first_answer(s.then_chunk(first), p).0.then_chunk(second), p),
{
    assert(s.then_chunk(first).then_chunk(second) =~= s.then_chunk(first + second));
    lemma_answer_append(s.then_chunk(first), second, p);
}

proof fn lemma_answer_append<V>(
    s: Undecoded,
    more: Seq<char>,
    p: spec_fn(Seq<char>) -> Option<JsonRpcResponse<V>>,
)
    ensures
        first_answer(s, p).1 is Some ==> first_answer(s.then_chunk(more), p) == (
            first_answer(s, p).0.then_chunk(more),
            first_answer(s, p).1,
        ),
        first_answer(s, p).1 is None ==> first_answer(s.then_chunk(more), p) == first_answer(
            first_answer(s, p).0.then_chunk(more),
            p,
        ),
    decreases s.pending.len(),
{
    events_ignore_chunk_boundaries(s, more);
    event_consumes_text(s);
    let (rest, event) = first_event(s);
    if event is Some && answer(p(event->0)) is None {
        lemma_answer_append(rest, more, p);
    }
}

/// A payload that one `data:` line can carry: it is not empty, starts with no white
/// space and holds no line break.
pub open spec fn fits_line(payload: Seq<char>) -> bool {
    &&& payload.len() > 0
    &&& !white_space(payload[0])
    &&& !payload.contains('\n')
    &&& payload.last() != '\r'
}

/// A payload that is sent as one `data:` line is what the event yields, whatever
/// follows it.
pub proof fn events_yield_what_was_sent(payload: Seq<char>, rest: Seq<char>)
    requires
        fits_line(payload),
    ensures
        first_event(
            Undecoded {
                pending: "data: "@ + payload + seq!['\n'] + seq!['\n'] + rest,
                data: Seq::empty(),
            },
        ) == (Undecoded { pending: rest, data: Seq::empty() }, Some(payload)),
{
    reveal_strlit("data: ");
    reveal_strlit("data:");
    let line = "data: "@ + payload;
    let after = seq!['\n'] + rest;
    let pending = line + seq!['\n'] + seq!['\n'] + rest;
    let start = Undecoded { pending, data: Seq::empty() };
    assert(pending =~= line + seq!['\n'] + after);
    assert(!line.contains('\n')) by {
        if line.contains('\n') {
            let i = choose|i: int| 0 <= i < line.len() && line[i] == '\n';
            assert(payload[i - 6] == line[i]);
            assert(payload.contains(payload[i - 6]));
        }
    }
    first_index_after(line, '\n', after);
    assert(pending.take(line.len() as int) =~= line);
    assert(pending.skip(line.len() as int + 1) =~= after);
    assert(trim_end_of(line, '\r') == line) by {
        assert(line.last() == payload.last());
        assert(!only('\r')(line.last()));
    }
    lemma_data_line(Seq::empty(), payload);
    let next = Undecoded { pending: after, data: payload };
    assert(with_line(start.data, line) =~= payload);
    assert(first_event(start) == first_event(next));
    assert(after[0] == '\n');
    assert(after.take(0) =~= Seq::<char>::empty());
    assert(after.skip(1) =~= rest);
    assert(trim_end_of(after.take(0), '\r') == Seq::<char>::empty());
}

proof fn lemma_data_line(data: Seq<char>, payload: Seq<char>)
    requires
        fits_line(payload),
    ensures
        with_line(data, "data: "@ + payload) == data + payload,
{
    reveal_strlit("data: ");
    reveal_strlit("data:");
    let line = "data: "@ + payload;
    assert(line.subrange(0, 5) =~= "data:"@);
    let value = line.skip(5);
    assert(value[0] == ' ');
    assert(value.drop_first() =~= payload);
    assert(trim_start(value) == payload) by {
        reveal_with_fuel(crate::text::drop_leading, 2);
        assert(white_space(value[0]));
    }
}

/// An event that is no answer, such as a notification, makes no difference to the
/// response that is found after it.
pub proof fn other_events_are_skipped<V>(
    payload: Seq<char>,
    rest: Seq<char>,
    p: spec_fn(Seq<char>) -> Option<JsonRpcResponse<V>>,
)
    requires
        fits_line(payload),
        answer(p(payload)) is None,
    ensures
        ({
            let idle = Undecoded { pending: Seq::empty(), data: Seq::empty() };
            let sent = "data: "@ + payload + seq!['\n'] + seq!['\n'] + rest;
            first_answer(idle.then_chunk(sent), p) == first_answer(idle.then_chunk(rest), p)
        }),
{
    let idle = Undecoded { pending: Seq::empty(), data: Seq::empty() };
    let sent = "data: "@ + payload + seq!['\n'] + seq!['\n'] + rest;
    assert(idle.then_chunk(sent) =~= Undecoded { pending: sent, data: Seq::empty() });
    assert(idle.then_chunk(rest) =~= Undecoded { pending: rest, data: Seq::empty() });
    events_yield_what_was_sent(payload, rest);
}

/// An answer is returned as soon as its event is complete, and what follows it
/// stays undecoded.
pub proof fn answers_are_returned_at_once<V>(
    payload: Seq<char>,
    rest: Seq<char>,
    p: spec_fn(Seq<char>) -> Option<JsonRpcResponse<V>>,
)
    requires
        fits_line(payload),
        answer(p(payload)) is Some,
    ensures
        ({
            let idle = Undecoded { pending: Seq::empty(), data: Seq::empty() };
            let sent = "data: "@ + payload + seq!['\n'] + seq!['\n'] + rest;
            first_answer(idle.then_chunk(sent), p) == (idle.then_chunk(rest), p(payload))
        }),
{
    let idle = Undecoded { pending: Seq::empty(), data: Seq::empty() };
    let sent = "data: "@ + payload + seq!['\n'] + seq!['\n'] + rest;
    assert(idle.then_chunk(sent) =~= Undecoded { pending: sent, data: Seq::empty() });
    assert(idle.then_chunk(rest) =~= Undecoded { pending: rest, data: Seq::empty() });
    events_yield_what_was_sent(payload, rest);
}

/// A last event needs neither a line break nor a blank line after it.
pub proof fn last_events_need_no_blank_line(payload: Seq<char>)
    requires
        fits_line(payload),
        !white_space(payload.last()),
    ensures
        ({
            let left = Undecoded { pending: "data: "@ + payload, data: Seq::empty() };
            first_event(left) == (left, None::<Seq<char>>) && last_payload(left) == payload
        }),
{
    reveal_strlit("data: ");
    let line = "data: "@ + payload;
    let left = Undecoded { pending: line, data: Seq::empty() };
    first_index_bounds(line, '\n');
    let n = first_index(line, '\n');
    if n < line.len() {
        assert(payload[n - 6] == line[n]);
        assert(payload.contains(payload[n - 6]));
    }
    assert(line.last() == payload.last());
    assert(trim_end(line) == line);
    lemma_data_line(Seq::empty(), payload);
    assert(with_line(left.data, line) =~= payload);
}

/// A line that carries no data, such as a comment, makes no difference.
pub proof fn other_lines_are_ignored(line: Seq<char>, rest: Seq<char>, data: Seq<char>)
    requires
        line.len() > 0,
        !line.contains('\n'),
        line.last() != '\r',
        !begins_with(line, "data:"@),
    ensures
        first_event(Undecoded { pending: line + seq!['\n'] + rest, data }) == first_event(
            Undecoded { pending: rest, data },
        ),
{
    let pending = line + seq!['\n'] + rest;
    first_index_after(line, '\n', rest);
    assert(pending.take(line.len() as int) =~= line);
    assert(pending.skip(line.len() as int + 1) =~= rest);
    assert(trim_end_of(line, '\r') == line) by {
        assert(!only('\r')(line.last()));
    }
}

/// Whether `line` and the carriage returns `ending` behind it are what stands before a line
/// break.
pub open spec fn is_line(line: Seq<char>, ending: Seq<char>) -> bool {
    &&& !line.contains('\n')
    &&& line.len() > 0 ==> line.last() != '\r'
    &&& forall|k: int| 0 <= k < ending.len() ==> #[trigger] ending[k] == '\r'
}

/// The first line of a text that starts with a line is that line.
pub proof fn first_lines_are_split_off(line: Seq<char>, ending: Seq<char>, rest: Seq<char>)
    requires
        is_line(line, ending),
    ensures
        ({
            let text = line + ending + seq!['\n'] + rest;
            let n = first_index(text, '\n');
            &&& n == line.len() + ending.len()
            &&& n < text.len()
            &&& trim_end_of(text.take(n), '\r') == line
            &&& text.skip(n + 1) == rest
        }),
{
    let ended = line + ending;
    let text = line + ending + seq!['\n'] + rest;
    if ended.contains('\n') {
        let i = choose|i: int| 0 <= i < ended.len() && ended[i] == '\n';
        if i < line.len() {
            assert(line.contains(line[i]));
        } else {
            assert(ending[i - line.len()] == '\r');
        }
    }
    first_index_after(ended, '\n', rest);
    assert(text.take(ended.len() as int) =~= ended);
    assert(text.skip(ended.len() as int + 1) =~= rest);
    trailing_runs_are_trimmed(line, ending, '\r');
}

/// A blank line ends an event, which is its data where there is any; a line that does
/// not begin with `data:` changes nothing; and text without a line break waits for
/// more.
pub proof fn lines_count_by_their_beginning(
    line: Seq<char>,
    ending: Seq<char>,
    rest: Seq<char>,
    data: Seq<char>,
)
    requires
        is_line(line, ending),
    ensures
        ({
            let here = Undecoded { pending: line + ending + seq!['\n'] + rest, data };
            let after = Undecoded { pending: rest, data };
            let names_data = line.len() >= 5 && line[0] == 'd' && line[1] == 'a' && line[2] == 't'
                && line[3] == 'a' && line[4] == ':';
            &&& line.len() == 0 && data.len() > 0 ==> first_event(here) == (
                Undecoded { pending: rest, data: Seq::empty() },
                Some(data),
            )
            &&& line.len() == 0 && data.len() == 0 ==> first_event(here) == first_event(after)
            &&& line.len() > 0 && !names_data ==> first_event(here) == first_event(after)
        }),
        first_event(Undecoded { pending: line, data }) == (
            Undecoded { pending: line, data },
            None::<Seq<char>>,
        ),
{
    first_lines_are_split_off(line, ending, rest);
    reveal_strlit("data:");
    if begins_with(line, "data:"@) {
        beginnings_are_prefixes("data:"@, Seq::empty(), line);
        assert(line[0] == "data:"@[0] && line[1] == "data:"@[1] && line[2] == "data:"@[2] && line[3]
            == "data:"@[3] && line[4] == "data:"@[4]);
    }
    first_index_bounds(line, '\n');
    let n = first_index(line, '\n');
    if n < line.len() {
        assert(line.contains(line[n]));
    }
}

/// A `data:` line adds its value, without the white space before it, to the data of
/// the event, whatever is there already and whatever follows.
pub proof fn data_lines_add_their_value(
    space: Seq<char>,
    value: Seq<char>,
    ending: Seq<char>,
    rest: Seq<char>,
    data: Seq<char>,
)
    requires
        is_line("data:"@ + space + value, ending),
        forall|k: int| 0 <= k < space.len() ==> white_space(#[trigger] space[k]),
        value.len() > 0 ==> !white_space(value[0]),
    ensures
        first_event(
            Undecoded {
                pending: "data:"@ + space + value + ending + seq!['\n'] + rest,
                data,
            },
        ) == first_event(Undecoded { pending: rest, data: data + value }),
{
    reveal_strlit("data:");
    let line = "data:"@ + space + value;
    first_lines_are_split_off(line, ending, rest);
    lemma_data_value(space, value, data);
}

proof fn lemma_data_value(space: Seq<char>, value: Seq<char>, data: Seq<char>)
    requires
        forall|k: int| 0 <= k < space.len() ==> white_space(#[trigger] space[k]),
        value.len() > 0 ==> !white_space(value[0]),
    ensures
        with_line(data, "data:"@ + space + value) == data + value,
{
    let line = "data:"@ + space + value;
    assert(line =~= "data:"@ + (space + value));
    beginnings_are_prefixes("data:"@, space + value, line);
    assert(line.skip("data:"@.len() as int) =~= space + value);
    leading_space_is_trimmed(space, value);
}

/// The end of the stream completes the event under way. A last line without a line
/// break adds its value, without the white space around it, where it begins with
/// `data:`, and nothing else.
pub proof fn last_lines_add_their_value(
    space: Seq<char>,
    value: Seq<char>,
    after: Seq<char>,
    line: Seq<char>,
    data: Seq<char>,
)
    requires
        forall|k: int| 0 <= k < space.len() ==> white_space(#[trigger] space[k]),
        forall|k: int| 0 <= k < after.len() ==> white_space(#[trigger] after[k]),
        value.len() > 0,
        !white_space(value[0]),
        !white_space(value.last()),
    ensures
        last_payload(Undecoded { pending: "data:"@ + space + value + after, data }) == data + value,
        last_payload(Undecoded { pending: "data:"@ + after, data }) == data,
        !(line.len() >= 5 && line[0] == 'd' && line[1] == 'a' && line[2] == 't' && line[3] == 'a'
            && line[4] == ':') ==> last_payload(Undecoded { pending: line, data }) == data,
{
    reveal_strlit("data:");
    let full = "data:"@ + space + value;
    assert(full.last() == value.last());
    trailing_space_is_trimmed(full, after);
    lemma_data_value(space, value, data);
    trailing_space_is_trimmed("data:"@, after);
    lemma_data_value(Seq::empty(), Seq::empty(), data);
    assert("data:"@ + Seq::<char>::empty() + Seq::<char>::empty() =~= "data:"@);
    assert(data + Seq::<char>::empty() =~= data);
    let kept = trim_end(line);
    lemma_trimmed_is_prefix(line);
    if begins_with(kept, "data:"@) {
        beginnings_are_prefixes("data:"@, Seq::empty(), kept);
        assert(kept[0] == "data:"@[0] && kept[1] == "data:"@[1] && kept[2] == "data:"@[2] && kept[3]
            == "data:"@[3] && kept[4] == "data:"@[4]);
        assert(line[0] == kept[0] && line[1] == kept[1] && line[2] == kept[2] && line[3] == kept[3]
            && line[4] == kept[4]);
    }
}

proof fn lemma_trimmed_is_prefix(s: Seq<char>)
    ensures
        trim_end(s).len() <= s.len(),
        forall|k: int| 0 <= k < trim_end(s).len() ==> #[trigger] trim_end(s)[k] == s[k],
    decreases s.len(),
{
    if s.len() > 0 && white_space(s.last()) {
        lemma_trimmed_is_prefix(s.drop_last());
    }
}

/// A message answers a request exactly where it has an id, whatever its result and
/// its error are.
pub proof fn messages_with_an_id_are_answers<V>(message: JsonRpcResponse<V>)
    ensures
        message.id is Some ==> answer(Some(message)) == Some(message),
        message.id is None ==> answer(Some(message)) is None,
        answer(None::<JsonRpcResponse<V>>) is None,
{
}

/// The events of a stream are read in order: one whose payload reads as a message with
/// an id is returned, any other is passed over, and nothing is returned before an
/// event is complete.
pub proof fn events_are_read_in_order<V>(
    s: Undecoded,
    p: spec_fn(Seq<char>) -> Option<JsonRpcResponse<V>>,
)
    ensures
        ({
            let (rest, event) = first_event(s);
            &&& event is None ==> first_answer(s, p) == (rest, None::<JsonRpcResponse<V>>)
            &&& event is Some && p(event->0) is Some && p(event->0)->0.id is Some
                ==> first_answer(s, p) == (rest, p(event->0))
            &&& event is Some && (p(event->0) is None || p(event->0)->0.id is None)
                ==> first_answer(s, p) == first_answer(rest, p)
        }),
{
}

/// A payload that reads as a message with an id, whatever its result and its error
/// are, is returned as soon as its event is complete, and by the end of the stream
/// where no blank line follows it.
pub proof fn responses_are_returned<V>(
    payload: Seq<char>,
    rest: Seq<char>,
    p: spec_fn(Seq<char>) -> Option<JsonRpcResponse<V>>,
)
    requires
        payload.len() > 0,
        !white_space(payload[0]),
        !white_space(payload.last()),
        !payload.contains('\n'),
        p(payload) is Some,
        p(payload)->0.id is Some,
    ensures
        ({
            let idle = Undecoded { pending: Seq::empty(), data: Seq::empty() };
            let event = "data: "@ + payload + seq!['\n'] + seq!['\n'] + rest;
            first_answer(idle.then_chunk(event), p) == (idle.then_chunk(rest), p(payload))
        }),
        ({
            let idle = Undecoded { pending: Seq::empty(), data: Seq::empty() };
            let unended = first_answer(idle.then_chunk("data: "@ + payload), p);
            unended.1 is None && answer(p(last_payload(unended.0))) == p(payload)
        }),
{
    answers_are_returned_at_once(payload, rest, p);
    last_events_need_no_blank_line(payload);
    let idle = Undecoded { pending: Seq::empty(), data: Seq::empty() };
    assert(idle.then_chunk("data: "@ + payload) =~= Undecoded {
        pending: "data: "@ + payload,
        data: Seq::empty(),
    });
}

/// A line that has not ended yet is no event and stays as it is, whatever it is.
pub proof fn unended_lines_wait_for_more(line: Seq<char>, data: Seq<char>)
    requires
        !line.contains('\n'),
    ensures
        first_event(Undecoded { pending: line, data }) == (
            Undecoded { pending: line, data },
            None::<Seq<char>>,
        ),
{
    first_index_bounds(line, '\n');
    let n = first_index(line, '\n');
    if n < line.len() {
        assert(line.contains(line[n]));
    }
}

/// A chunk is put behind the text that is not decoded yet and changes nothing else.
pub proof fn chunks_are_put_behind(s: Undecoded, chunk: Seq<char>)
    ensures
        s.then_chunk(chunk).pending == s.pending + chunk,
        s.then_chunk(chunk).data == s.data,
{
}

/// Incremental SSE decoder.
///
/// Holds at most one partial line plus one event's `data:` payload, so peak
/// memory is bounded by a single event rather than the whole stream.
pub struct SseDecoder {
    pending: Vec<char>,
    data: Vec<char>,
}

impl View for SseDecoder {
    type V = Undecoded;

    closed spec fn view(&self) -> Undecoded {
        Undecoded { pending: self.pending@, data: self.data@ }
    }
}

impl Default for SseDecoder {
    fn default() -> (r: Self)
        ensures
            r@ == (Undecoded { pending: Seq::empty(), data: Seq::empty() }),
    {
        SseDecoder { pending: Vec::new(), data: Vec::new() }
    }
}

impl SseDecoder {
    /// Takes the next complete event out of what has been fed so far and returns
    /// its payload.
    pub fn next_payload(&mut self) -> (r: Option<String>)
        ensures
            (final(self)@, r.deep_view()) == first_event(old(self)@),
            r is Some ==> final(self)@.pending.len() < old(self)@.pending.len(),
            r is None ==> !final(self)@.pending.contains('\n'),
    {
        let mut text: Vec<char> = Vec::new();
        std::mem::swap(&mut text, &mut self.pending);
        let mut at: usize = 0;
        assert(text@.skip(0) == text@);
        loop
            invariant
                at <= text@.len(),
                text@.len() == old(self)@.pending.len(),
                first_event(old(self)@) == first_event(
                    Undecoded { pending: text@.skip(at as int), data: self.data@ },
                ),
            decreases text@.len() - at,
        {
            let rest = slice_subrange(text.as_slice(), at, text.len());
            let n = index_of(rest, '\n');
            proof {
                first_index_bounds(rest@, '\n');
            }
            if n == rest.len() {
                self.pending = slice_to_vec(rest);
                return None;
            }
            let line = without_trailing(slice_subrange(rest, 0, n), '\r');
            at = at + n + 1;
            proof {
                assert(rest@.take(n as int) == rest@.subrange(0, n as int));
                assert(text@.skip(at as int) == rest@.skip(n + 1));
            }
            if line.len() > 0 {
                if let Some(value) = strip_prefix(line, "data:") {
                    append_chars(&mut self.data, without_leading_space(value));
                }
            } else if self.data.len() > 0 {
                let payload = to_text(self.data.as_slice());
                self.data = Vec::new();
                self.pending = slice_to_vec(slice_subrange(text.as_slice(), at, text.len()));
                return Some(payload);
            }
        }
    }

    /// Adds a chunk of the stream to what is undecoded.
    pub fn feed(&mut self, chunk: &str)
        ensures
            final(self)@ == old(self)@.then_chunk(chunk@),
    {
        append_chars(&mut self.pending, to_chars(chunk).as_slice());
    }

    /// Feed a chunk; returns the first complete JSON-RPC response it yields.
    ///
    /// `parse` reads the payload of one event. Notifications such as
    /// `notifications/progress`, which carry no id, are skipped.
    pub fn push<V, F: Fn(&str) -> Option<JsonRpcResponse<V>>>(
        &mut self,
        chunk: &str,
        parse: &F,
    ) -> (r: Option<JsonRpcResponse<V>>)
        requires
            forall|text: &str| call_requires(*parse, (text,)),
        ensures
            forall|p: spec_fn(Seq<char>) -> Option<JsonRpcResponse<V>>| #[trigger]
                parses_as(*parse, p) ==> (final(self)@, r) == first_answer(
                    old(self)@.then_chunk(chunk@),
                    p,
                ),
            r is Some ==> r->0.id is Some,
            r is None ==> !final(self)@.pending.contains('\n'),
    {
        self.feed(chunk);
        let ghost start = self@;
        loop
            invariant
                forall|text: &str| call_requires(*parse, (text,)),
                forall|p: spec_fn(Seq<char>) -> Option<JsonRpcResponse<V>>| #[trigger]
                    parses_as(*parse, p) ==> first_answer(start, p) == first_answer(self@, p),
                start == old(self)@.then_chunk(chunk@),
            decreases self@.pending.len(),
        {
            match self.next_payload() {
                None => {
                    return None;
                },
                Some(payload) => {
                    let parsed = parse(payload.as_str());
                    if let Some(response) = parsed {
                        if response.id.is_some() {
                            return Some(response);
                        }
                    }
                },
            }
        }
    }

    /// Feed a chunk as it came over the network; returns the first complete JSON-RPC
    /// response it yields.
    pub fn push_bytes<V, F: Fn(&str) -> Option<JsonRpcResponse<V>>>(
        &mut self,
        chunk: &[u8],
        parse: &F,
    ) -> (r: Option<JsonRpcResponse<V>>)
        requires
            forall|text: &str| call_requires(*parse, (text,)),
        ensures
            valid_utf8(chunk@) ==> utf8_lossy(chunk@) == decode_utf8(chunk@),
            forall|p: spec_fn(Seq<char>) -> Option<JsonRpcResponse<V>>| #[trigger]
                parses_as(*parse, p) ==> (final(self)@, r) == first_answer(
                    old(self)@.then_chunk(utf8_lossy(chunk@)),
                    p,
                ),
            r is Some ==> r->0.id is Some,
            r is None ==> !final(self)@.pending.contains('\n'),
    {
        let text = lossy_text(chunk);
        self.push(text.as_str(), parse)
    }

    /// Takes the payload of the event that the end of the stream completes.
    pub fn last_event(&mut self) -> (r: Option<String>)
        ensures
            final(self)@ == (Undecoded { pending: Seq::empty(), data: Seq::empty() }),
            r.deep_view() == (if last_payload(old(self)@).len() == 0 {
                None
            } else {
                Some(last_payload(old(self)@))
            }),
    {
        let mut pending: Vec<char> = Vec::new();
        std::mem::swap(&mut pending, &mut self.pending);
        let line = without_trailing_space(pending.as_slice());
        if let Some(value) = strip_prefix(line, "data:") {
            append_chars(&mut self.data, without_leading_space(value));
        }
        if self.data.len() == 0 {
            return None;
        }
        let payload = to_text(self.data.as_slice());
        self.data = Vec::new();
        Some(payload)
    }

    /// Flush a final event that arrived without a trailing blank line.
    pub fn finish<V, F: Fn(&str) -> Option<JsonRpcResponse<V>>>(&mut self, parse: &F) -> (r: Option<
        JsonRpcResponse<V>,
    >)
        requires
            forall|text: &str| call_requires(*parse, (text,)),
        ensures
            final(self)@ == (Undecoded { pending: Seq::empty(), data: Seq::empty() }),
            last_payload(old(self)@).len() == 0 ==> r is None,
            forall|p: spec_fn(Seq<char>) -> Option<JsonRpcResponse<V>>| #[trigger]
                parses_as(*parse, p) && last_payload(old(self)@).len() > 0 ==> r == answer(
                    p(last_payload(old(self)@)),
                ),
            forall|p: spec_fn(Seq<char>) -> Option<JsonRpcResponse<V>>| #[trigger]
                parses_as(*parse, p) && last_payload(old(self)@).len() > 0 ==> ({
                    let parsed = p(last_payload(old(self)@));
                    r == (if parsed is Some && parsed->0.id is Some {
                        parsed
                    } else {
                        None
                    })
                }),
            r is Some ==> r->0.id is Some,
    {
        match self.last_event() {
            None => None,
            Some(payload) => {
                let parsed = parse(payload.as_str());
                match parsed {
                    Some(response) => {
                        if response.id.is_some() {
                            Some(response)
                        } else {
                            None
                        }
                    },
                    None => None,
                }
            },
        }
    }
}

} // verus!
