//! Incremental decoding of a stream of named events.

use crate::http::decoder::{first_lines_are_split_off, fits_line, is_line};
use crate::protocol::{parses_as, JsonRpcResponse};
use crate::text::{
    append_chars, beginnings_are_prefixes, begins_with, first_index, first_index_after,
    first_index_append, first_index_bounds, index_of, leading_space_is_trimmed, lossy_text, only,
    outer_space_is_trimmed, same_text, strip_prefix, to_chars, to_text, trim, trim_end_of,
    trim_start, utf8_lossy, white_space, without_leading_space, without_outer_space,
    without_trailing,
};
use vstd::prelude::*;
use vstd::slice::{slice_subrange, slice_to_vec};
use vstd::utf8::{decode_utf8, valid_utf8};

verus! {

/// One event of a stream: its name and its payload.
#[verifier::ext_equal]
pub struct Frame {
    pub event: Seq<char>,
    pub data: Seq<char>,
}

/// What a decoder remembers: text that is not decoded yet, and the name and the
/// payload of the event under way.
#[verifier::ext_equal]
pub struct Undecoded {
    pub pending: Seq<char>,
    pub event: Seq<char>,
    pub data: Seq<char>,
}

impl Undecoded {
    /// The same, with `chunk` arrived after it.
    pub open spec fn then_chunk(self, chunk: Seq<char>) -> Undecoded {
        Undecoded { pending: self.pending + chunk, event: self.event, data: self.data }
    }
}

/// `s` after one line of the stream, which is not part of `s.pending` any more,
/// and the event that the line completes.
///
/// An `event:` line names the event, a `data:` line adds a line to its payload,
/// and a blank line completes it, unless the payload is empty.
pub open spec fn after_line(s: Undecoded, line: Seq<char>) -> (Undecoded, Seq<Frame>) {
    if line.len() == 0 {
        (
            Undecoded { pending: s.pending, event: Seq::empty(), data: Seq::empty() },
            if s.data.len() == 0 {
                Seq::empty()
            } else {
                seq![Frame { event: s.event, data: s.data }]
            },
        )
    } else if begins_with(line, "event:"@) {
        (
            Undecoded {
                pending: s.pending,
                event: trim(line.skip("event:"@.len() as int)),
                data: s.data,
            },
            Seq::empty(),
        )
    } else if begins_with(line, "data:"@) {
        let value = trim_start(line.skip("data:"@.len() as int));
        (
            Undecoded {
                pending: s.pending,
                event: s.event,
                data: if s.data.len() == 0 {
                    value
                } else {
                    s.data.push('\n') + value
                },
            },
            Seq::empty(),
        )
    } else {
        (s, Seq::empty())
    }
}

/// Every event that is complete in what is undecoded, and what is left after them.
pub open spec fn all_frames(s: Undecoded) -> (Undecoded, Seq<Frame>)
    decreases s.pending.len(),
{
    let n = first_index(s.pending, '\n');
    if n < 0 || n >= s.pending.len() {
        (s, Seq::empty())
    } else {
        let line = trim_end_of(s.pending.take(n), '\r');
        let rest = Undecoded {
            pending: s.pending.skip(n + 1),
            event: s.event,
            data: s.data,
        };
        let (next, here) = after_line(rest, line);
        let (left, later) = all_frames(next);
        (left, here + later)
    }
}

/// What is undecoded once the stream has ended: the last line counts as ended too.
pub open spec fn at_end(s: Undecoded) -> Undecoded {
    if s.pending.len() == 0 {
        s
    } else {
        s.then_chunk(seq!['\n'])
    }
}

/// What an event says: an `endpoint` event announces where to post messages, any
/// other carries a message, if `p` can read its payload as one.
pub open spec fn meaning<V>(
    frame: Frame,
    p: spec_fn(Seq<char>) -> Option<JsonRpcResponse<V>>,
) -> Option<Event<V>> {
    if frame.event == "endpoint"@ {
        Some(Event::Endpoint(frame.data))
    } else {
        match p(frame.data) {
            Some(response) => Some(Event::Message(response)),
            None => None,
        }
    }
}

/// What a sequence of events says.
pub open spec fn meanings<V>(
    frames: Seq<Frame>,
    p: spec_fn(Seq<char>) -> Option<JsonRpcResponse<V>>,
) -> Seq<Event<V>>
    decreases frames.len(),
{
    if frames.len() == 0 {
        Seq::empty()
    } else {
        let before = meanings(frames.drop_last(), p);
        match meaning(frames.last(), p) {
            Some(event) => before.push(event),
            None => before,
        }
    }
}

/// An event as a mathematical value.
pub enum Event<V> {
    Endpoint(Seq<char>),
    Message(JsonRpcResponse<V>),
}

proof fn lemma_frames_append(s: Undecoded, more: Seq<char>)
    ensures
        all_frames(s.then_chunk(more)) == (
            all_frames(all_frames(s).0.then_chunk(more)).0,
            all_frames(s).1 + all_frames(all_frames(s).0.then_chunk(more)).1,
        ),
        !all_frames(s).0.pending.contains('\n'),
    decreases s.pending.len(),
{
    let n = first_index(s.pending, '\n');
    first_index_bounds(s.pending, '\n');
    first_index_append(s.pending, more, '\n');
    if n < s.pending.len() {
        let longer = s.pending + more;
        assert(longer.take(n) == s.pending.take(n));
        assert(longer.skip(n + 1) == s.pending.skip(n + 1) + more);
        let line = trim_end_of(s.pending.take(n), '\r');
        let rest = Undecoded { pending: s.pending.skip(n + 1), event: s.event, data: s.data };
        let (next, here) = after_line(rest, line);
        assert(after_line(rest.then_chunk(more), line) == (next.then_chunk(more), here));
        lemma_frames_append(next, more);
        let later = all_frames(next).1;
        let last = all_frames(all_frames(next).0.then_chunk(more)).1;
        assert(here + (later + last) =~= (here + later) + last);
    } else {
        let last = all_frames(s.then_chunk(more)).1;
        assert(Seq::<Frame>::empty() + last =~= last);
    }
}

/// Two chunks pushed one after the other give the same events, in the same
/// order, and leave the same text undecoded, as both pushed at once.
pub proof fn frames_ignore_chunk_boundaries(s: Undecoded, first: Seq<char>, second: Seq<char>)
    ensures
        all_frames(s.then_chunk(first + second)) == (
            all_frames(all_frames(s.then_chunk(first)).0.then_chunk(second)).0,
            all_frames(s.then_chunk(first)).1 + all_frames(
                all_frames(s.then_chunk(first)).0.then_chunk(second),
            ).1,
        ),
{
    assert(s.then_chunk(first).then_chunk(second) =~= s.then_chunk(first + second));
    lemma_frames_append(s.then_chunk(first), second);
}

/// A name and a payload that are sent as one event are what the event yields,
/// whatever follows it.
pub proof fn events_yield_what_was_sent(name: Seq<char>, payload: Seq<char>, rest: Seq<char>)
    requires
        fits_line(name),
        !white_space(name.last()),
        fits_line(payload),
    ensures
        ({
            let sent = "event: "@ + name + seq!['\n'] + "data: "@ + payload + seq!['\n']
                + seq!['\n'];
            let idle = Undecoded {
                pending: Seq::empty(),
                event: Seq::empty(),
                data: Seq::empty(),
            };
            all_frames(idle.then_chunk(sent + rest)) == (
                all_frames(idle.then_chunk(rest)).0,
                seq![Frame { event: name, data: payload }] + all_frames(idle.then_chunk(rest)).1,
            )
        }),
{
    let first = "event: "@ + name;
    let second = "data: "@ + payload;
    let sent = first + seq!['\n'] + "data: "@ + payload + seq!['\n'] + seq!['\n'];
    let idle = Undecoded { pending: Seq::empty(), event: Seq::empty(), data: Seq::empty() };
    let third = seq!['\n'] + rest;
    let later = second + seq!['\n'] + third;
    let start = idle.then_chunk(sent + rest);
    assert(start.pending =~= first + seq!['\n'] + later);
    lemma_event_line(name);
    lemma_line_off(start, first, later);
    let named = Undecoded { pending: later, event: name, data: Seq::empty() };
    lemma_data_line(payload);
    lemma_line_off(named, second, third);
    let filled = Undecoded { pending: third, event: name, data: payload };
    assert(third =~= Seq::<char>::empty() + seq!['\n'] + rest);
    lemma_line_off(filled, Seq::empty(), rest);
    assert(idle.then_chunk(rest) =~= Undecoded {
        pending: rest,
        event: Seq::empty(),
        data: Seq::empty(),
    });
    let tail = all_frames(idle.then_chunk(rest)).1;
    let frame = seq![Frame { event: name, data: payload }];
    assert(Seq::<Frame>::empty() + (frame + tail) =~= frame + tail);
}

/// A line that is complete is decoded first.
proof fn lemma_line_off(s: Undecoded, line: Seq<char>, rest: Seq<char>)
    requires
        s.pending == line + seq!['\n'] + rest,
        !line.contains('\n'),
        line.len() > 0 ==> line.last() != '\r',
    ensures
        ({
            let (next, here) = after_line(
                Undecoded { pending: rest, event: s.event, data: s.data },
                line,
            );
            all_frames(s) == (all_frames(next).0, here + all_frames(next).1)
        }),
{
    first_index_after(line, '\n', rest);
    assert(s.pending.take(line.len() as int) =~= line);
    assert(s.pending.skip(line.len() as int + 1) =~= rest);
    assert(trim_end_of(line, '\r') == line) by {
        if line.len() > 0 {
            assert(!only('\r')(line.last()));
        }
    }
}

proof fn lemma_event_line(name: Seq<char>)
    requires
        fits_line(name),
        !white_space(name.last()),
    ensures
        !("event: "@ + name).contains('\n'),
        ("event: "@ + name).last() != '\r',
        ("event: "@ + name).len() > 0,
        begins_with("event: "@ + name, "event:"@),
        trim(("event: "@ + name).skip("event:"@.len() as int)) == name,
{
    reveal_strlit("event: ");
    reveal_strlit("event:");
    let line = "event: "@ + name;
    if line.contains('\n') {
        let i = choose|i: int| 0 <= i < line.len() && line[i] == '\n';
        assert(name[i - 7] == line[i]);
        assert(name.contains(name[i - 7]));
    }
    assert(line.last() == name.last());
    assert(line.subrange(0, 6) =~= "event:"@);
    let value = line.skip(6);
    assert(value.drop_first() =~= name);
    assert(value[0] == ' ');
    reveal_with_fuel(crate::text::drop_leading, 2);
    assert(trim_start(value) == name);
}

proof fn lemma_data_line(payload: Seq<char>)
    requires
        fits_line(payload),
    ensures
        !("data: "@ + payload).contains('\n'),
        ("data: "@ + payload).last() != '\r',
        ("data: "@ + payload).len() > 0,
        begins_with("data: "@ + payload, "data:"@),
        !begins_with("data: "@ + payload, "event:"@),
        trim_start(("data: "@ + payload).skip("data:"@.len() as int)) == payload,
{
    reveal_strlit("data: ");
    reveal_strlit("data:");
    reveal_strlit("event:");
    let line = "data: "@ + payload;
    if line.contains('\n') {
        let i = choose|i: int| 0 <= i < line.len() && line[i] == '\n';
        assert(payload[i - 6] == line[i]);
        assert(payload.contains(payload[i - 6]));
    }
    assert(line.last() == payload.last());
    assert(line.subrange(0, 5) =~= "data:"@);
    if begins_with(line, "event:"@) {
        assert(line.subrange(0, 6)[0] == 'd');
        assert("event:"@[0] == 'e');
    }
    let value = line.skip(5);
    assert(value.drop_first() =~= payload);
    assert(value[0] == ' ');
    reveal_with_fuel(crate::text::drop_leading, 2);
    assert(trim_start(value) == payload);
}

/// What events say is told one event at a time.
pub proof fn meanings_of_concatenation<V>(
    first: Seq<Frame>,
    second: Seq<Frame>,
    p: spec_fn(Seq<char>) -> Option<JsonRpcResponse<V>>,
)
    ensures
        meanings(first + second, p) == meanings(first, p) + meanings(second, p),
    decreases second.len(),
{
    if second.len() == 0 {
        assert(first + second =~= first);
        assert(meanings(first, p) + meanings(second, p) =~= meanings(first, p));
    } else {
        assert((first + second).drop_last() =~= first + second.drop_last());
        meanings_of_concatenation(first, second.drop_last(), p);
        assert(meanings(first + second, p) =~= meanings(first, p) + meanings(second, p));
    }
}

/// One event of a stream: its name and its payload.
#[derive(Debug)]
pub struct SseFrame {
    pub event: String,
    pub data: String,
}

impl DeepView for SseFrame {
    type V = Frame;

    open spec fn deep_view(&self) -> Frame {
        Frame { event: self.event@, data: self.data@ }
    }
}

/// What an event says.
#[derive(Debug)]
pub enum SseEvent<V> {
    /// Where messages to the server are posted.
    Endpoint(String),
    /// A message from the server.
    Message(JsonRpcResponse<V>),
}

impl<V> DeepView for SseEvent<V> {
    type V = Event<V>;

    open spec fn deep_view(&self) -> Event<V> {
        match *self {
            SseEvent::Endpoint(url) => Event::Endpoint(url@),
            SseEvent::Message(response) => Event::Message(response),
        }
    }
}

/// Incremental decoder of named events.
pub struct SseDecoder {
    pending: Vec<char>,
    event: Vec<char>,
    data: Vec<char>,
}

impl View for SseDecoder {
    type V = Undecoded;

    closed spec fn view(&self) -> Undecoded {
        Undecoded { pending: self.pending@, event: self.event@, data: self.data@ }
    }
}

impl Default for SseDecoder {
    fn default() -> (r: Self)
        ensures
            r@ == (Undecoded {
                pending: Seq::empty(),
                event: Seq::empty(),
                data: Seq::empty(),
            }),
    {
        SseDecoder { pending: Vec::new(), event: Vec::new(), data: Vec::new() }
    }
}

impl SseDecoder {
    /// Decodes one line that has been taken off the stream.
    fn take_line(&mut self, line: &[char]) -> (r: Option<SseFrame>)
        ensures
            final(self)@ == after_line(old(self)@, line@).0,
            r is None ==> after_line(old(self)@, line@).1 == Seq::<Frame>::empty(),
            r matches Some(frame) ==> after_line(old(self)@, line@).1 == seq![frame.deep_view()],
    {
        if line.len() == 0 {
            let mut event: Vec<char> = Vec::new();
            std::mem::swap(&mut event, &mut self.event);
            let mut data: Vec<char> = Vec::new();
            std::mem::swap(&mut data, &mut self.data);
            if data.len() == 0 {
                return None;
            }
            return Some(
                SseFrame { event: to_text(event.as_slice()), data: to_text(data.as_slice()) },
            );
        }
        if let Some(value) = strip_prefix(line, "event:") {
            self.event = slice_to_vec(without_outer_space(value));
        } else if let Some(value) = strip_prefix(line, "data:") {
            if self.data.len() > 0 {
                self.data.push('\n');
            }
            append_chars(&mut self.data, without_leading_space(value));
        }
        None
    }

    /// Feed a chunk; returns the events that it completes.
    pub fn push_frames(&mut self, chunk: &str) -> (r: Vec<SseFrame>)
        ensures
            (final(self)@, r.deep_view()) == all_frames(old(self)@.then_chunk(chunk@)),
            !final(self)@.pending.contains('\n'),
    {
        let mut text: Vec<char> = Vec::new();
        std::mem::swap(&mut text, &mut self.pending);
        append_chars(&mut text, to_chars(chunk).as_slice());
        let mut frames: Vec<SseFrame> = Vec::new();
        let mut at: usize = 0;
        let ghost start = old(self)@.then_chunk(chunk@);
        proof {
            assert(text@.skip(0) == text@);
            assert(start =~= self@.then_chunk(text@));
            lemma_frames_append(start, Seq::empty());
        }
        loop
            invariant
                at <= text@.len(),
                self@.pending.len() == 0,
                start == old(self)@.then_chunk(chunk@),
                !all_frames(start).0.pending.contains('\n'),
                all_frames(start).0 == all_frames(self@.then_chunk(text@.skip(at as int))).0,
                all_frames(start).1 == frames.deep_view() + all_frames(
                    self@.then_chunk(text@.skip(at as int)),
                ).1,
            decreases text@.len() - at,
        {
            let rest = slice_subrange(text.as_slice(), at, text.len());
            let n = index_of(rest, '\n');
            let ghost now = self@.then_chunk(rest@);
            assert(now.pending =~= rest@);
            proof {
                first_index_bounds(rest@, '\n');
            }
            if n == rest.len() {
                self.pending = slice_to_vec(rest);
                assert(self@ =~= now);
                return frames;
            }
            let line = without_trailing(slice_subrange(rest, 0, n), '\r');
            at = at + n + 1;
            let ghost before = self@;
            let ghost had = frames.deep_view();
            let frame = self.take_line(line);
            proof {
                assert(rest@.take(n as int) == rest@.subrange(0, n as int));
                assert(text@.skip(at as int) == rest@.skip(n + 1));
                let left = Undecoded {
                    pending: rest@.skip(n + 1),
                    event: before.event,
                    data: before.data,
                };
                assert(after_line(left, line@).0 =~= self@.then_chunk(text@.skip(at as int)));
                assert(after_line(left, line@).1 == after_line(before, line@).1);
            }
            if let Some(frame) = frame {
                frames.push(frame);
                assert(frames.deep_view() =~= had + seq![frame.deep_view()]);
            }
        }
    }

    /// Feed a chunk as it came over the network; returns the events that it
    /// completes.
    pub fn push_frame_bytes(&mut self, chunk: &[u8]) -> (r: Vec<SseFrame>)
        ensures
            valid_utf8(chunk@) ==> utf8_lossy(chunk@) == decode_utf8(chunk@),
            (final(self)@, r.deep_view()) == all_frames(
                old(self)@.then_chunk(utf8_lossy(chunk@)),
            ),
            !final(self)@.pending.contains('\n'),
    {
        let text = lossy_text(chunk);
        self.push_frames(text.as_str())
    }

    /// Ends the stream; returns the events that its end completes.
    pub fn finish_frames(&mut self) -> (r: Vec<SseFrame>)
        ensures
            (final(self)@, r.deep_view()) == all_frames(at_end(old(self)@)),
            !final(self)@.pending.contains('\n'),
    {
        if self.pending.len() > 0 {
            self.pending.push('\n');
        }
        assert(at_end(old(self)@) =~= self@.then_chunk(""@)) by {
            reveal_strlit("");
            assert(self@.pending + ""@ =~= self@.pending);
            assert(self.pending@.len() > 1 ==> self.pending@ =~= old(self).pending@ + seq!['\n']);
        }
        self.push_frames("")
    }

    /// Feed a chunk; returns what the events that it completes say. `parse` reads
    /// the payload of a message; events that it cannot read are skipped.
    pub fn push<V, F: Fn(&str) -> Option<JsonRpcResponse<V>>>(
        &mut self,
        chunk: &str,
        parse: &F,
    ) -> (r: Vec<SseEvent<V>>)
        requires
            forall|text: &str| call_requires(*parse, (text,)),
        ensures
            final(self)@ == all_frames(old(self)@.then_chunk(chunk@)).0,
            !final(self)@.pending.contains('\n'),
            forall|p: spec_fn(Seq<char>) -> Option<JsonRpcResponse<V>>| #[trigger]
                parses_as(*parse, p) ==> r.deep_view() == meanings(
                    all_frames(old(self)@.then_chunk(chunk@)).1,
                    p,
                ),
    {
        let frames = self.push_frames(chunk);
        interpret_all(frames, parse)
    }

    /// Feed a chunk as it came over the network; returns what the events that it
    /// completes say.
    pub fn push_bytes<V, F: Fn(&str) -> Option<JsonRpcResponse<V>>>(
        &mut self,
        chunk: &[u8],
        parse: &F,
    ) -> (r: Vec<SseEvent<V>>)
        requires
            forall|text: &str| call_requires(*parse, (text,)),
        ensures
            valid_utf8(chunk@) ==> utf8_lossy(chunk@) == decode_utf8(chunk@),
            final(self)@ == all_frames(old(self)@.then_chunk(utf8_lossy(chunk@))).0,
            !final(self)@.pending.contains('\n'),
            forall|p: spec_fn(Seq<char>) -> Option<JsonRpcResponse<V>>| #[trigger]
                parses_as(*parse, p) ==> r.deep_view() == meanings(
                    all_frames(old(self)@.then_chunk(utf8_lossy(chunk@))).1,
                    p,
                ),
    {
        let text = lossy_text(chunk);
        self.push(text.as_str(), parse)
    }

    /// Ends the stream; returns what the events that its end completes say.
    pub fn finish<V, F: Fn(&str) -> Option<JsonRpcResponse<V>>>(&mut self, parse: &F) -> (r: Vec<
        SseEvent<V>,
    >)
        requires
            forall|text: &str| call_requires(*parse, (text,)),
        ensures
            final(self)@ == all_frames(at_end(old(self)@)).0,
            !final(self)@.pending.contains('\n'),
            forall|p: spec_fn(Seq<char>) -> Option<JsonRpcResponse<V>>| #[trigger]
                parses_as(*parse, p) ==> r.deep_view() == meanings(
                    all_frames(at_end(old(self)@)).1,
                    p,
                ),
    {
        let frames = self.finish_frames();
        interpret_all(frames, parse)
    }
}

/// What an event says, given its payload as a message if it can be read as one.
/// `None` for the message of an `endpoint` event makes no difference.
pub fn interpret<V>(frame: SseFrame, parsed: Option<JsonRpcResponse<V>>) -> (r: Option<SseEvent<V>>)
    ensures
        frame.event@ == "endpoint"@ ==> (r matches Some(event) && event.deep_view()
            == Event::<V>::Endpoint(frame.data@)),
        frame.event@ != "endpoint"@ ==> r == (match parsed {
            Some(response) => Some(SseEvent::Message(response)),
            None => None,
        }),
{
    if is_endpoint(&frame) {
        Some(SseEvent::Endpoint(frame.data))
    } else {
        match parsed {
            Some(response) => Some(SseEvent::Message(response)),
            None => None,
        }
    }
}

/// Whether the event announces where messages are posted.
pub fn is_endpoint(frame: &SseFrame) -> (r: bool)
    ensures
        r == (frame.event@ == "endpoint"@),
{
    same_text(frame.event.as_str(), "endpoint")
}

/// What a sequence of events says.
fn interpret_all<V, F: Fn(&str) -> Option<JsonRpcResponse<V>>>(
    frames: Vec<SseFrame>,
    parse: &F,
) -> (r: Vec<SseEvent<V>>)
    requires
        forall|text: &str| call_requires(*parse, (text,)),
    ensures
        forall|p: spec_fn(Seq<char>) -> Option<JsonRpcResponse<V>>| #[trigger]
            parses_as(*parse, p) ==> r.deep_view() == meanings(frames.deep_view(), p),
{
    let mut events: Vec<SseEvent<V>> = Vec::new();
    let ghost all = frames.deep_view();
    for frame in it: frames
        invariant
            forall|text: &str| call_requires(*parse, (text,)),
            it.seq() == frames@,
            all == frames.deep_view(),
            forall|p: spec_fn(Seq<char>) -> Option<JsonRpcResponse<V>>| #[trigger]
                parses_as(*parse, p) ==> events.deep_view() == meanings(
                    all.take(it.index() as int),
                    p,
                ),
    {
        let ghost i = it.index() as int;
        let ghost had = events.deep_view();
        proof {
            assert(all.take(i + 1).drop_last() =~= all.take(i));
            assert(all.take(i + 1).last() == frame.deep_view());
        }
        let parsed = if is_endpoint(&frame) {
            None
        } else {
            parse(frame.data.as_str())
        };
        if let Some(event) = interpret(frame, parsed) {
            events.push(event);
            assert(events.deep_view() =~= had.push(event.deep_view()));
        }
    }
    assert(all.take(all.len() as int) =~= all);
    events
}

/// The endpoint that the first `endpoint` event announces.
pub open spec fn announced(frames: Seq<Frame>) -> Option<Seq<char>>
    decreases frames.len(),
{
    if frames.len() == 0 {
        None
    } else if frames[0].event == "endpoint"@ {
        Some(frames[0].data)
    } else {
        announced(frames.drop_first())
    }
}

/// The first endpoint among what events say.
pub open spec fn endpoint_among<V>(events: Seq<Event<V>>) -> Option<Seq<char>>
    decreases events.len(),
{
    if events.len() == 0 {
        None
    } else if let Event::Endpoint(url) = events[0] {
        Some(url)
    } else {
        endpoint_among(events.drop_first())
    }
}

/// The endpoint that `frames` announce.
pub fn first_endpoint(frames: &Vec<SseFrame>) -> (r: Option<String>)
    ensures
        r.deep_view() == announced(frames.deep_view()),
{
    let ghost all = frames.deep_view();
    assert(all.skip(0) =~= all);
    for i in 0..frames.len()
        invariant
            all == frames.deep_view(),
            announced(all) == announced(all.skip(i as int)),
    {
        proof {
            assert(all.skip(i as int)[0] == frames@[i as int].deep_view());
            assert(all.skip(i as int).drop_first() =~= all.skip(i + 1));
        }
        if is_endpoint(&frames[i]) {
            return Some(frames[i].data.clone());
        }
    }
    None
}

/// Which endpoint is announced does not depend on how messages are read.
pub proof fn announcements_need_no_parser<V>(
    frames: Seq<Frame>,
    p: spec_fn(Seq<char>) -> Option<JsonRpcResponse<V>>,
)
    ensures
        endpoint_among(meanings(frames, p)) == announced(frames),
    decreases frames.len(),
{
    if frames.len() > 0 {
        let first = seq![frames[0]];
        let rest = frames.drop_first();
        assert(frames =~= first + rest);
        meanings_of_concatenation(first, rest, p);
        announcements_need_no_parser(rest, p);
        assert(first.drop_last() =~= Seq::<Frame>::empty());
        reveal_with_fuel(meanings, 2);
        let events = meanings(frames, p);
        match meaning(frames[0], p) {
            Some(event) => {
                assert(meanings(first, p) =~= seq![event]);
                assert(events[0] == event);
                assert(events.drop_first() =~= meanings(rest, p));
            },
            None => {
                assert(meanings(first, p) =~= Seq::<Event<V>>::empty());
                assert(events =~= meanings(rest, p));
            },
        }
    }
}

/// Whether `line` begins with `data:`.
spec fn names_data(line: Seq<char>) -> bool {
    line.len() >= 5 && line[0] == 'd' && line[1] == 'a' && line[2] == 't' && line[3] == 'a'
        && line[4] == ':'
}

/// Whether `line` begins with `event:`.
spec fn names_event(line: Seq<char>) -> bool {
    line.len() >= 6 && line[0] == 'e' && line[1] == 'v' && line[2] == 'e' && line[3] == 'n'
        && line[4] == 't' && line[5] == ':'
}

proof fn lemma_beginnings(line: Seq<char>)
    ensures
        begins_with(line, "data:"@) == names_data(line),
        begins_with(line, "event:"@) == names_event(line),
{
    reveal_strlit("data:");
    reveal_strlit("event:");
    if begins_with(line, "data:"@) {
        beginnings_are_prefixes("data:"@, Seq::empty(), line);
        assert(line[0] == "data:"@[0] && line[1] == "data:"@[1] && line[2] == "data:"@[2] && line[3]
            == "data:"@[3] && line[4] == "data:"@[4]);
    }
    if begins_with(line, "event:"@) {
        beginnings_are_prefixes("event:"@, Seq::empty(), line);
        assert(line[0] == "event:"@[0] && line[1] == "event:"@[1] && line[2] == "event:"@[2]
            && line[3] == "event:"@[3] && line[4] == "event:"@[4] && line[5] == "event:"@[5]);
    }
    if names_data(line) {
        assert(line.subrange(0, 5) =~= "data:"@);
    }
    if names_event(line) {
        assert(line.subrange(0, 6) =~= "event:"@);
    }
}

proof fn lemma_first_line(s: Undecoded, line: Seq<char>, ending: Seq<char>, rest: Seq<char>)
    requires
        is_line(line, ending),
        s.pending == line + ending + seq!['\n'] + rest,
    ensures
        ({
            let (next, here) = after_line(
                Undecoded { pending: rest, event: s.event, data: s.data },
                line,
            );
            all_frames(s) == (all_frames(next).0, here + all_frames(next).1)
        }),
{
    first_lines_are_split_off(line, ending, rest);
}

/// A line that is neither blank nor begins with `event:` or `data:`, such as an `id:`
/// line or a comment, changes nothing, whatever event is under way.
pub proof fn other_lines_are_ignored(
    line: Seq<char>,
    ending: Seq<char>,
    rest: Seq<char>,
    event: Seq<char>,
    data: Seq<char>,
)
    requires
        is_line(line, ending),
        line.len() > 0,
        !(line.len() >= 5 && line[0] == 'd' && line[1] == 'a' && line[2] == 't' && line[3] == 'a'
            && line[4] == ':'),
        !(line.len() >= 6 && line[0] == 'e' && line[1] == 'v' && line[2] == 'e' && line[3] == 'n'
            && line[4] == 't' && line[5] == ':'),
    ensures
        all_frames(
            Undecoded { pending: line + ending + seq!['\n'] + rest, event, data },
        ) == all_frames(Undecoded { pending: rest, event, data }),
{
    lemma_beginnings(line);
    lemma_first_line(
        Undecoded { pending: line + ending + seq!['\n'] + rest, event, data },
        line,
        ending,
        rest,
    );
    let later = all_frames(Undecoded { pending: rest, event, data }).1;
    assert(Seq::<Frame>::empty() + later =~= later);
}

/// A blank line ends the event under way: it is handed out with its name and its data
/// where it has data, and in either case neither is left for the next.
pub proof fn blank_lines_end_events(
    ending: Seq<char>,
    rest: Seq<char>,
    event: Seq<char>,
    data: Seq<char>,
)
    requires
        forall|k: int| 0 <= k < ending.len() ==> #[trigger] ending[k] == '\r',
    ensures
        ({
            let here = Undecoded { pending: ending + seq!['\n'] + rest, event, data };
            let next = all_frames(
                Undecoded { pending: rest, event: Seq::empty(), data: Seq::empty() },
            );
            &&& all_frames(here).0 == next.0
            &&& data.len() == 0 ==> all_frames(here).1 == next.1
            &&& data.len() > 0 ==> all_frames(here).1 == seq![Frame { event, data }] + next.1
        }),
{
    let blank = Seq::<char>::empty();
    let here = Undecoded { pending: ending + seq!['\n'] + rest, event, data };
    assert(here.pending =~= blank + ending + seq!['\n'] + rest);
    lemma_first_line(here, blank, ending, rest);
    let later = all_frames(
        Undecoded { pending: rest, event: Seq::empty(), data: Seq::empty() },
    ).1;
    assert(Seq::<Frame>::empty() + later =~= later);
}

/// An `event:` line names the event under way, in place of any other name, and leaves
/// its data alone.
pub proof fn event_lines_name_the_event(
    before: Seq<char>,
    name: Seq<char>,
    after: Seq<char>,
    ending: Seq<char>,
    rest: Seq<char>,
    event: Seq<char>,
    data: Seq<char>,
)
    requires
        is_line("event:"@ + before + name + after, ending),
        forall|k: int| 0 <= k < before.len() ==> white_space(#[trigger] before[k]),
        forall|k: int| 0 <= k < after.len() ==> white_space(#[trigger] after[k]),
        name.len() > 0,
        !white_space(name[0]),
        !white_space(name.last()),
    ensures
        all_frames(
            Undecoded {
                pending: "event:"@ + before + name + after + ending + seq!['\n'] + rest,
                event,
                data,
            },
        ) == all_frames(Undecoded { pending: rest, event: name, data }),
{
    reveal_strlit("event:");
    let line = "event:"@ + before + name + after;
    lemma_beginnings(line);
    let here = Undecoded { pending: line + ending + seq!['\n'] + rest, event, data };
    lemma_first_line(here, line, ending, rest);
    assert(line.skip("event:"@.len() as int) =~= before + name + after);
    outer_space_is_trimmed(before, name, after);
    let later = all_frames(Undecoded { pending: rest, event: name, data }).1;
    assert(Seq::<Frame>::empty() + later =~= later);
}

/// A `data:` line adds a line to the data of the event under way, which keeps its
/// name; the first line is the data itself, any other stands behind a line break.
pub proof fn data_lines_add_a_line(
    space: Seq<char>,
    value: Seq<char>,
    ending: Seq<char>,
    rest: Seq<char>,
    event: Seq<char>,
    data: Seq<char>,
)
    requires
        is_line("data:"@ + space + value, ending),
        forall|k: int| 0 <= k < space.len() ==> white_space(#[trigger] space[k]),
        value.len() > 0 ==> !white_space(value[0]),
    ensures
        ({
            let here = Undecoded {
                pending: "data:"@ + space + value + ending + seq!['\n'] + rest,
                event,
                data,
            };
            &&& data.len() == 0 ==> all_frames(here) == all_frames(
                Undecoded { pending: rest, event, data: value },
            )
            &&& data.len() > 0 ==> all_frames(here) == all_frames(
                Undecoded { pending: rest, event, data: data + seq!['\n'] + value },
            )
        }),
{
    reveal_strlit("data:");
    let line = "data:"@ + space + value;
    lemma_beginnings(line);
    let here = Undecoded { pending: line + ending + seq!['\n'] + rest, event, data };
    lemma_first_line(here, line, ending, rest);
    assert(line.skip("data:"@.len() as int) =~= space + value);
    leading_space_is_trimmed(space, value);
    let after = if data.len() == 0 {
        value
    } else {
        data + seq!['\n'] + value
    };
    assert(data.len() > 0 ==> data.push('\n') + value =~= after);
    let later = all_frames(Undecoded { pending: rest, event, data: after }).1;
    assert(Seq::<Frame>::empty() + later =~= later);
}

/// Text without a line break waits for more, and the end of the stream ends it like a
/// line break.
pub proof fn unended_lines_wait_for_the_end(line: Seq<char>, event: Seq<char>, data: Seq<char>)
    requires
        !line.contains('\n'),
    ensures
        ({
            let here = Undecoded { pending: line, event, data };
            &&& all_frames(here) == (here, Seq::<Frame>::empty())
            &&& line.len() == 0 ==> at_end(here) == here
            &&& line.len() > 0 ==> at_end(here) == (Undecoded {
                pending: line + seq!['\n'],
                event,
                data,
            })
        }),
{
    first_index_bounds(line, '\n');
    let n = first_index(line, '\n');
    if n < line.len() {
        assert(line.contains(line[n]));
    }
}

/// A chunk is put behind the text that is not decoded yet and changes nothing else.
pub proof fn chunks_are_put_behind(s: Undecoded, chunk: Seq<char>)
    ensures
        s.then_chunk(chunk).pending == s.pending + chunk,
        s.then_chunk(chunk).event == s.event,
        s.then_chunk(chunk).data == s.data,
{
}

/// An event that is named `endpoint` announces its data, whatever it could be read as;
/// any other carries the message that its data reads as, whatever its name, and
/// nothing where it reads as none.
pub proof fn events_say_what_they_carry<V>(
    event: Seq<char>,
    data: Seq<char>,
    p: spec_fn(Seq<char>) -> Option<JsonRpcResponse<V>>,
)
    ensures
        ({
            let said = meanings(seq![Frame { event, data }], p);
            &&& event == "endpoint"@ ==> said == seq![Event::<V>::Endpoint(data)]
            &&& event != "endpoint"@ && p(data) is Some ==> said == seq![
                Event::Message(p(data)->0),
            ]
            &&& event != "endpoint"@ && p(data) is None ==> said == Seq::<Event<V>>::empty()
        }),
{
    let frames = seq![Frame { event, data }];
    assert(frames.drop_last() =~= Seq::<Frame>::empty());
    reveal_with_fuel(meanings, 2);
    assert(frames.last() == Frame { event, data });
    let said = meanings(frames, p);
    if event == "endpoint"@ {
        assert(said =~= seq![Event::<V>::Endpoint(data)]);
    } else if p(data) is Some {
        assert(said =~= seq![Event::Message(p(data)->0)]);
    }
}

/// The endpoint that is announced is the data of the first event named `endpoint`.
pub proof fn the_first_endpoint_is_announced(frames: Seq<Frame>, i: int)
    requires
        0 <= i <= frames.len(),
        forall|k: int| 0 <= k < i ==> (#[trigger] frames[k]).event != "endpoint"@,
    ensures
        i < frames.len() && frames[i].event == "endpoint"@ ==> announced(frames) == Some(
            frames[i].data,
        ),
        i == frames.len() ==> announced(frames) is None,
    decreases frames.len(),
{
    if i > 0 {
        assert(frames[0].event != "endpoint"@);
        let rest = frames.drop_first();
        assert forall|k: int| 0 <= k < i - 1 implies (#[trigger] rest[k]).event != "endpoint"@ by {
            assert(frames[k + 1].event != "endpoint"@);
        }
        the_first_endpoint_is_announced(rest, i - 1);
    }
}

/// An `event:` line without a name takes the name off the event under way.
pub proof fn empty_names_are_names(
    space: Seq<char>,
    ending: Seq<char>,
    rest: Seq<char>,
    event: Seq<char>,
    data: Seq<char>,
)
    requires
        is_line("event:"@ + space, ending),
        forall|k: int| 0 <= k < space.len() ==> white_space(#[trigger] space[k]),
    ensures
        all_frames(
            Undecoded { pending: "event:"@ + space + ending + seq!['\n'] + rest, event, data },
        ) == all_frames(Undecoded { pending: rest, event: Seq::empty(), data }),
{
    reveal_strlit("event:");
    let line = "event:"@ + space;
    lemma_beginnings(line);
    let here = Undecoded { pending: line + ending + seq!['\n'] + rest, event, data };
    lemma_first_line(here, line, ending, rest);
    assert(line.skip("event:"@.len() as int) =~= space);
    leading_space_is_trimmed(space, Seq::empty());
    assert(space + Seq::<char>::empty() =~= space);
    let later = all_frames(Undecoded { pending: rest, event: Seq::empty(), data }).1;
    assert(Seq::<Frame>::empty() + later =~= later);
}

/// A frame and an event are seen with all that they hold.
pub proof fn events_are_seen_whole<V>(frame: SseFrame, url: String, message: JsonRpcResponse<V>)
    ensures
        frame.deep_view().event == frame.event@,
        frame.deep_view().data == frame.data@,
        SseEvent::<V>::Endpoint(url).deep_view() == Event::<V>::Endpoint(url@),
        SseEvent::Message(message).deep_view() == Event::Message(message),
{
}

} // verus!
