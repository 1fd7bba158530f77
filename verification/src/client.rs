use vstd::prelude::*;
use vstd::string::*;
use vstd::utf8::{decode_utf8, valid_utf8};

use crate::config::ServerConfig;
use crate::profiles::InferenceProfile;
use crate::session::ChatMessage;
use crate::text::{
    chars_of, copy_range, drop_char_back, matches_at, starts_with, strip_prefixes,
    trim, trim_bounds, trim_end_char,
};

verus! {

/// When a streamed reply started, first showed reasoning and content, and finished. Every
/// instant is a count of nanoseconds on one monotonic clock.
#[derive(Debug, Clone, Copy)]
pub struct ResponseMetrics {
    pub started_at: u64,
    pub first_reasoning_at: Option<u64>,
    pub first_content_at: Option<u64>,
    pub finished_at: u64,
}

/// `later - earlier`, or zero when `later` comes first (`Instant::duration_since`).
pub open spec fn elapsed(earlier: u64, later: u64) -> u64 {
    if later >= earlier {
        (later - earlier) as u64
    } else {
        0
    }
}

impl ResponseMetrics {
    /// Nanoseconds from the start of the request to the end of the reply.
    pub fn total_duration(&self) -> (d: u64)
        ensures
            d == elapsed(self.started_at, self.finished_at),
    {
        self.finished_at.saturating_sub(self.started_at)
    }

    /// Nanoseconds from the start of the request to the first reasoning text.
    pub fn first_reasoning_latency(&self) -> (d: Option<u64>)
        ensures
            d == (match self.first_reasoning_at {
                Some(first) => Some(elapsed(self.started_at, first)),
                None => None,
            }),
    {
        match self.first_reasoning_at {
            Some(first) => Some(first.saturating_sub(self.started_at)),
            None => None,
        }
    }

    /// Nanoseconds from the start of the request to the first content text.
    pub fn first_token_latency(&self) -> (d: Option<u64>)
        ensures
            d == (match self.first_content_at {
                Some(first) => Some(elapsed(self.started_at, first)),
                None => None,
            }),
    {
        match self.first_content_at {
            Some(first) => Some(first.saturating_sub(self.started_at)),
            None => None,
        }
    }
}

/// Latencies never exceed the total duration when the instants are in order.
pub proof fn lemma_latency_within_total(metrics: ResponseMetrics, first: u64)
    requires
        metrics.started_at <= first <= metrics.finished_at,
    ensures
        elapsed(metrics.started_at, first) <= elapsed(metrics.started_at, metrics.finished_at),
{
}

/// A complete streamed reply.
#[derive(Debug)]
pub struct ChatResponse {
    pub content: String,
    pub reasoning_content: String,
    pub metrics: ResponseMetrics,
    pub effective_model: String,
}

/// A piece of a streamed reply, handed to the caller as it arrives.
#[derive(Debug)]
pub enum StreamEvent<'a> {
    Reasoning(&'a str),
    Content(&'a str),
}

/// An event as a plain value: whether it is reasoning, and its text.
pub open spec fn event_view(e: StreamEvent) -> (bool, Seq<char>) {
    match e {
        StreamEvent::Reasoning(t) => (true, t@),
        StreamEvent::Content(t) => (false, t@),
    }
}

/// The delta of one choice of a streamed chunk.
#[derive(Debug, Clone, Default)]
pub struct StreamDelta {
    pub content: Option<String>,
    pub reasoning_content: Option<String>,
}

#[derive(Debug, Clone)]
pub struct StreamChoice {
    pub delta: StreamDelta,
}

/// One `data:` payload of the reply stream.
#[derive(Debug, Clone)]
pub struct StreamChunk {
    pub model: Option<String>,
    pub choices: Vec<StreamChoice>,
}

/// The text an optional delta adds.
pub open spec fn piece(d: Option<String>) -> Seq<char> {
    match d {
        Some(t) => t@,
        None => Seq::empty(),
    }
}

/// The reasoning text of `choices`, in order.
pub open spec fn reasoning_text(choices: Seq<StreamChoice>) -> Seq<char>
    decreases choices.len(),
{
    if choices.len() == 0 {
        Seq::empty()
    } else {
        reasoning_text(choices.drop_last()) + piece(choices.last().delta.reasoning_content)
    }
}

/// The content text of `choices`, in order.
pub open spec fn content_text(choices: Seq<StreamChoice>) -> Seq<char>
    decreases choices.len(),
{
    if choices.len() == 0 {
        Seq::empty()
    } else {
        content_text(choices.drop_last()) + piece(choices.last().delta.content)
    }
}

/// Some choice carries reasoning text.
pub open spec fn has_reasoning(choices: Seq<StreamChoice>) -> bool {
    exists|i: int| 0 <= i < choices.len() && (#[trigger] choices[i]).delta.reasoning_content is Some
}

/// Some choice carries content text.
pub open spec fn has_content(choices: Seq<StreamChoice>) -> bool {
    exists|i: int| 0 <= i < choices.len() && (#[trigger] choices[i]).delta.content is Some
}

/// The events of one choice: its reasoning first, then its content.
pub open spec fn choice_events(c: StreamChoice) -> Seq<(bool, Seq<char>)> {
    (match c.delta.reasoning_content {
        Some(t) => seq![(true, t@)],
        None => Seq::empty(),
    }) + (match c.delta.content {
        Some(t) => seq![(false, t@)],
        None => Seq::empty(),
    })
}

/// The events of `choices`, in order.
pub open spec fn chunk_events(choices: Seq<StreamChoice>) -> Seq<(bool, Seq<char>)>
    decreases choices.len(),
{
    if choices.len() == 0 {
        Seq::empty()
    } else {
        chunk_events(choices.drop_last()) + choice_events(choices.last())
    }
}

/// The texts of the events of one kind (`true` for reasoning, `false` for content), one
/// after the other.
pub open spec fn events_text(events: Seq<(bool, Seq<char>)>, reasoning: bool) -> Seq<char>
    decreases events.len(),
{
    if events.len() == 0 {
        Seq::empty()
    } else {
        events_text(events.drop_last(), reasoning) + (if events.last().0 == reasoning {
            events.last().1
        } else {
            Seq::empty()
        })
    }
}

proof fn lemma_events_text_concat(a: Seq<(bool, Seq<char>)>, b: Seq<(bool, Seq<char>)>, k: bool)
    ensures
        events_text(a + b, k) == events_text(a, k) + events_text(b, k),
    decreases b.len(),
{
    if b.len() == 0 {
        assert(a + b == a);
    } else {
        lemma_events_text_concat(a, b.drop_last(), k);
        assert((a + b).drop_last() == a + b.drop_last());
        assert((a + b).last() == b.last());
    }
}

/// One choice adds its deltas exactly as received: its content delta to the content, its
/// reasoning delta to the reasoning, and events for them, reasoning first.
pub proof fn lemma_one_choice(c: StreamChoice)
    ensures
        content_text(seq![c]) == (match c.delta.content {
            Some(d) => d@,
            None => Seq::<char>::empty(),
        }),
        reasoning_text(seq![c]) == (match c.delta.reasoning_content {
            Some(d) => d@,
            None => Seq::<char>::empty(),
        }),
        chunk_events(seq![c]) == (match c.delta.reasoning_content {
            Some(d) => seq![(true, d@)],
            None => Seq::<(bool, Seq<char>)>::empty(),
        }) + (match c.delta.content {
            Some(d) => seq![(false, d@)],
            None => Seq::<(bool, Seq<char>)>::empty(),
        }),
{
    let one = seq![c];
    assert(one.drop_last() == Seq::<StreamChoice>::empty());
    assert(content_text(Seq::<StreamChoice>::empty()) == Seq::<char>::empty());
    assert(reasoning_text(Seq::<StreamChoice>::empty()) == Seq::<char>::empty());
    assert(chunk_events(Seq::<StreamChoice>::empty()) == Seq::<(bool, Seq<char>)>::empty());
    assert(one.last() == c);
    assert(Seq::<char>::empty() + piece(c.delta.content) == piece(c.delta.content));
    assert(Seq::<char>::empty() + piece(c.delta.reasoning_content) == piece(c.delta.reasoning_content));
    assert(Seq::<(bool, Seq<char>)>::empty() + choice_events(c) == choice_events(c));
}

/// The content a chunk adds is the text of the content events it hands out, in order, and
/// its reasoning is the text of its reasoning events.
pub proof fn lemma_texts_are_event_texts(choices: Seq<StreamChoice>)
    ensures
        content_text(choices) == events_text(chunk_events(choices), false),
        reasoning_text(choices) == events_text(chunk_events(choices), true),
    decreases choices.len(),
{
    if choices.len() > 0 {
        let c = choices.last();
        lemma_texts_are_event_texts(choices.drop_last());
        lemma_events_text_concat(chunk_events(choices.drop_last()), choice_events(c), false);
        lemma_events_text_concat(chunk_events(choices.drop_last()), choice_events(c), true);
        let r: Seq<(bool, Seq<char>)> = match c.delta.reasoning_content {
            Some(d) => seq![(true, d@)],
            None => Seq::empty(),
        };
        let t: Seq<(bool, Seq<char>)> = match c.delta.content {
            Some(d) => seq![(false, d@)],
            None => Seq::empty(),
        };
        lemma_events_text_concat(r, t, false);
        lemma_events_text_concat(r, t, true);
        assert(events_text(Seq::<(bool, Seq<char>)>::empty(), false) == Seq::<char>::empty());
        match c.delta.reasoning_content {
            Some(d) => {
                assert(r == seq![(true, d@)]);
                assert(r.drop_last() == Seq::<(bool, Seq<char>)>::empty());
                assert(events_text(Seq::<(bool, Seq<char>)>::empty(), true) == Seq::<char>::empty());
                assert(r.last() == (true, d@));
                assert(events_text(r, true) == Seq::<char>::empty() + d@);
                assert(events_text(r, false) == Seq::<char>::empty() + Seq::<char>::empty());
            },
            None => {},
        }
        match c.delta.content {
            Some(d) => {
                assert(t == seq![(false, d@)]);
                assert(t.drop_last() == Seq::<(bool, Seq<char>)>::empty());
                assert(events_text(Seq::<(bool, Seq<char>)>::empty(), true) == Seq::<char>::empty());
                assert(t.last() == (false, d@));
                assert(events_text(t, false) == Seq::<char>::empty() + d@);
                assert(events_text(t, true) == Seq::<char>::empty() + Seq::<char>::empty());
            },
            None => {},
        }
        assert(events_text(r, true) == piece(c.delta.reasoning_content));
        assert(events_text(r, false) == Seq::<char>::empty());
        assert(events_text(t, false) == piece(c.delta.content));
        assert(events_text(t, true) == Seq::<char>::empty());
    }
}

/// Splitting the choices of a stream between chunks changes none of the texts.
pub proof fn lemma_texts_split(a: Seq<StreamChoice>, b: Seq<StreamChoice>)
    ensures
        reasoning_text(a + b) == reasoning_text(a) + reasoning_text(b),
        content_text(a + b) == content_text(a) + content_text(b),
        chunk_events(a + b) == chunk_events(a) + chunk_events(b),
    decreases b.len(),
{
    if b.len() == 0 {
        assert(a + b == a);
    } else {
        lemma_texts_split(a, b.drop_last());
        assert((a + b).drop_last() == a + b.drop_last());
        assert((a + b).last() == b.last());
    }
}

/// What a reply stream has delivered so far.
#[derive(Debug)]
pub struct StreamAccumulator {
    pub content: String,
    pub reasoning_content: String,
    pub first_reasoning_at: Option<u64>,
    pub first_content_at: Option<u64>,
    pub seen_model: Option<String>,
}

impl StreamAccumulator {
    /// Nothing delivered yet.
    pub fn new() -> (acc: StreamAccumulator)
        ensures
            acc.content@ == Seq::<char>::empty(),
            acc.reasoning_content@ == Seq::<char>::empty(),
            acc.first_reasoning_at is None,
            acc.first_content_at is None,
            acc.seen_model is None,
    {
        StreamAccumulator {
            content: String::new(),
            reasoning_content: String::new(),
            first_reasoning_at: None,
            first_content_at: None,
            seen_model: None,
        }
    }

    /// Takes in one chunk that arrived at `now`: appends its texts, records the first
    /// arrival of each kind of text and the first model the server names, and returns the
    /// events to hand to the caller, in order.
    pub fn absorb<'a>(&mut self, chunk: &'a StreamChunk, now: u64) -> (events: Vec<StreamEvent<'a>>)
        ensures
            final(self).content@ == old(self).content@ + content_text(chunk.choices@),
            final(self).reasoning_content@ == old(self).reasoning_content@ + reasoning_text(
                chunk.choices@,
            ),
            final(self).seen_model == (if old(self).seen_model is None {
                chunk.model
            } else {
                old(self).seen_model
            }),
            final(self).first_reasoning_at == (if old(self).first_reasoning_at is None
                && has_reasoning(chunk.choices@) {
                Some(now)
            } else {
                old(self).first_reasoning_at
            }),
            final(self).first_content_at == (if old(self).first_content_at is None && has_content(
                chunk.choices@,
            ) {
                Some(now)
            } else {
                old(self).first_content_at
            }),
            events@.map_values(|e: StreamEvent<'a>| event_view(e)) == chunk_events(chunk.choices@),
            final(self).content@ == old(self).content@ + events_text(
                events@.map_values(|e: StreamEvent<'a>| event_view(e)),
                false,
            ),
            final(self).reasoning_content@ == old(self).reasoning_content@ + events_text(
                events@.map_values(|e: StreamEvent<'a>| event_view(e)),
                true,
            ),
    {
        proof {
            lemma_texts_are_event_texts(chunk.choices@);
        }
        if self.seen_model.is_none() {
            self.seen_model = chunk.model.clone();
        }
        let mut events: Vec<StreamEvent<'a>> = Vec::new();
        let n = chunk.choices.len();
        for i in 0..n
            invariant
                n == chunk.choices@.len(),
                self.seen_model == (if old(self).seen_model is None {
                    chunk.model
                } else {
                    old(self).seen_model
                }),
                self.content@ == old(self).content@ + content_text(chunk.choices@.take(i as int)),
                self.reasoning_content@ == old(self).reasoning_content@ + reasoning_text(
                    chunk.choices@.take(i as int),
                ),
                self.first_reasoning_at == (if old(self).first_reasoning_at is None && has_reasoning(
                    chunk.choices@.take(i as int),
                ) {
                    Some(now)
                } else {
                    old(self).first_reasoning_at
                }),
                self.first_content_at == (if old(self).first_content_at is None && has_content(
                    chunk.choices@.take(i as int),
                ) {
                    Some(now)
                } else {
                    old(self).first_content_at
                }),
                events@.map_values(|e: StreamEvent<'a>| event_view(e)) == chunk_events(
                    chunk.choices@.take(i as int),
                ),
        {
            let ghost prefix = chunk.choices@.take(i as int);
            let ghost next = chunk.choices@.take(i + 1);
            assert(next.drop_last() == prefix);
            assert(next.last() == chunk.choices@[i as int]);
            let ghost events_before = events@;
            let choice = &chunk.choices[i];
            if let Some(delta) = &choice.delta.reasoning_content {
                if self.first_reasoning_at.is_none() {
                    self.first_reasoning_at = Some(now);
                }
                events.push(StreamEvent::Reasoning(delta.as_str()));
                self.reasoning_content.append(delta.as_str());
            }
            if let Some(delta) = &choice.delta.content {
                if self.first_content_at.is_none() {
                    self.first_content_at = Some(now);
                }
                events.push(StreamEvent::Content(delta.as_str()));
                self.content.append(delta.as_str());
            }
            proof {
                assert(events@.map_values(|e: StreamEvent<'a>| event_view(e)) == events_before.map_values(
                    |e: StreamEvent<'a>| event_view(e),
                ) + choice_events(*choice));
                if has_reasoning(next) && !has_reasoning(prefix) {
                    let k = choose|k: int| 0 <= k < next.len() && (#[trigger] next[k]).delta.reasoning_content is Some;
                    assert(k == i);
                }
                if has_reasoning(prefix) {
                    let k = choose|k: int| 0 <= k < prefix.len() && (#[trigger] prefix[k]).delta.reasoning_content is Some;
                    assert(next[k] == prefix[k]);
                }
                if choice.delta.reasoning_content is Some {
                    assert(next[i as int] == *choice);
                }
                if has_content(next) && !has_content(prefix) {
                    let k = choose|k: int| 0 <= k < next.len() && (#[trigger] next[k]).delta.content is Some;
                    assert(k == i);
                }
                if has_content(prefix) {
                    let k = choose|k: int| 0 <= k < prefix.len() && (#[trigger] prefix[k]).delta.content is Some;
                    assert(next[k] == prefix[k]);
                }
                if choice.delta.content is Some {
                    assert(next[i as int] == *choice);
                }
            }
        }
        assert(chunk.choices@.take(n as int) == chunk.choices@);
        events
    }

    /// The reply once the stream has ended: the model the server named first, or
    /// `fallback_model` when it named none.
    pub fn finish(self, started_at: u64, finished_at: u64, fallback_model: String) -> (r:
        ChatResponse)
        ensures
            r.content == self.content,
            r.reasoning_content == self.reasoning_content,
            r.metrics == (ResponseMetrics {
                started_at,
                first_reasoning_at: self.first_reasoning_at,
                first_content_at: self.first_content_at,
                finished_at,
            }),
            r.effective_model == (match self.seen_model {
                Some(m) => m,
                None => fallback_model,
            }),
    {
        let effective_model = match self.seen_model {
            Some(m) => m,
            None => fallback_model,
        };
        ChatResponse {
            content: self.content,
            reasoning_content: self.reasoning_content,
            metrics: ResponseMetrics {
                started_at,
                first_reasoning_at: self.first_reasoning_at,
                first_content_at: self.first_content_at,
                finished_at,
            },
            effective_model,
        }
    }
}


/// The prefix of a payload line of the reply stream.
pub open spec fn data_prefix() -> Seq<char> {
    "data:"@
}

/// The payload that ends the reply stream.
pub open spec fn done_marker() -> Seq<char> {
    "[DONE]"@
}

/// The payload one line carries: the line trimmed must start with `data:`; every leading
/// `data:` is cut and the rest trimmed; `[DONE]` and an empty rest carry nothing.
pub open spec fn line_payload(line: Seq<char>) -> Option<Seq<char>> {
    let t = trim(line);
    if !starts_with(t, data_prefix()) {
        None
    } else {
        let p = trim(strip_prefixes(t, data_prefix()));
        if p == done_marker() || p.len() == 0 {
            None
        } else {
            Some(p)
        }
    }
}

/// The index of the first newline at or after `i` (or the length).
pub open spec fn line_end(s: Seq<char>, i: int) -> int
    decreases s.len() - i,
{
    if 0 <= i < s.len() && s[i] != '\n' {
        line_end(s, i + 1)
    } else {
        i
    }
}

pub proof fn lemma_line_end_bounds(s: Seq<char>, i: int)
    requires
        0 <= i <= s.len(),
    ensures
        i <= line_end(s, i) <= s.len(),
        line_end(s, i) < s.len() ==> s[line_end(s, i)] == '\n',
    decreases s.len() - i,
{
    if i < s.len() && s[i] != '\n' {
        lemma_line_end_bounds(s, i + 1);
    }
}

/// The payloads of the lines that start at or after `i`, in order.
pub open spec fn payloads_from(text: Seq<char>, i: int) -> Seq<Seq<char>>
    decreases text.len() + 1 - i,
{
    if i < 0 || i > text.len() {
        Seq::empty()
    } else {
        let e = line_end(text, i);
        proof {
            lemma_line_end_bounds(text, i);
        }
        let rest = payloads_from(text, e + 1);
        match line_payload(text.subrange(i, e)) {
            Some(p) => seq![p] + rest,
            None => rest,
        }
    }
}

/// The payloads of the lines of a piece of the reply stream, in order.
pub open spec fn sse_payloads(text: Seq<char>) -> Seq<Seq<char>> {
    payloads_from(text, 0)
}

/// No payload of a stream is empty or the `[DONE]` marker.
pub proof fn lemma_payloads_are_data(text: Seq<char>, i: int)
    requires
        0 <= i,
    ensures
        forall|k: int|
            0 <= k < payloads_from(text, i).len() ==> (#[trigger] payloads_from(text, i)[k]).len()
                > 0 && payloads_from(text, i)[k] != done_marker(),
    decreases text.len() + 1 - i,
{
    if i <= text.len() {
        lemma_line_end_bounds(text, i);
        let e = line_end(text, i);
        lemma_payloads_are_data(text, e + 1);
        let rest = payloads_from(text, e + 1);
        match line_payload(text.subrange(i, e)) {
            Some(p) => {
                assert forall|k: int| 0 <= k < payloads_from(text, i).len() implies (
                #[trigger] payloads_from(text, i)[k]).len() > 0 && payloads_from(text, i)[k]
                    != done_marker() by {
                    if k > 0 {
                        assert(payloads_from(text, i)[k] == rest[k - 1]);
                    }
                }
            },
            None => {},
        }
    }
}

/// `line_end` stops at the first newline, or at the end.
pub proof fn lemma_line_end_to(s: Seq<char>, i: int, j: int)
    requires
        0 <= i <= j <= s.len(),
        forall|k: int| i <= k < j ==> #[trigger] s[k] != '\n',
        j == s.len() || s[j] == '\n',
    ensures
        line_end(s, i) == j,
    decreases j - i,
{
    if i < j {
        lemma_line_end_to(s, i + 1, j);
    }
}

/// Lines found after a prefix `w` are the lines of what follows it.
proof fn lemma_line_end_shift(w: Seq<char>, z: Seq<char>, j: int)
    requires
        0 <= j <= z.len(),
    ensures
        line_end(w + z, w.len() + j) == w.len() + line_end(z, j),
    decreases z.len() - j,
{
    if j < z.len() {
        assert((w + z)[w.len() + j] == z[j]);
        if z[j] != '\n' {
            lemma_line_end_shift(w, z, j + 1);
        }
    }
}

/// The payloads found after a prefix `w` are the payloads of what follows it.
proof fn lemma_payloads_shift(w: Seq<char>, z: Seq<char>, j: int)
    requires
        0 <= j,
    ensures
        payloads_from(w + z, w.len() + j) == payloads_from(z, j),
    decreases z.len() + 1 - j,
{
    if j <= z.len() {
        lemma_line_end_shift(w, z, j);
        lemma_line_end_bounds(z, j);
        let e = line_end(z, j);
        assert((w + z).subrange(w.len() + j, w.len() + e) == z.subrange(j, e));
        lemma_payloads_shift(w, z, e + 1);
    }
}

/// An empty line carries no payload.
proof fn lemma_empty_line_has_no_payload()
    ensures
        line_payload(Seq::empty()) is None,
{
    reveal_strlit("data:");
    let e = Seq::<char>::empty();
    assert(crate::text::skip_white(e, 0) == 0);
    assert(crate::text::drop_white_back(e, 0) == 0);
    assert(trim(e) == e);
}

/// Inside a text that ends with a newline, lines end before its end.
proof fn lemma_line_end_prefix(x: Seq<char>, z: Seq<char>, i: int)
    requires
        x.len() > 0,
        x.last() == '\n',
        0 <= i < x.len(),
    ensures
        line_end(x + z, i) == line_end(x, i),
        line_end(x, i) < x.len(),
    decreases x.len() - i,
{
    assert((x + z)[i] == x[i]);
    if x[i] != '\n' {
        lemma_line_end_prefix(x, z, i + 1);
    }
}

/// The payloads of a text that ends with a newline, followed by more text, are the payloads
/// of each part one after the other.
proof fn lemma_payloads_concat(x: Seq<char>, z: Seq<char>, i: int)
    requires
        x.len() > 0,
        x.last() == '\n',
        0 <= i <= x.len(),
    ensures
        payloads_from(x + z, i) == payloads_from(x, i) + payloads_from(z, 0),
    decreases x.len() - i,
{
    if i == x.len() {
        lemma_payloads_shift(x, z, 0);
        lemma_line_end_bounds(x, i);
        assert(x.subrange(i, i) == Seq::<char>::empty());
        lemma_empty_line_has_no_payload();
        assert(line_end(x, i) == i);
        assert(payloads_from(x, i + 1) == Seq::<Seq<char>>::empty());
        assert(payloads_from(x, i) == payloads_from(x, i + 1));
        assert(payloads_from(x, i) == Seq::<Seq<char>>::empty());
        assert(payloads_from(x, i) + payloads_from(z, 0) == payloads_from(z, 0));
    } else {
        lemma_line_end_prefix(x, z, i);
        lemma_line_end_bounds(x, i);
        let e = line_end(x, i);
        assert((x + z).subrange(i, e) == x.subrange(i, e));
        lemma_payloads_concat(x, z, e + 1);
        match line_payload(x.subrange(i, e)) {
            Some(p) => {
                assert(seq![p] + (payloads_from(x, e + 1) + payloads_from(z, 0)) == (seq![p]
                    + payloads_from(x, e + 1)) + payloads_from(z, 0));
            },
            None => {},
        }
    }
}

/// A line without a payload, with its newline, yields no payload.
proof fn lemma_line_without_payload(l: Seq<char>)
    requires
        forall|k: int| 0 <= k < l.len() ==> #[trigger] l[k] != '\n',
        line_payload(l) is None,
    ensures
        sse_payloads(l.push('\n')) == Seq::<Seq<char>>::empty(),
{
    let s = l.push('\n');
    assert(forall|k: int| 0 <= k < l.len() ==> #[trigger] s[k] == l[k]);
    lemma_line_end_to(s, 0, l.len() as int);
    assert(s.subrange(0, l.len() as int) == l);
    lemma_line_end_bounds(s, s.len() as int);
    assert(s.subrange(s.len() as int, s.len() as int) == Seq::<char>::empty());
    lemma_empty_line_has_no_payload();
    let n = s.len() as int;
    assert(line_end(s, n) == n);
    assert(payloads_from(s, n + 1) == Seq::<Seq<char>>::empty());
    assert(payloads_from(s, n) == payloads_from(s, n + 1));
    assert(payloads_from(s, 0) == payloads_from(s, n));
}

/// A line `data: X`, where X is a single line without surrounding white space and is not
/// `[DONE]`, carries X, exactly.
pub proof fn lemma_data_line_carries_its_text(x: Seq<char>)
    requires
        x.len() > 0,
        !crate::text::is_white_space(x[0]),
        !crate::text::is_white_space(x.last()),
        forall|k: int| 0 <= k < x.len() ==> #[trigger] x[k] != '\n',
        x != done_marker(),
    ensures
        sse_payloads("data: "@ + x + seq!['\n']) == seq![x],
{
    reveal_strlit("data: ");
    reveal_strlit("data:");
    let head = "data: "@;
    let l = head + x;
    let sp = seq![' '] + x;
    // The line is its own trim.
    assert(l[0] == 'd');
    crate::text::lemma_skip_white_to(l, 0, 0);
    assert(l.last() == x.last());
    assert(crate::text::drop_white_back(l, l.len() as int) == l.len());
    assert(l.subrange(0, l.len() as int) == l);
    assert(trim(l) == l);
    // One `data:` is cut, leaving ` X`.
    assert(l.subrange(0, 5) == data_prefix());
    assert(starts_with(l, data_prefix()));
    assert(l.subrange(5, l.len() as int) == sp);
    assert(sp[0] == ' ');
    assert(!starts_with(sp, data_prefix())) by {
        if starts_with(sp, data_prefix()) {
            assert(sp.subrange(0, 5)[0] == data_prefix()[0]);
        }
    }
    assert(strip_prefixes(sp, data_prefix()) == sp);
    assert(strip_prefixes(l, data_prefix()) == sp);
    // ` X` trims to X.
    crate::text::lemma_skip_white_to(sp, 0, 1);
    assert(sp.last() == x.last());
    assert(sp.subrange(1, sp.len() as int) == x);
    assert(crate::text::drop_white_back(x, x.len() as int) == x.len());
    assert(x.subrange(0, x.len() as int) == x);
    assert(trim(sp) == x);
    assert(line_payload(l) == Some(x));
    // The whole text is that line and its newline.
    let s = l + seq!['\n'];
    assert(forall|k: int| 0 <= k < l.len() ==> #[trigger] s[k] == l[k]);
    assert forall|k: int| 0 <= k < l.len() implies #[trigger] s[k] != '\n' by {
        if k >= 6 {
            assert(l[k] == x[k - 6]);
        }
    }
    lemma_line_end_to(s, 0, l.len() as int);
    assert(s.subrange(0, l.len() as int) == l);
    lemma_line_end_bounds(s, s.len() as int);
    assert(s.subrange(s.len() as int, s.len() as int) == Seq::<char>::empty());
    lemma_empty_line_has_no_payload();
    let n = s.len() as int;
    assert(line_end(s, n) == n);
    assert(payloads_from(s, n + 1) == Seq::<Seq<char>>::empty());
    assert(payloads_from(s, n) == Seq::<Seq<char>>::empty());
    assert("data: "@ + x + seq!['\n'] == s);
    assert(payloads_from(s, 0) == seq![x] + Seq::<Seq<char>>::empty());
    assert(seq![x] + Seq::<Seq<char>>::empty() == seq![x]);
}

/// Lines that carry no payload (comments such as `: ping`, other fields such as
/// `event: x`, blank lines, `data: [DONE]`, an empty `data:`) can stand anywhere between
/// the lines of a reply stream without changing its payloads, so without changing what the
/// reply accumulates or hands to the caller.
pub proof fn lemma_other_lines_ignored(x: Seq<char>, l: Seq<char>, y: Seq<char>)
    requires
        x.len() == 0 || x.last() == '\n',
        forall|k: int| 0 <= k < l.len() ==> #[trigger] l[k] != '\n',
        line_payload(l) is None,
    ensures
        sse_payloads(x + l.push('\n') + y) == sse_payloads(x + y),
{
    let line = l.push('\n');
    lemma_line_without_payload(l);
    lemma_payloads_concat(line, y, 0);
    assert(sse_payloads(line) + sse_payloads(y) == sse_payloads(y));
    if x.len() == 0 {
        assert(x + line + y == line + y);
        assert(x + y == y);
    } else {
        assert(x + line + y == x + (line + y));
        lemma_payloads_concat(x, line + y, 0);
        lemma_payloads_concat(x, y, 0);
    }
}

/// The views of a list of strings.
pub open spec fn string_views(v: Seq<String>) -> Seq<Seq<char>> {
    v.map_values(|s: String| s@)
}

fn line_end_at(v: &Vec<char>, start: usize) -> (e: usize)
    requires
        start <= v@.len(),
    ensures
        e == line_end(v@, start as int),
        start <= e <= v@.len(),
{
    let mut i = start;
    while i < v.len() && v[i] != '\n'
        invariant
            start <= i <= v@.len(),
            line_end(v@, i as int) == line_end(v@, start as int),
        decreases v@.len() - i,
    {
        i = i + 1;
    }
    i
}

/// The bounds in `v` of the payload of the line `v@.subrange(lo, hi)`.
fn line_payload_at(v: &Vec<char>, lo: usize, hi: usize) -> (r: Option<(usize, usize)>)
    requires
        lo <= hi <= v@.len(),
    ensures
        match r {
            Some((a, b)) => lo <= a <= b <= hi && line_payload(v@.subrange(lo as int, hi as int))
                == Some(v@.subrange(a as int, b as int)),
            None => line_payload(v@.subrange(lo as int, hi as int)) is None,
        },
{
    let prefix = chars_of("data:");
    let done = chars_of("[DONE]");
    proof {
        reveal_strlit("data:");
    }
    let m = prefix.len();
    let seg = copy_range(v, lo, hi);
    let (a, b) = trim_bounds(&seg);
    let ghost t = seg@.subrange(a as int, b as int);
    if !(b - a >= m && matches_at(&seg, a, &prefix)) {
        proof {
            if starts_with(t, data_prefix()) {
                assert(t.subrange(0, m as int) == seg@.subrange(a as int, a + m));
            }
        }
        return None;
    }
    assert(t.subrange(0, m as int) == seg@.subrange(a as int, a + m));
    let mut k = a;
    while b - k >= m && matches_at(&seg, k, &prefix)
        invariant
            a <= k <= b <= seg@.len(),
            m == 5,
            m == prefix@.len(),
            data_prefix().len() == 5,
            prefix@ == data_prefix(),
            strip_prefixes(seg@.subrange(k as int, b as int), data_prefix()) == strip_prefixes(
                t,
                data_prefix(),
            ),
        decreases b - k,
    {
        let ghost x = seg@.subrange(k as int, b as int);
        assert(x.subrange(0, m as int) == seg@.subrange(k as int, k + m));
        assert(starts_with(x, data_prefix()));
        assert(x.subrange(m as int, x.len() as int) == seg@.subrange(k + m, b as int));
        assert(strip_prefixes(x, data_prefix()) == strip_prefixes(seg@.subrange(k + m, b as int), data_prefix()));
        k = k + m;
    }
    proof {
        let x = seg@.subrange(k as int, b as int);
        if starts_with(x, data_prefix()) {
            assert(x.subrange(0, m as int) == seg@.subrange(k as int, k + m));
        }
    }
    let rest = copy_range(&seg, k, b);
    let (a2, b2) = trim_bounds(&rest);
    let ghost p = rest@.subrange(a2 as int, b2 as int);
    if a2 == b2 || crate::text::range_equals(&rest, a2, b2, &done) {
        return None;
    }
    assert(v@.subrange(lo + k + a2, lo + k + b2) == p);
    Some((lo + k + a2, lo + k + b2))
}

/// Cuts a piece of the reply stream into lines and keeps the payload of each `data:` line.
pub fn sse_payloads_of(text: &str) -> (payloads: Vec<String>)
    ensures
        string_views(payloads@) == sse_payloads(text@),
{
    let v = chars_of(text);
    let n = v.len();
    let mut out: Vec<String> = Vec::new();
    let mut i: usize = 0;
    loop
        invariant_except_break
            string_views(out@) + payloads_from(v@, i as int) == sse_payloads(v@),
        invariant
            n == v@.len(),
            v@ == text@,
            i <= n,
        ensures
            string_views(out@) == sse_payloads(v@),
        decreases n - i,
    {
        let e = line_end_at(&v, i);
        let ghost rest = payloads_from(v@, e + 1);
        assert(payloads_from(v@, i as int) == match line_payload(v@.subrange(i as int, e as int)) {
            Some(p) => seq![p] + rest,
            None => rest,
        });
        let ghost before = out@;
        match line_payload_at(&v, i, e) {
            Some((a, b)) => {
                let piece = text.substring_char(a, b).to_owned();
                out.push(piece);
                assert(string_views(out@) == string_views(before).push(v@.subrange(a as int, b as int)));
                assert(string_views(out@) + rest == string_views(before) + (seq![
                    v@.subrange(a as int, b as int),
                ] + rest));
            },
            None => {},
        }
        if e == n {
            assert(rest == Seq::<Seq<char>>::empty());
            assert(string_views(out@) + rest == string_views(out@));
            break ;
        }
        i = e + 1;
    }
    out
}


/// What `String::from_utf8_lossy` makes of a sequence of bytes.
pub uninterp spec fn lossy_utf8(bytes: Seq<u8>) -> Seq<char>;

/// Calls `String::from_utf8_lossy`. Its result is a function of the bytes alone; std
/// documents that valid UTF-8 is decoded unchanged. What it makes of invalid sequences
/// (U+FFFD in their place) is not stated here.
#[verifier::external_body]
fn decode_lossy(bytes: &[u8]) -> (text: String)
    ensures
        text@ == lossy_utf8(bytes@),
        valid_utf8(bytes@) ==> text@ == decode_utf8(bytes@),
{
    String::from_utf8_lossy(bytes).into_owned()
}

/// The payloads of one piece of the reply stream as it came off the network.
pub fn stream_payloads(bytes: &[u8]) -> (payloads: Vec<String>)
    ensures
        string_views(payloads@) == sse_payloads(lossy_utf8(bytes@)),
        valid_utf8(bytes@) ==> string_views(payloads@) == sse_payloads(decode_utf8(bytes@)),
{
    let text = decode_lossy(bytes);
    sse_payloads_of(text.as_str())
}

/// The chat completions endpoint under a base URL: the base with its trailing slashes
/// dropped, then `/chat/completions`.
pub open spec fn completions_url_of(base_url: Seq<char>) -> Seq<char> {
    trim_end_char(base_url, '/') + "/chat/completions"@
}

/// The thinking switch sent along with a request.
#[derive(Debug, Clone, Copy)]
pub struct ChatTemplateKwargs {
    pub enable_thinking: bool,
}

/// The body of a chat completion request. The sampler floats travel as their bit patterns.
#[derive(Debug)]
pub struct ChatCompletionRequest<'a> {
    pub model: String,
    pub messages: &'a [ChatMessage],
    pub temperature_bits: u32,
    pub top_p_bits: u32,
    pub max_tokens: u32,
    pub stream: bool,
    pub chat_template_kwargs: Option<ChatTemplateKwargs>,
}

/// The model a profile asks for: its own, or the server's default.
pub open spec fn effective_model_of(profile: InferenceProfile, server: ServerConfig) -> Seq<char> {
    match profile.model {
        Some(m) => m@,
        None => server.default_model@,
    }
}

#[verifier::external_type_specification]
#[verifier::external_body]
pub struct ExReqwestClient(reqwest::Client);

#[verifier::external_type_specification]
#[verifier::external_body]
pub struct ExReqwestError(reqwest::Error);

/// An HTTP client together with the request timeout, in seconds, it was built with
/// (reqwest keeps the timeout inside the client and offers no way to read it back).
struct HttpClient {
    client: reqwest::Client,
    timeout_secs: Ghost<u64>,
}

/// Calls `reqwest::Client::builder().timeout(Duration::from_secs(timeout_secs)).build()`.
/// A client that comes back was built with that total request timeout (`ClientBuilder::timeout`
/// stores it in the builder's configuration, which `build` turns into the client). Whether
/// the build succeeds depends on the TLS backend and the system resolver configuration, so
/// nothing is stated of when it fails.
#[verifier::external_body]
fn build_http_client(timeout_secs: u64) -> (r: Result<HttpClient, reqwest::Error>)
    ensures
        r matches Ok(c) ==> c.timeout_secs@ == timeout_secs,
{
    match reqwest::Client::builder().timeout(std::time::Duration::from_secs(timeout_secs)).build() {
        Ok(client) => Ok(HttpClient { client, timeout_secs: Ghost(timeout_secs) }),
        Err(e) => Err(e),
    }
}

/// Why the client could not be made.
#[derive(Debug)]
pub enum ClientError {
    HttpClient(reqwest::Error),
}

/// The HTTP client of the model server and where that server is.
pub struct ModelClient {
    http: reqwest::Client,
    timeout_secs: Ghost<u64>,
    server: ServerConfig,
}

impl ModelClient {
    /// The server configuration the client was made with.
    pub closed spec fn server_config(&self) -> ServerConfig {
        self.server
    }

    /// The HTTP client the requests go through.
    pub closed spec fn http_client(&self) -> reqwest::Client {
        self.http
    }

    /// The total request timeout, in seconds, the HTTP client was built with.
    pub closed spec fn timeout_secs(&self) -> u64 {
        self.timeout_secs@
    }

    /// A client for `server`, whose HTTP client times requests out after
    /// `server.timeout_secs` seconds. It fails only where building the HTTP client fails.
    pub fn new(server: ServerConfig) -> (r: Result<ModelClient, ClientError>)
        ensures
            r matches Ok(c) ==> c.server_config() == server && c.timeout_secs()
                == server.timeout_secs,
    {
        match build_http_client(server.timeout_secs) {
            Ok(http) => Ok(ModelClient { http: http.client, timeout_secs: http.timeout_secs, server }),
            Err(e) => Err(ClientError::HttpClient(e)),
        }
    }

    /// The HTTP client that carries the requests.
    pub fn http(&self) -> (c: &reqwest::Client)
        ensures
            *c == self.http_client(),
    {
        &self.http
    }

    /// The model a request with `profile` names.
    pub fn effective_model(&self, profile: &InferenceProfile) -> (m: String)
        ensures
            m@ == effective_model_of(*profile, self.server_config()),
    {
        match &profile.model {
            Some(m) => m.clone(),
            None => self.server.default_model.clone(),
        }
    }

    /// The chat completions endpoint of the server.
    pub fn completions_url(&self) -> (url: String)
        ensures
            url@ == completions_url_of(self.server_config().base_url@),
    {
        let base = self.server.base_url.as_str();
        let v = chars_of(base);
        let mut j = v.len();
        while j > 0 && v[j - 1] == '/'
            invariant
                j <= v@.len(),
                drop_char_back(v@, j as int, '/') == drop_char_back(v@, v@.len() as int, '/'),
            decreases j,
        {
            j = j - 1;
        }
        let mut url = base.substring_char(0, j).to_owned();
        url.append("/chat/completions");
        url
    }

    /// The request for `messages` under `profile`: the effective model, the profile's
    /// sampler settings and stream flag, and its thinking preference when it has one.
    pub fn build_request<'a>(&self, profile: &InferenceProfile, messages: &'a [ChatMessage]) -> (r:
        ChatCompletionRequest<'a>)
        ensures
            r.model@ == effective_model_of(*profile, self.server_config()),
            r.messages == messages,
            r.temperature_bits == profile.temperature_bits,
            r.top_p_bits == profile.top_p_bits,
            r.max_tokens == profile.max_tokens,
            r.stream == profile.stream,
            r.chat_template_kwargs == (match profile.prefer_thinking {
                Some(b) => Some(ChatTemplateKwargs { enable_thinking: b }),
                None => None,
            }),
    {
        let kwargs = match profile.prefer_thinking {
            Some(b) => Some(ChatTemplateKwargs { enable_thinking: b }),
            None => None,
        };
        ChatCompletionRequest {
            model: self.effective_model(profile),
            messages,
            temperature_bits: profile.temperature_bits,
            top_p_bits: profile.top_p_bits,
            max_tokens: profile.max_tokens,
            stream: profile.stream,
            chat_template_kwargs: kwargs,
        }
    }
}

} // verus!
