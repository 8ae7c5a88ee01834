//! The chunked-response decoder: turns arbitrarily split byte chunks of a
//! newline-delimited JSON stream into discrete completion events.
//!
//! The decoder keeps a growable text buffer. Each incoming chunk is decoded
//! as UTF-8 (invalid data is fatal: one `Stop` and the decoder terminates),
//! appended, and every complete line found is parsed as one JSON record and
//! emitted as a `Message` event, in arrival order; a line that is not a
//! valid record is fatal in the same way. A record split across any number
//! of chunks is emitted only once its closing newline arrives; several
//! records arriving in one chunk are all emitted.

use vstd::prelude::*;

use vstd::string::StrSliceExecFns;
use vstd::string::StringExecFns;

use crate::chat::{chat_from_value, chat_of_json, ChatResponseModel};
use crate::json::{json_from_str, json_parse};
use crate::llm::{PromptEvent, PromptEventModel};

verus! {

/// The completion record one line of the stream denotes: the line must be
/// a well-formed JSON document carrying a completion record.
pub open spec fn parse_line(s: Seq<char>) -> Option<ChatResponseModel> {
    match json_parse(s) {
        Some(j) => chat_of_json(j),
        None => None,
    }
}

/// Index of the first newline in `s`, or `s.len()` if there is none.
pub open spec fn first_newline(s: Seq<char>) -> int
    decreases s.len(),
{
    if s.len() == 0 {
        0
    } else if s[0] == '\n' {
        0
    } else {
        1 + first_newline(s.drop_first())
    }
}

/// [`first_newline`] is in bounds, lands on a newline when one exists, and
/// nothing before it is a newline.
pub proof fn lemma_first_newline(s: Seq<char>)
    ensures
        0 <= first_newline(s) <= s.len(),
        first_newline(s) < s.len() ==> s[first_newline(s)] == '\n',
        forall|k: int| 0 <= k < first_newline(s) ==> s[k] != '\n',
    decreases s.len(),
{
    if s.len() == 0 {
    } else if s[0] == '\n' {
    } else {
        lemma_first_newline(s.drop_first());
        assert forall|k: int| 0 <= k < first_newline(s) implies s[k] != '\n' by {
            if k > 0 {
                assert(s.drop_first()[k - 1] != '\n');
                assert(s[k] == s.drop_first()[k - 1]);
            }
        }
    }
}

/// A position that is a newline with none before it is [`first_newline`].
pub proof fn lemma_first_newline_found(s: Seq<char>, p: int)
    requires
        0 <= p < s.len(),
        s[p] == '\n',
        forall|k: int| 0 <= k < p ==> s[k] != '\n',
    ensures
        first_newline(s) == p,
    decreases s.len(),
{
    if p == 0 {
    } else {
        assert(s[0] != '\n');
        lemma_first_newline_found(s.drop_first(), p - 1);
    }
}

/// A text without newlines has [`first_newline`] at its length.
pub proof fn lemma_first_newline_none(s: Seq<char>)
    requires
        forall|k: int| 0 <= k < s.len() ==> s[k] != '\n',
    ensures
        first_newline(s) == s.len(),
    decreases s.len(),
{
    if s.len() > 0 {
        lemma_first_newline_none(s.drop_first());
    }
}

/// The mathematical state of the decoder: the text buffered so far (never
/// containing a complete line) and whether the terminal `Stop` was emitted.
pub struct DecoderModel {
    pub buf: Seq<char>,
    pub done: bool,
}

impl DecoderModel {
    /// The state of a fresh decoder.
    pub open spec fn init() -> DecoderModel {
        DecoderModel { buf: Seq::empty(), done: false }
    }
}

/// Drains every complete line out of `buf`: the events emitted, the
/// remaining buffer, and whether decoding terminated (a line failed to
/// parse, emitting the terminal `Stop`).
pub open spec fn drain_spec(buf: Seq<char>) -> (Seq<PromptEventModel>, Seq<char>, bool)
    decreases buf.len(),
{
    let p = first_newline(buf);
    if 0 <= p < buf.len() {
        let line = buf.subrange(0, p);
        let rest = buf.subrange(p + 1, buf.len() as int);
        match parse_line(line) {
            Some(c) => {
                let r = drain_spec(rest);
                (seq![PromptEventModel::Message(c)] + r.0, r.1, r.2)
            },
            None => (seq![PromptEventModel::Stop], Seq::empty(), true),
        }
    } else {
        (Seq::empty(), buf, false)
    }
}

/// What feeding a decoded text does to the decoder: nothing once
/// terminated, otherwise append and drain.
pub open spec fn feed_text_spec(st: DecoderModel, t: Seq<char>) -> (DecoderModel, Seq<
    PromptEventModel,
>) {
    if st.done {
        (st, Seq::empty())
    } else {
        let r = drain_spec(st.buf + t);
        (DecoderModel { buf: r.1, done: r.2 }, r.0)
    }
}

/// What feeding a raw byte chunk does: nothing once terminated; invalid
/// UTF-8 is fatal (one `Stop`); otherwise as [`feed_text_spec`].
pub open spec fn feed_spec(st: DecoderModel, chunk: Seq<u8>) -> (DecoderModel, Seq<
    PromptEventModel,
>) {
    if st.done {
        (st, Seq::empty())
    } else {
        match utf8_of(chunk) {
            None => (DecoderModel { buf: Seq::empty(), done: true }, seq![PromptEventModel::Stop]),
            Some(t) => feed_text_spec(st, t),
        }
    }
}

/// What end-of-stream does: the terminal `Stop`, unless already emitted.
pub open spec fn finish_spec(st: DecoderModel) -> (DecoderModel, Seq<PromptEventModel>) {
    if st.done {
        (st, Seq::empty())
    } else {
        (DecoderModel { buf: Seq::empty(), done: true }, seq![PromptEventModel::Stop])
    }
}

/// What decoding a byte sequence as UTF-8 yields: `None` exactly on
/// invalid data. Decoding is a function of the bytes alone.
pub uninterp spec fn utf8_of(b: Seq<u8>) -> Option<Seq<char>>;

/// Relies on `core::str::from_utf8`: validates the bytes as UTF-8 and
/// decodes them into characters, `Err` on invalid data.
#[verifier::external_body]
fn decode_utf8_chunk(b: &[u8]) -> (r: Option<String>)
    ensures
        r matches Some(s) ==> utf8_of(b@) == Some(s@),
        r is None ==> utf8_of(b@) is None,
{
    match core::str::from_utf8(b) {
        Ok(s) => Some(s.to_owned()),
        Err(_) => None,
    }
}

/// Index of the first newline character in `s`, or its character length
/// if there is none.
fn find_newline_in(s: &str) -> (r: usize)
    ensures
        r as int == first_newline(s@),
{
    let n = s.unicode_len();
    let mut i: usize = 0;
    while i < n
        invariant
            n == s@.len(),
            0 <= i <= n,
            forall|k: int| 0 <= k < i ==> s@[k] != '\n',
        decreases n - i,
    {
        let c = s.get_char(i);
        if c == '\n' {
            proof {
                lemma_first_newline_found(s@, i as int);
            }
            return i;
        }
        i += 1;
    }
    proof {
        lemma_first_newline_none(s@);
    }
    n
}

/// Appending text does not move an existing first newline; where there is
/// none, the first newline of the whole is found in the appended part.
pub proof fn lemma_first_newline_append(a: Seq<char>, b: Seq<char>)
    ensures
        first_newline(a) < a.len() ==> first_newline(a + b) == first_newline(a),
        first_newline(a) == a.len() ==> first_newline(a + b) == a.len() + first_newline(b),
{
    lemma_first_newline(a);
    lemma_first_newline(b);
    let p = first_newline(a);
    if p < a.len() {
        assert((a + b)[p] == a[p]);
        assert(forall|k: int| 0 <= k < p ==> (a + b)[k] == a[k]);
        lemma_first_newline_found(a + b, p);
    } else {
        let q = first_newline(b);
        assert(forall|k: int| 0 <= k < a.len() ==> (a + b)[k] == a[k]);
        if q < b.len() {
            assert((a + b)[a.len() + q] == b[q]);
            assert(forall|k: int|
                a.len() <= k < a.len() + q ==> (a + b)[k] == b[k - a.len()] && b[k - a.len()]
                    != '\n');
            lemma_first_newline_found(a + b, a.len() + q);
        } else {
            assert(forall|k: int|
                a.len() <= k < (a + b).len() ==> (a + b)[k] == b[k - a.len()] && b[k - a.len()]
                    != '\n');
            lemma_first_newline_none(a + b);
        }
    }
}

/// What draining leaves in the buffer holds no newline.
pub proof fn lemma_drain_rem_no_newline(buf: Seq<char>)
    ensures
        first_newline(drain_spec(buf).1) == drain_spec(buf).1.len(),
    decreases buf.len(),
{
    lemma_first_newline(buf);
    let p = first_newline(buf);
    if 0 <= p < buf.len() {
        let rest = buf.subrange(p + 1, buf.len() as int);
        match parse_line(buf.subrange(0, p)) {
            Some(_) => {
                lemma_drain_rem_no_newline(rest);
            },
            None => {
                lemma_first_newline_none(Seq::empty());
            },
        }
    }
}

/// Draining a buffer with more text appended drains the same complete
/// lines first: either draining the shorter buffer already terminated, and
/// the appended text changes nothing, or the remainder and the appended
/// text are drained next.
pub proof fn lemma_drain_append(buf: Seq<char>, ext: Seq<char>)
    ensures
        drain_spec(buf).2 ==> drain_spec(buf + ext) == drain_spec(buf),
        !drain_spec(buf).2 ==> {
            let r = drain_spec(buf);
            let r2 = drain_spec(r.1 + ext);
            drain_spec(buf + ext).0 == r.0 + r2.0 && drain_spec(buf + ext).1 == r2.1 && drain_spec(
                buf + ext,
            ).2 == r2.2
        },
    decreases buf.len(),
{
    lemma_first_newline(buf);
    lemma_first_newline_append(buf, ext);
    let p = first_newline(buf);
    if 0 <= p < buf.len() {
        let line = buf.subrange(0, p);
        let rest = buf.subrange(p + 1, buf.len() as int);
        assert((buf + ext).subrange(0, p) =~= line);
        assert((buf + ext).subrange(p + 1, (buf + ext).len() as int) =~= rest + ext);
        match parse_line(line) {
            Some(c) => {
                lemma_drain_append(rest, ext);
                let dr = drain_spec(rest);
                if dr.2 {
                    assert(drain_spec(buf + ext).0 =~= drain_spec(buf).0);
                } else {
                    let r2 = drain_spec(dr.1 + ext);
                    assert(seq![PromptEventModel::Message(c)] + (dr.0 + r2.0) =~= (seq![
                        PromptEventModel::Message(c),
                    ] + dr.0) + r2.0);
                }
            },
            None => {
            },
        }
    } else {
        assert(buf + ext =~= drain_spec(buf).1 + ext);
        let r2 = drain_spec(drain_spec(buf).1 + ext);
        assert(drain_spec(buf).0 + r2.0 =~= r2.0);
    }
}

/// Feeding two texts one after the other is feeding their concatenation:
/// the decoder is insensitive to how the stream is split.
pub proof fn lemma_feed_text_append(st: DecoderModel, a: Seq<char>, b: Seq<char>)
    ensures
        feed_text_spec(st, a + b).0 == feed_text_spec(feed_text_spec(st, a).0, b).0,
        feed_text_spec(st, a + b).1 == feed_text_spec(st, a).1 + feed_text_spec(
            feed_text_spec(st, a).0,
            b,
        ).1,
{
    if st.done {
        assert(feed_text_spec(st, a).1 + feed_text_spec(feed_text_spec(st, a).0, b).1
            =~= Seq::<PromptEventModel>::empty());
    } else {
        assert(st.buf + (a + b) =~= (st.buf + a) + b);
        lemma_drain_append(st.buf + a, b);
        let r = drain_spec(st.buf + a);
        if r.2 {
            assert(r.0 + feed_text_spec(feed_text_spec(st, a).0, b).1 =~= r.0);
        }
    }
}

/// What feeding a sequence of raw chunks in order does to the decoder.
pub open spec fn run_feed_spec(st: DecoderModel, chunks: Seq<Seq<u8>>) -> (DecoderModel, Seq<
    PromptEventModel,
>)
    decreases chunks.len(),
{
    if chunks.len() == 0 {
        (st, Seq::empty())
    } else {
        let r = feed_spec(st, chunks.first());
        let rr = run_feed_spec(r.0, chunks.drop_first());
        (rr.0, r.1 + rr.1)
    }
}

/// Feeding valid chunks one at a time equals feeding the concatenation of
/// their decoded texts at once: chunk boundaries do not matter.
pub proof fn lemma_run_feed_concat(st: DecoderModel, chunks: Seq<Seq<u8>>, texts: Seq<Seq<char>>)
    requires
        !st.done ==> first_newline(st.buf) == st.buf.len(),
        texts.len() == chunks.len(),
        forall|i: int| 0 <= i < chunks.len() ==> utf8_of(#[trigger] chunks[i]) == Some(texts[i]),
    ensures
        run_feed_spec(st, chunks).0 == feed_text_spec(st, texts.flatten()).0,
        run_feed_spec(st, chunks).1 == feed_text_spec(st, texts.flatten()).1,
    decreases chunks.len(),
{
    if chunks.len() == 0 {
        if !st.done {
            assert(st.buf + texts.flatten() =~= st.buf);
            assert(drain_spec(st.buf).1 == st.buf && drain_spec(st.buf).0
                == Seq::<PromptEventModel>::empty() && !drain_spec(st.buf).2);
        }
    } else {
        assert(utf8_of(chunks[0]) == Some(texts[0]));
        let r = feed_spec(st, chunks.first());
        assert(r == feed_text_spec(st, texts.first()));
        if !st.done {
            lemma_drain_rem_no_newline(st.buf + texts.first());
        }
        assert(!r.0.done ==> first_newline(r.0.buf) == r.0.buf.len()) by {
            if !st.done && !r.0.done {
                assert(r.0.buf == drain_spec(st.buf + texts.first()).1);
            }
        }
        assert(texts.drop_first().len() == chunks.drop_first().len());
        assert(forall|i: int|
            0 <= i < chunks.drop_first().len() ==> utf8_of(#[trigger] chunks.drop_first()[i])
                == Some(texts.drop_first()[i])) by {
            assert(forall|i: int|
                0 <= i < chunks.drop_first().len() ==> chunks.drop_first()[i] == chunks[i + 1]
                    && texts.drop_first()[i] == texts[i + 1]);
        }
        lemma_run_feed_concat(r.0, chunks.drop_first(), texts.drop_first());
        lemma_feed_text_append(st, texts.first(), texts.drop_first().flatten());
        assert(texts.flatten() == texts.first() + texts.drop_first().flatten());
    }
}

/// The wire form of a record: the record text followed by one newline.
pub open spec fn record_text(r: Seq<char>) -> Seq<char> {
    r + seq!['\n']
}

/// The wire form of a whole stream of records.
pub open spec fn records_wire(records: Seq<Seq<char>>) -> Seq<char> {
    records.map_values(|r: Seq<char>| record_text(r)).flatten()
}

/// The event a record decodes to.
pub open spec fn record_event(r: Seq<char>) -> PromptEventModel {
    PromptEventModel::Message(parse_line(r).unwrap())
}

/// The events a whole stream of records decodes to.
pub open spec fn record_events(records: Seq<Seq<char>>) -> Seq<PromptEventModel> {
    records.map_values(|r: Seq<char>| record_event(r))
}

/// Draining the wire form of well-formed, newline-free records yields
/// exactly their events, in order, leaving an empty buffer.
pub proof fn lemma_drain_records(records: Seq<Seq<char>>)
    requires
        forall|i: int|
            0 <= i < records.len() ==> first_newline(#[trigger] records[i]) == records[i].len(),
        forall|i: int| 0 <= i < records.len() ==> parse_line(#[trigger] records[i]) is Some,
    ensures
        drain_spec(records_wire(records)).0 == record_events(records),
        drain_spec(records_wire(records)).1 == Seq::<char>::empty(),
        drain_spec(records_wire(records)).2 == false,
    decreases records.len(),
{
    let wire = records_wire(records);
    if records.len() == 0 {
        assert(wire =~= Seq::<char>::empty());
        assert(record_events(records) =~= Seq::<PromptEventModel>::empty());
    } else {
        let r0 = records.first();
        let tail = records.drop_first();
        let mapped = records.map_values(|r: Seq<char>| record_text(r));
        assert(mapped.first() == record_text(r0));
        assert(mapped.drop_first() =~= tail.map_values(|r: Seq<char>| record_text(r)));
        assert(wire == record_text(r0) + records_wire(tail));
        lemma_first_newline(r0);
        assert(wire[r0.len() as int] == '\n');
        assert(forall|k: int| 0 <= k < r0.len() ==> wire[k] == r0[k] && r0[k] != '\n');
        lemma_first_newline_found(wire, r0.len() as int);
        assert(wire.subrange(0, r0.len() as int) =~= r0);
        assert(wire.subrange(r0.len() as int + 1, wire.len() as int) =~= records_wire(tail));
        assert(forall|i: int|
            0 <= i < tail.len() ==> first_newline(#[trigger] tail[i]) == tail[i].len()
                && parse_line(tail[i]) is Some) by {
            assert(forall|i: int| 0 <= i < tail.len() ==> tail[i] == records[i + 1]);
        }
        lemma_drain_records(tail);
        assert(record_events(records) =~= seq![record_event(r0)] + record_events(tail));
    }
}

/// For all chunk streams whose decoded concatenation is a sequence of
/// newline-terminated, well-formed records — however the stream is split
/// into chunks — a fresh decoder emits exactly one `Message` per record,
/// in order, and end-of-stream then emits exactly one `Stop`.
///
/// Each chunk must decode on its own: the stream is decoded chunk by
/// chunk, so a multi-byte character split across a chunk boundary is
/// invalid data and terminates the stream instead.
pub proof fn lemma_decoder_emits_records(
    chunks: Seq<Seq<u8>>,
    texts: Seq<Seq<char>>,
    records: Seq<Seq<char>>,
)
    requires
        texts.len() == chunks.len(),
        forall|i: int| 0 <= i < chunks.len() ==> utf8_of(#[trigger] chunks[i]) == Some(texts[i]),
        texts.flatten() == records_wire(records),
        forall|i: int|
            0 <= i < records.len() ==> first_newline(#[trigger] records[i]) == records[i].len(),
        forall|i: int| 0 <= i < records.len() ==> parse_line(#[trigger] records[i]) is Some,
    ensures
        ({
            let r = run_feed_spec(DecoderModel::init(), chunks);
            let f = finish_spec(r.0);
            r.1 + f.1 == record_events(records) + seq![PromptEventModel::Stop] && r.0 == (
            DecoderModel { buf: Seq::empty(), done: false })
        }),
{
    let st0 = DecoderModel::init();
    lemma_first_newline_none(st0.buf);
    lemma_run_feed_concat(st0, chunks, texts);
    assert(st0.buf + texts.flatten() =~= records_wire(records));
    lemma_drain_records(records);
    let r = run_feed_spec(st0, chunks);
    assert(r.1 == record_events(records));
    assert(!r.0.done);
    assert(r.1 + finish_spec(r.0).1 =~= record_events(records) + seq![PromptEventModel::Stop]);
}

/// The streaming NDJSON decoder for one completion session.
pub struct NdJsonDecoder {
    buf: String,
    done: bool,
}

impl View for NdJsonDecoder {
    type V = DecoderModel;

    closed spec fn view(&self) -> DecoderModel {
        DecoderModel { buf: self.buf@, done: self.done }
    }
}

impl NdJsonDecoder {
    /// A fresh decoder with an empty buffer.
    pub fn new() -> (d: NdJsonDecoder)
        ensures
            d@ == DecoderModel::init(),
    {
        NdJsonDecoder { buf: String::new(), done: false }
    }

    /// Whether the terminal `Stop` has been emitted.
    pub fn is_done(&self) -> (r: bool)
        ensures
            r == self@.done,
    {
        self.done
    }

    /// Feeds one raw chunk, emitting every completion event it completes,
    /// in arrival order.
    #[verifier::loop_isolation(false)]
    pub fn feed(&mut self, chunk: &[u8]) -> (out: Vec<PromptEvent>)
        ensures
            final(self)@ == feed_spec(old(self)@, chunk@).0,
            out.deep_view() == feed_spec(old(self)@, chunk@).1,
    {
        let mut out: Vec<PromptEvent> = Vec::new();
        if self.done {
            proof {
                assert(out.deep_view() =~= Seq::<PromptEventModel>::empty());
            }
            return out;
        }
        let t = match decode_utf8_chunk(chunk) {
            Some(t) => t,
            None => {
                self.buf = String::new();
                self.done = true;
                out.push(PromptEvent::Stop);
                proof {
                    assert(out.deep_view() =~= seq![PromptEventModel::Stop]);
                }
                return out;
            },
        };
        self.buf.append(t.as_str());
        let ghost buf0 = self.buf@;
        proof {
            assert(buf0 == old(self)@.buf + t@);
        }
        let mut n = self.buf.as_str().unicode_len();
        let mut p = find_newline_in(self.buf.as_str());
        while p < n
            invariant
                self.done == false,
                n == self@.buf.len(),
                p as int == first_newline(self@.buf),
                drain_spec(buf0).0 == out.deep_view() + drain_spec(self@.buf).0,
                drain_spec(buf0).1 == drain_spec(self@.buf).1,
                drain_spec(buf0).2 == drain_spec(self@.buf).2,
            decreases self@.buf.len(),
        {
            let cur = self.buf.clone();
            let line = cur.as_str().substring_char(0, p);
            let ghost evs_before = out.deep_view();
            let parsed = match json_from_str(line) {
                Some(v) => chat_from_value(&v),
                None => None,
            };
            match parsed {
                Some(c) => {
                    let ghost cm = c@;
                    out.push(PromptEvent::Message(c));
                    proof {
                        assert(out.deep_view() =~= evs_before.push(PromptEventModel::Message(cm)));
                    }
                },
                None => {
                    self.buf = String::new();
                    self.done = true;
                    out.push(PromptEvent::Stop);
                    proof {
                        assert(out.deep_view() =~= evs_before.push(PromptEventModel::Stop));
                        assert(evs_before.push(PromptEventModel::Stop) =~= evs_before + seq![
                            PromptEventModel::Stop,
                        ]);
                    }
                    return out;
                },
            }
            let rest = cur.as_str().substring_char(p + 1, n).to_owned();
            self.buf = rest;
            proof {
                assert(out.deep_view() + drain_spec(self@.buf).0 =~= evs_before + (seq![
                    PromptEventModel::Message(parsed.unwrap()@),
                ] + drain_spec(self@.buf).0));
            }
            n = self.buf.as_str().unicode_len();
            p = find_newline_in(self.buf.as_str());
        }
        proof {
            assert(out.deep_view() + drain_spec(self@.buf).0 =~= out.deep_view());
        }
        out
    }

    /// Signals end-of-stream: emits the terminal `Stop` unless it was
    /// already emitted.
    pub fn finish(&mut self) -> (out: Vec<PromptEvent>)
        ensures
            final(self)@ == finish_spec(old(self)@).0,
            out.deep_view() == finish_spec(old(self)@).1,
    {
        let mut out: Vec<PromptEvent> = Vec::new();
        if self.done {
            proof {
                assert(out.deep_view() =~= Seq::<PromptEventModel>::empty());
            }
            return out;
        }
        self.buf = String::new();
        self.done = true;
        out.push(PromptEvent::Stop);
        proof {
            assert(out.deep_view() =~= seq![PromptEventModel::Stop]);
        }
        out
    }
}

} // verus!
