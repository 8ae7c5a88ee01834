//! The completion session and its cancellation protocol.
//!
//! A session bundles the decoded-event stream with an abort capability: the
//! event stream may be taken at most once, and abort is idempotent. The
//! chunk-reading loop observes the abort flag at the top of every iteration;
//! [`reader_step`] is one such iteration, and the lemmas below show that a
//! session emits exactly one terminal `Stop` — on abort, on end-of-stream,
//! or on a decode failure — and nothing after it.

use vstd::prelude::*;

use crate::decoder::{drain_spec, feed_spec, finish_spec, DecoderModel, NdJsonDecoder};
use crate::errors::{internal, Error};
use crate::llm::{PromptEvent, PromptEventModel};

verus! {

/// The mathematical value of a [`ReaderInput`].
pub enum ReaderInputModel {
    Chunk(Seq<u8>),
    End,
}

/// One item of the raw-data channel feeding the decoder: a chunk of the
/// response body, or the producer's end-of-stream mark.
pub enum ReaderInput {
    Chunk(Vec<u8>),
    End,
}

impl View for ReaderInput {
    type V = ReaderInputModel;

    open spec fn view(&self) -> ReaderInputModel {
        match self {
            ReaderInput::Chunk(b) => ReaderInputModel::Chunk(b@),
            ReaderInput::End => ReaderInputModel::End,
        }
    }
}

/// The channel item one loop iteration received, if any (`None`: the
/// channel is closed).
pub open spec fn input_view(input: Option<&ReaderInput>) -> Option<ReaderInputModel> {
    match input {
        Some(r) => Some(r@),
        None => None,
    }
}

/// One iteration of the chunk-reading loop: the abort flag is observed
/// first; on abort, channel close or end-of-stream the decoder finishes
/// (one terminal `Stop`), otherwise the chunk is fed to the decoder.
pub open spec fn reader_step_spec(
    st: DecoderModel,
    aborted: bool,
    input: Option<ReaderInputModel>,
) -> (DecoderModel, Seq<PromptEventModel>) {
    if st.done {
        (st, Seq::empty())
    } else if aborted {
        finish_spec(st)
    } else {
        match input {
            None => finish_spec(st),
            Some(ReaderInputModel::End) => finish_spec(st),
            Some(ReaderInputModel::Chunk(b)) => feed_spec(st, b),
        }
    }
}

/// Runs one iteration of the chunk-reading loop against the decoder.
pub fn reader_step(dec: &mut NdJsonDecoder, aborted: bool, input: Option<&ReaderInput>) -> (out:
    Vec<PromptEvent>)
    ensures
        final(dec)@ == reader_step_spec(old(dec)@, aborted, input_view(input)).0,
        out.deep_view() == reader_step_spec(old(dec)@, aborted, input_view(input)).1,
{
    if dec.is_done() {
        let out: Vec<PromptEvent> = Vec::new();
        proof {
            assert(out.deep_view() =~= Seq::<PromptEventModel>::empty());
        }
        return out;
    }
    if aborted {
        return dec.finish();
    }
    match input {
        None => dec.finish(),
        Some(ReaderInput::End) => dec.finish(),
        Some(ReaderInput::Chunk(b)) => dec.feed(b.as_slice()),
    }
}

/// How many terminal `Stop` events a sequence of events holds.
pub open spec fn count_stops(evs: Seq<PromptEventModel>) -> int
    decreases evs.len(),
{
    if evs.len() == 0 {
        0
    } else {
        (if evs[0] is Stop {
            1int
        } else {
            0int
        }) + count_stops(evs.drop_first())
    }
}

/// The stop count of a single event.
pub proof fn lemma_count_stops_single(e: PromptEventModel)
    ensures
        count_stops(seq![e]) == (if e is Stop {
            1int
        } else {
            0int
        }),
{
    assert(seq![e].drop_first() =~= Seq::<PromptEventModel>::empty());
    assert(count_stops(Seq::<PromptEventModel>::empty()) == 0);
}

/// Stop counts add over concatenation.
pub proof fn lemma_count_stops_add(a: Seq<PromptEventModel>, b: Seq<PromptEventModel>)
    ensures
        count_stops(a + b) == count_stops(a) + count_stops(b),
    decreases a.len(),
{
    if a.len() == 0 {
        assert(a + b =~= b);
    } else {
        assert((a + b).drop_first() =~= a.drop_first() + b);
        lemma_count_stops_add(a.drop_first(), b);
    }
}

/// Draining emits `Stop` exactly when it terminates, and then as the last
/// event.
pub proof fn lemma_drain_stops(buf: Seq<char>)
    ensures
        !drain_spec(buf).2 ==> count_stops(drain_spec(buf).0) == 0,
        drain_spec(buf).2 ==> {
            &&& count_stops(drain_spec(buf).0) == 1
            &&& drain_spec(buf).0.len() >= 1
            &&& drain_spec(buf).0.last() is Stop
        },
    decreases buf.len(),
{
    let p = crate::decoder::first_newline(buf);
    crate::decoder::lemma_first_newline(buf);
    if 0 <= p < buf.len() {
        let line = buf.subrange(0, p);
        let rest = buf.subrange(p + 1, buf.len() as int);
        match crate::decoder::parse_line(line) {
            Some(c) => {
                lemma_drain_stops(rest);
                let r = drain_spec(rest);
                lemma_count_stops_add(seq![PromptEventModel::Message(c)], r.0);
                lemma_count_stops_single(PromptEventModel::Message(c));
                if r.2 {
                    assert((seq![PromptEventModel::Message(c)] + r.0).last() == r.0.last());
                }
            },
            None => {
                lemma_count_stops_single(PromptEventModel::Stop);
            },
        }
    }
}

/// One reader iteration emits `Stop` exactly when it terminates the
/// session, and then as the last event; an abort terminates the session;
/// a terminated session stays terminated and silent.
pub proof fn lemma_reader_step_stops(
    st: DecoderModel,
    aborted: bool,
    input: Option<ReaderInputModel>,
)
    ensures
        ({
            let r = reader_step_spec(st, aborted, input);
            &&& st.done ==> r.0 == st && r.1 == Seq::<PromptEventModel>::empty()
            &&& st.done ==> r.0.done
            &&& !st.done ==> count_stops(r.1) == (if r.0.done {
                1int
            } else {
                0int
            })
            &&& (!st.done && r.0.done) ==> r.1.len() >= 1 && r.1.last() is Stop
            &&& aborted ==> r.0.done
        }),
{
    let r = reader_step_spec(st, aborted, input);
    if st.done {
    } else if aborted {
        lemma_count_stops_single(PromptEventModel::Stop);
    } else {
        match input {
            None => {
                lemma_count_stops_single(PromptEventModel::Stop);
            },
            Some(ReaderInputModel::End) => {
                lemma_count_stops_single(PromptEventModel::Stop);
            },
            Some(ReaderInputModel::Chunk(b)) => {
                match crate::decoder::utf8_of(b) {
                    None => {
                        lemma_count_stops_single(PromptEventModel::Stop);
                    },
                    Some(t) => {
                        lemma_drain_stops(st.buf + t);
                    },
                }
            },
        }
    }
}

/// What a whole run of the chunk-reading loop does: each pair is the abort
/// flag as observed at the top of one iteration, with the channel item that
/// iteration received.
pub open spec fn run_reader_spec(st: DecoderModel, steps: Seq<(bool, Option<ReaderInputModel>)>)
    -> (DecoderModel, Seq<PromptEventModel>)
    decreases steps.len(),
{
    if steps.len() == 0 {
        (st, Seq::empty())
    } else {
        let r = reader_step_spec(st, steps.first().0, steps.first().1);
        let rr = run_reader_spec(r.0, steps.drop_first());
        (rr.0, r.1 + rr.1)
    }
}

/// A terminated session is silent for the rest of its run.
pub proof fn lemma_run_done_silent(st: DecoderModel, steps: Seq<(bool, Option<ReaderInputModel>)>)
    requires
        st.done,
    ensures
        run_reader_spec(st, steps).0 == st,
        run_reader_spec(st, steps).1 == Seq::<PromptEventModel>::empty(),
    decreases steps.len(),
{
    if steps.len() > 0 {
        lemma_run_done_silent(st, steps.drop_first());
        assert(Seq::<PromptEventModel>::empty() + Seq::<PromptEventModel>::empty()
            =~= Seq::<PromptEventModel>::empty());
    }
}

/// Over a whole run, `Stop` is emitted exactly once if the session
/// terminates — and then as the very last event — and never otherwise.
pub proof fn lemma_run_single_stop(st: DecoderModel, steps: Seq<(bool, Option<ReaderInputModel>)>)
    requires
        !st.done,
    ensures
        ({
            let r = run_reader_spec(st, steps);
            &&& count_stops(r.1) == (if r.0.done {
                1int
            } else {
                0int
            })
            &&& r.0.done ==> r.1.len() >= 1 && r.1.last() is Stop
        }),
    decreases steps.len(),
{
    if steps.len() > 0 {
        let r = reader_step_spec(st, steps.first().0, steps.first().1);
        let rr = run_reader_spec(r.0, steps.drop_first());
        lemma_reader_step_stops(st, steps.first().0, steps.first().1);
        lemma_count_stops_add(r.1, rr.1);
        if r.0.done {
            lemma_run_done_silent(r.0, steps.drop_first());
            assert(r.1 + rr.1 =~= r.1);
        } else {
            lemma_run_single_stop(r.0, steps.drop_first());
            if rr.0.done {
                assert((r.1 + rr.1).last() == rr.1.last());
            }
        }
    }
}

/// An abort observed at any iteration terminates the session by the end of
/// the run.
pub proof fn lemma_abort_terminates(
    st: DecoderModel,
    steps: Seq<(bool, Option<ReaderInputModel>)>,
    i: int,
)
    requires
        0 <= i < steps.len(),
        steps[i].0,
    ensures
        run_reader_spec(st, steps).0.done,
    decreases steps.len(),
{
    let r = reader_step_spec(st, steps.first().0, steps.first().1);
    lemma_reader_step_stops(st, steps.first().0, steps.first().1);
    if i == 0 {
        if r.0.done {
            lemma_run_done_silent(r.0, steps.drop_first());
        } else {
            assert(false);
        }
    } else {
        lemma_abort_terminates(r.0, steps.drop_first(), i - 1);
    }
}

/// Aborting a session before stream end yields eventually exactly one
/// terminal `Stop`, as the last event of the run; aborting a session whose
/// stream already ended emits nothing more.
pub proof fn lemma_abort_single_stop(
    st: DecoderModel,
    steps: Seq<(bool, Option<ReaderInputModel>)>,
    i: int,
)
    requires
        !st.done,
        0 <= i < steps.len(),
        steps[i].0,
    ensures
        count_stops(run_reader_spec(st, steps).1) == 1,
        run_reader_spec(st, steps).1.last() is Stop,
{
    lemma_abort_terminates(st, steps, i);
    lemma_run_single_stop(st, steps);
}

/// The mathematical state of a [`PromptSession`].
pub struct SessionModel {
    pub taken: bool,
    pub aborted: bool,
}

/// The caller-facing handle of one in-flight completion: the event stream
/// may be claimed at most once, and abort may be requested any number of
/// times.
pub struct PromptSession {
    taken: bool,
    aborted: bool,
}

impl View for PromptSession {
    type V = SessionModel;

    closed spec fn view(&self) -> SessionModel {
        SessionModel { taken: self.taken, aborted: self.aborted }
    }
}

impl PromptSession {
    /// A fresh session: stream not yet claimed, no abort requested.
    pub fn new() -> (s: PromptSession)
        ensures
            s@ == (SessionModel { taken: false, aborted: false }),
    {
        PromptSession { taken: false, aborted: false }
    }

    /// Claims the event stream. Fails — explicitly, without touching the
    /// session — if it was already claimed.
    pub fn take_events(&mut self) -> (r: Result<(), Error>)
        ensures
            old(self)@.taken ==> r is Err && final(self)@ == old(self)@,
            !old(self)@.taken ==> r is Ok && final(self)@ == (SessionModel {
                taken: true,
                aborted: old(self)@.aborted,
            }),
            r matches Err(e) ==> e matches Error::Internal(m) && m@
                == "Prompt receiver was already taken"@,
    {
        if self.taken {
            Err(internal("Prompt receiver was already taken"))
        } else {
            self.taken = true;
            Ok(())
        }
    }

    /// Requests cancellation. Idempotent: any number of aborts leaves the
    /// session in the same state as one.
    pub fn abort(&mut self)
        ensures
            final(self)@ == (SessionModel { taken: old(self)@.taken, aborted: true }),
    {
        self.aborted = true;
    }

    /// Whether cancellation was requested.
    pub fn is_aborted(&self) -> (r: bool)
        ensures
            r == self@.aborted,
    {
        self.aborted
    }
}

} // verus!
