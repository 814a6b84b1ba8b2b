//! The run as a state machine: one event in, one step out.
//!
//! Whoever fetches the object offers each compressed chunk, then the end of the
//! stream, and carries out what the step says. Each step does a bounded amount
//! of work, so an event may have to be offered more than once.

use crate::aggregate::progress_marks;
use crate::decode::{end_verdict, Decompressor, DECODE_ROOM};
use crate::error::{fatal_of, FatalError, SourceFailure};
use crate::lines::{all_lines, complete_lines, longest, partial_line};
use crate::pipeline::{run_count, tally, Pipeline};
use vstd::prelude::*;

verus! {

/// What the outside hands to a run.
pub enum Event<'a> {
    /// Compressed bytes that have not been taken yet.
    Raw(&'a [u8]),
    /// The compressed stream is exhausted.
    End,
    /// The object store answered without a body.
    BodyAbsent,
    /// The object store failed.
    SourceFailed(SourceFailure),
}

/// What a run answers to an event.
pub enum Step {
    /// The run goes on.
    Continue {
        /// The next state.
        driver: Driver,
        /// How many bytes of the event were taken.
        consumed: usize,
        /// The progress reports that fell due, in order.
        progress: Vec<u64>,
        /// Whether the bytes offered were all taken and the decoder holds
        /// nothing back. Where it is not so, what is left of the bytes is to be
        /// offered again, even if nothing is left. The end of the stream is
        /// offered until the run is over.
        settled: bool,
    },
    /// The run is complete.
    Done {
        /// The record count of the whole content.
        record_count: u64,
        /// The progress report that the last line made due, if any.
        last_report: Option<u64>,
    },
    /// The run is over without a summary.
    Abort(FatalError),
}

/// The state of a run between two events.
pub struct Driver {
    decoder: Decompressor,
    lines: Pipeline,
}

impl Driver {
    /// The decompressed content taken so far.
    pub closed spec fn content(&self) -> Seq<u8> {
        self.lines.content()
    }

    /// The records counted so far.
    pub closed spec fn counted(&self) -> nat {
        self.lines.counted()
    }

    /// Whether lines that fail to parse are counted.
    pub closed spec fn counts_failed(&self) -> bool {
        self.lines.counts_failed()
    }

    /// The decompressed bytes held between events.
    pub closed spec fn buffered(&self) -> Seq<u8> {
        self.lines.buffered()
    }

    /// Whether the decoder has reported the end of the frame.
    pub closed spec fn frame_ended(&self) -> bool {
        self.decoder.frame_ended()
    }

    /// Whether any compressed byte has been offered.
    pub closed spec fn saw_input(&self) -> bool {
        self.decoder.saw_input()
    }

    /// Whether the decoder may hold output that it has not handed out.
    pub closed spec fn may_hold_output(&self) -> bool {
        self.decoder.may_hold_output()
    }

    /// Only the line under construction is held, every complete line has been
    /// tallied once, and the count has room for one more record.
    pub open spec fn wf(&self) -> bool {
        &&& self.buffered() == partial_line(self.content())
        &&& self.counted() == tally(complete_lines(self.content()), self.counts_failed())
        &&& self.counted() < u64::MAX
    }

    /// A run that has seen nothing.
    pub fn new(count_failed: bool) -> (d: Self)
        ensures
            d.wf(),
            d.content() == Seq::<u8>::empty(),
            d.counted() == 0,
            d.counts_failed() == count_failed,
            !d.frame_ended(),
            !d.saw_input(),
            !d.may_hold_output(),
    {
        Driver { decoder: Decompressor::new(), lines: Pipeline::new(count_failed) }
    }

    /// The records counted so far.
    pub fn record_count(&self) -> (n: u64)
        ensures
            n == self.counted(),
    {
        self.lines.record_count()
    }

    /// The number of decompressed bytes held between events.
    pub fn buffered_len(&self) -> (n: usize)
        ensures
            n == self.buffered().len(),
    {
        self.lines.buffered_len()
    }

    /// Whether the count has room for the lines of one more decoding round.
    pub fn has_room(&self) -> (ok: bool)
        ensures
            ok == (self.counted() + DECODE_ROOM < u64::MAX),
    {
        self.lines.record_count() < u64::MAX - (DECODE_ROOM as u64)
    }

    /// One decoding round over `input`, its output cut into lines and tallied.
    fn round(self, input: &[u8]) -> (step: Step)
        requires
            self.wf(),
            self.counted() + DECODE_ROOM < u64::MAX,
        ensures
            raw_step_holds(self, input@, step),
    {
        let mut decoder = self.decoder;
        let mut lines = self.lines;
        match decoder.pull(input) {
            Ok(decoded) => {
                let progress = lines.on_chunk(decoded.output.as_slice());
                let settled = decoded.consumed == input.len() && !decoder.is_pending();
                proof {
                    assert(self.content().is_prefix_of(self.content() + decoded.output@));
                    if self.frame_ended() {
                        assert(self.content() + decoded.output@ =~= self.content());
                    }
                }
                Step::Continue {
                    driver: Driver { decoder, lines },
                    consumed: decoded.consumed,
                    progress,
                    settled,
                }
            },
            Err(e) => Step::Abort(e),
        }
    }

    /// Takes one event and says how the run goes on.
    ///
    /// A failure of the object store and an absent body end the run with their
    /// error. Compressed bytes go through one decoding round. At the end of the
    /// stream the decoder is first drained, one round per step; then the run is
    /// complete if the frame has ended, and fails otherwise.
    pub fn step(self, event: Event<'_>) -> (step: Step)
        requires
            self.wf(),
            self.counted() + DECODE_ROOM < u64::MAX,
        ensures
            match event {
                Event::SourceFailed(failure) => step == Step::Abort(fatal_of(failure)),
                Event::BodyAbsent => step == Step::Abort(FatalError::EmptyBody),
                Event::Raw(input) => raw_step_holds(self, input@, step),
                Event::End => if self.may_hold_output() {
                    raw_step_holds(self, Seq::<u8>::empty(), step)
                } else {
                    end_step_holds(self, step)
                },
            },
    {
        match event {
            Event::SourceFailed(failure) => Step::Abort(FatalError::from_source(failure)),
            Event::BodyAbsent => Step::Abort(FatalError::EmptyBody),
            Event::Raw(input) => self.round(input),
            Event::End => {
                if self.decoder.is_pending() {
                    let empty: Vec<u8> = Vec::new();
                    self.round(empty.as_slice())
                } else {
                    match self.decoder.close() {
                        Ok(()) => {
                            let (record_count, last_report) = self.lines.finish();
                            Step::Done { record_count, last_report }
                        },
                        Err(e) => Step::Abort(e),
                    }
                }
            },
        }
    }
}

/// What holds of the step that answers compressed bytes `input` in state
/// `before`, whatever the decoder made of them.
pub open spec fn raw_step_holds(before: Driver, input: Seq<u8>, step: Step) -> bool {
    match step {
        Step::Continue { driver, consumed, progress, settled } => {
            &&& driver.wf()
            &&& driver.counts_failed() == before.counts_failed()
            &&& driver.saw_input() == (before.saw_input() || input.len() > 0)
            &&& before.frame_ended() ==> driver.frame_ended()
            &&& consumed <= input.len()
            &&& before.content().is_prefix_of(driver.content())
            &&& driver.content().len() <= before.content().len() + DECODE_ROOM
            &&& progress@ == progress_marks(before.counted(), driver.counted())
            &&& settled == (consumed == input.len() && !driver.may_hold_output())
            &&& before.frame_ended() ==> consumed == input.len() && driver.content()
                == before.content() && !driver.may_hold_output()
        },
        Step::Done { .. } => false,
        Step::Abort(e) => e == FatalError::CorruptStream && !before.frame_ended(),
    }
}

/// The step that answers the end of the stream in state `before`, once the
/// decoder holds nothing back: a summary exactly if the frame has ended.
pub open spec fn end_step_holds(before: Driver, step: Step) -> bool {
    match end_verdict(before.frame_ended(), before.saw_input()) {
        Ok(_) => {
            &&& step matches Step::Done { record_count, last_report }
            &&& record_count == run_count(before.content(), before.counts_failed())
            &&& match last_report {
                Some(n) => progress_marks(before.counted(), record_count as nat) == seq![n],
                None => progress_marks(before.counted(), record_count as nat) == Seq::<
                    u64,
                >::empty(),
            }
        },
        Err(e) => step == Step::Abort(e),
    }
}

/// Two runs under one policy whose decoders have handed out the same content
/// have counted the same number of records and hold the same bytes, however
/// the content reached them.
pub proof fn lemma_same_content_same_state(a: Driver, b: Driver)
    requires
        a.wf(),
        b.wf(),
        a.content() == b.content(),
        a.counts_failed() == b.counts_failed(),
    ensures
        a.counted() == b.counted(),
        a.buffered() == b.buffered(),
{
}

/// Between events a run holds no more decompressed bytes than the longest line
/// of any content that extends what it has taken.
pub proof fn lemma_buffer_within_longest_line(d: Driver, whole: Seq<u8>)
    requires
        d.wf(),
        d.content().is_prefix_of(whole),
    ensures
        d.buffered().len() <= longest(all_lines(whole)),
{
    let k = d.content().len() as int;
    assert(whole.take(k) =~= d.content());
    crate::lines::lemma_partial_line_bounded(whole, k);
}

/// A stream that stops before its frame has ended yields no summary, however
/// many lines came before: the run ends with an error.
pub proof fn lemma_unfinished_frame_aborts(before: Driver, step: Step)
    requires
        !before.frame_ended(),
        end_step_holds(before, step),
    ensures
        step == Step::Abort(
            if before.saw_input() {
                FatalError::CorruptStream
            } else {
                FatalError::EmptyBody
            },
        ),
{
}

/// A run whose frame has ended and whose content is all well-formed lines ends
/// with a summary that counts exactly those lines, under either policy.
pub proof fn lemma_well_formed_content_counted(before: Driver, step: Step)
    requires
        before.frame_ended(),
        end_step_holds(before, step),
        forall|i: int|
            0 <= i < all_lines(before.content()).len() ==> #[trigger] crate::record::json_well_formed(
                all_lines(before.content())[i],
            ),
    ensures
        step matches Step::Done { record_count, .. } && record_count == all_lines(
            before.content(),
        ).len(),
{
    crate::pipeline::lemma_well_formed_run_counts_lines(before.content(), before.counts_failed());
}

} // verus!
