//! One run: decompressed bytes in, record count out.

use crate::aggregate::{is_counted, progress_marks, step_of, Aggregator};
use crate::lines::{all_lines, complete_lines, partial_line, LineSplitter};
use crate::record::{json_well_formed, parse};
use vstd::prelude::*;

verus! {

/// The number of `lines` that count: all of them where failed parses count,
/// else those that are well-formed JSON.
pub open spec fn tally(lines: Seq<Seq<u8>>, count_failed: bool) -> nat
    decreases lines.len(),
{
    if lines.len() == 0 {
        0
    } else {
        tally(lines.drop_last(), count_failed) + step_of(
            json_well_formed(lines.last()),
            count_failed,
        )
    }
}

/// The record count of a whole run over `content`.
pub open spec fn run_count(content: Seq<u8>, count_failed: bool) -> nat {
    tally(all_lines(content), count_failed)
}

/// One more line raises the tally by what that line counts for.
pub proof fn lemma_tally_push(lines: Seq<Seq<u8>>, line: Seq<u8>, count_failed: bool)
    ensures
        tally(lines.push(line), count_failed) == tally(lines, count_failed) + step_of(
            json_well_formed(line),
            count_failed,
        ),
{
    assert(lines.push(line).drop_last() =~= lines);
}

/// Where every line counts, the tally is the number of lines. This holds of
/// lines that are all well-formed under either policy, and of any lines where
/// failed parses count.
pub proof fn lemma_tally_all_counted(lines: Seq<Seq<u8>>, count_failed: bool)
    requires
        forall|i: int|
            0 <= i < lines.len() ==> is_counted(#[trigger] json_well_formed(lines[i]), count_failed),
    ensures
        tally(lines, count_failed) == lines.len(),
    decreases lines.len(),
{
    if lines.len() > 0 {
        let front = lines.drop_last();
        assert forall|i: int| 0 <= i < front.len() implies is_counted(
            #[trigger] json_well_formed(front[i]),
            count_failed,
        ) by {
            assert(front[i] == lines[i]);
        }
        lemma_tally_all_counted(front, count_failed);
    }
}

/// A run over content whose lines are all well-formed JSON reports exactly the
/// number of lines, whatever the policy for failed parses.
pub proof fn lemma_well_formed_run_counts_lines(content: Seq<u8>, count_failed: bool)
    requires
        forall|i: int|
            0 <= i < all_lines(content).len() ==> #[trigger] json_well_formed(
                all_lines(content)[i],
            ),
    ensures
        run_count(content, count_failed) == all_lines(content).len(),
{
    lemma_tally_all_counted(all_lines(content), count_failed);
}

/// A run over content that is one unterminated line reports one record where
/// that line counts.
pub proof fn lemma_single_line_run(content: Seq<u8>, count_failed: bool)
    requires
        content.len() > 0,
        forall|i: int| 0 <= i < content.len() ==> content[i] != crate::lines::NEWLINE,
        is_counted(json_well_formed(content), count_failed),
    ensures
        run_count(content, count_failed) == 1,
{
    crate::lines::lemma_single_unterminated_line(content);
    lemma_tally_push(Seq::empty(), content, count_failed);
    assert(Seq::<Seq<u8>>::empty().push(content) =~= seq![content]);
}

/// A run over empty content reports no record.
pub proof fn lemma_empty_run(count_failed: bool)
    ensures
        run_count(Seq::<u8>::empty(), count_failed) == 0,
{
}

/// The state of a run between two chunks.
pub struct Pipeline {
    splitter: LineSplitter,
    counter: Aggregator,
}

impl Pipeline {
    /// The decompressed content taken so far.
    pub closed spec fn content(&self) -> Seq<u8> {
        self.splitter.consumed()
    }

    /// The bytes held in memory between chunks.
    pub closed spec fn buffered(&self) -> Seq<u8> {
        self.splitter.buffered()
    }

    /// The records counted so far.
    pub closed spec fn counted(&self) -> nat {
        self.counter.counted()
    }

    /// Whether lines that fail to parse are counted.
    pub closed spec fn counts_failed(&self) -> bool {
        self.counter.counts_failed()
    }

    /// Only the line under construction is held, every complete line has been
    /// tallied once, and the count has room for one more record.
    pub open spec fn wf(&self) -> bool {
        &&& self.buffered() == partial_line(self.content())
        &&& self.counted() == tally(complete_lines(self.content()), self.counts_failed())
        &&& self.counted() < u64::MAX
    }

    /// A run that has taken nothing.
    pub fn new(count_failed: bool) -> (p: Self)
        ensures
            p.wf(),
            p.content() == Seq::<u8>::empty(),
            p.counted() == 0,
            p.counts_failed() == count_failed,
    {
        Pipeline { splitter: LineSplitter::new(), counter: Aggregator::new(count_failed) }
    }

    /// The records counted so far.
    pub fn record_count(&self) -> (n: u64)
        ensures
            n == self.counted(),
    {
        self.counter.record_count()
    }

    /// The number of bytes held in memory between chunks.
    pub fn buffered_len(&self) -> (n: usize)
        ensures
            n == self.buffered().len(),
    {
        self.splitter.buffered_len()
    }

    /// Whether `chunk` can be taken without the count running out of room.
    pub fn has_room_for(&self, chunk: &[u8]) -> (ok: bool)
        ensures
            ok == (self.counted() + chunk@.len() < u64::MAX),
    {
        let n: usize = chunk.len();
        let room: u64 = u64::MAX - self.counter.record_count();
        (n as u64) < room
    }

    /// Takes the next chunk of decompressed content: every line that the chunk
    /// closes is parsed and tallied. Returns the progress reports that fell due.
    pub fn on_chunk(&mut self, chunk: &[u8]) -> (progress: Vec<u64>)
        requires
            old(self).wf(),
            old(self).counted() + chunk@.len() < u64::MAX,
        ensures
            final(self).wf(),
            final(self).counts_failed() == old(self).counts_failed(),
            final(self).content() == old(self).content() + chunk@,
            progress@ == progress_marks(old(self).counted(), final(self).counted()),
    {
        let mut reports: Vec<u64> = Vec::new();
        let mut pos: usize = 0;
        assert(old(self).content() + chunk@.take(0) =~= old(self).content());
        while pos < chunk.len()
            invariant
                pos <= chunk@.len(),
                self.wf(),
                self.counts_failed() == old(self).counts_failed(),
                self.content() == old(self).content() + chunk@.take(pos as int),
                old(self).counted() <= self.counted() <= old(self).counted() + pos,
                old(self).counted() + chunk@.len() < u64::MAX,
                reports@ == progress_marks(old(self).counted(), self.counted()),
            decreases chunk@.len() - pos,
        {
            let ghost content_before = self.content();
            let ghost count_before = self.counted();
            let (next, closed) = self.splitter.next_line(chunk, pos);
            proof {
                assert(content_before + chunk@.subrange(pos as int, next as int) =~= old(
                    self,
                ).content() + chunk@.take(next as int));
            }
            match closed {
                Some(line) => {
                    let parsed = match parse(line.as_slice()) {
                        Ok(_) => true,
                        Err(_) => false,
                    };
                    let report = self.counter.record(parsed);
                    proof {
                        lemma_tally_push(
                            complete_lines(content_before),
                            line@,
                            self.counts_failed(),
                        );
                        crate::aggregate::lemma_marks_concat(
                            old(self).counted(),
                            count_before,
                            self.counted(),
                        );
                    }
                    match report {
                        Some(n) => {
                            reports.push(n);
                            assert(reports@ =~= progress_marks(old(self).counted(), count_before)
                                + seq![n]);
                        },
                        None => {
                            assert(reports@ =~= reports@ + Seq::<u64>::empty());
                        },
                    }
                },
                None => {},
            }
            pos = next;
        }
        assert(chunk@.take(pos as int) =~= chunk@);
        reports
    }

    /// Ends the run: the unterminated rest, if there is one, is parsed and
    /// tallied as the last line. Returns the record count of the whole content,
    /// and the progress report that the last line made due, if any.
    pub fn finish(self) -> (r: (u64, Option<u64>))
        requires
            self.wf(),
        ensures
            r.0 == run_count(self.content(), self.counts_failed()),
            match r.1 {
                Some(n) => progress_marks(self.counted(), r.0 as nat) == seq![n],
                None => progress_marks(self.counted(), r.0 as nat) == Seq::<u64>::empty(),
            },
    {
        let mut counter = self.counter;
        match self.splitter.finish() {
            Some(line) => {
                let parsed = match parse(line.as_slice()) {
                    Ok(_) => true,
                    Err(_) => false,
                };
                let report = counter.record(parsed);
                proof {
                    lemma_tally_push(
                        complete_lines(self.content()),
                        line@,
                        self.counts_failed(),
                    );
                }
                (counter.record_count(), report)
            },
            None => (counter.record_count(), None),
        }
    }
}

/// Two runs under one policy that have taken the same content have counted the
/// same number of records, however the content was cut into chunks.
pub proof fn lemma_same_content_same_count(a: Pipeline, b: Pipeline)
    requires
        a.wf(),
        b.wf(),
        a.content() == b.content(),
        a.counts_failed() == b.counts_failed(),
    ensures
        a.counted() == b.counted(),
        a.buffered() == b.buffered(),
{
}

/// Between chunks a run holds no more bytes than the longest line of any
/// content that extends what it has taken.
pub proof fn lemma_memory_bounded(p: Pipeline, whole: Seq<u8>)
    requires
        p.wf(),
        p.content().is_prefix_of(whole),
    ensures
        p.buffered().len() <= crate::lines::longest(all_lines(whole)),
{
    let k = p.content().len() as int;
    assert(whole.take(k) =~= p.content());
    crate::lines::lemma_partial_line_bounded(whole, k);
}

} // verus!
