//! Cutting a byte stream into newline-terminated lines.

use vstd::prelude::*;

verus! {

/// The line terminator: a single line feed.
pub const NEWLINE: u8 = 10;

/// The lines of `s` that are closed by a terminator, in order, terminators stripped.
pub open spec fn complete_lines(s: Seq<u8>) -> Seq<Seq<u8>>
    decreases s.len(),
{
    if s.len() == 0 {
        Seq::empty()
    } else if s.last() == NEWLINE {
        complete_lines(s.drop_last()).push(partial_line(s.drop_last()))
    } else {
        complete_lines(s.drop_last())
    }
}

/// What follows the last terminator of `s` (all of `s` where it has none).
pub open spec fn partial_line(s: Seq<u8>) -> Seq<u8>
    decreases s.len(),
{
    if s.len() == 0 || s.last() == NEWLINE {
        Seq::empty()
    } else {
        partial_line(s.drop_last()).push(s.last())
    }
}

/// Every line of `s`: the complete ones, then the unterminated rest if it is
/// not empty.
pub open spec fn all_lines(s: Seq<u8>) -> Seq<Seq<u8>> {
    if partial_line(s).len() == 0 {
        complete_lines(s)
    } else {
        complete_lines(s).push(partial_line(s))
    }
}

/// The length of the longest of `lines`.
pub open spec fn longest(lines: Seq<Seq<u8>>) -> nat
    decreases lines.len(),
{
    if lines.len() == 0 {
        0
    } else if longest(lines.drop_last()) >= lines.last().len() {
        longest(lines.drop_last())
    } else {
        lines.last().len()
    }
}

/// Appending one byte to a stream either closes the line under construction or
/// extends it.
pub proof fn lemma_push_byte(s: Seq<u8>, b: u8)
    ensures
        b == NEWLINE ==> complete_lines(s.push(b)) == complete_lines(s).push(partial_line(s))
            && partial_line(s.push(b)) == Seq::<u8>::empty(),
        b != NEWLINE ==> complete_lines(s.push(b)) == complete_lines(s) && partial_line(
            s.push(b),
        ) == partial_line(s).push(b),
{
    assert(s.push(b).drop_last() =~= s);
    assert(s.push(b).last() == b);
}

/// A stream without a terminator is one unterminated line.
pub proof fn lemma_no_terminator(s: Seq<u8>)
    requires
        forall|i: int| 0 <= i < s.len() ==> s[i] != NEWLINE,
    ensures
        complete_lines(s) == Seq::<Seq<u8>>::empty(),
        partial_line(s) == s,
    decreases s.len(),
{
    if s.len() > 0 {
        lemma_no_terminator(s.drop_last());
        assert(s.drop_last().push(s.last()) =~= s);
    } else {
        assert(s =~= Seq::<u8>::empty());
    }
}

/// A non-empty stream without a terminator holds exactly one line: itself.
pub proof fn lemma_single_unterminated_line(s: Seq<u8>)
    requires
        s.len() > 0,
        forall|i: int| 0 <= i < s.len() ==> s[i] != NEWLINE,
    ensures
        all_lines(s) == seq![s],
{
    lemma_no_terminator(s);
    assert(Seq::<Seq<u8>>::empty().push(s) =~= seq![s]);
}

/// The empty stream holds no line.
pub proof fn lemma_empty_stream()
    ensures
        all_lines(Seq::<u8>::empty()) == Seq::<Seq<u8>>::empty(),
{
}

/// No line is longer than the longest.
pub proof fn lemma_longest_bounds(lines: Seq<Seq<u8>>, i: int)
    requires
        0 <= i < lines.len(),
    ensures
        lines[i].len() <= longest(lines),
    decreases lines.len(),
{
    if i < lines.len() - 1 {
        lemma_longest_bounds(lines.drop_last(), i);
    }
}

/// Bounded buffering: at every point `k` of a stream `s`, the line under
/// construction is no longer than the longest line of the whole stream.
pub proof fn lemma_partial_line_bounded(s: Seq<u8>, k: int)
    requires
        0 <= k <= s.len(),
    ensures
        partial_line(s.take(k)).len() <= longest(all_lines(s)),
    decreases s.len(),
{
    let whole = all_lines(s);
    if k == s.len() {
        assert(s.take(k) =~= s);
        if partial_line(s).len() > 0 {
            lemma_longest_bounds(whole, whole.len() - 1);
        }
    } else {
        let front = s.drop_last();
        assert(s.take(k) =~= front.take(k));
        lemma_partial_line_bounded(front, k);
        lemma_longest_monotone(s);
    }
}

/// Extending a stream by one byte never shortens its longest line.
pub proof fn lemma_longest_monotone(s: Seq<u8>)
    requires
        s.len() > 0,
    ensures
        longest(all_lines(s.drop_last())) <= longest(all_lines(s)),
{
    let front = s.drop_last();
    let done = complete_lines(front);
    let rest = partial_line(front);
    if s.last() == NEWLINE {
        assert(complete_lines(s) == done.push(rest));
        assert(all_lines(s) == done.push(rest));
        assert(done.push(rest).drop_last() =~= done);
        if rest.len() == 0 {
            assert(all_lines(front) == done);
        }
    } else {
        let grown = rest.push(s.last());
        assert(all_lines(s) == done.push(grown));
        assert(done.push(grown).drop_last() =~= done);
        if rest.len() > 0 {
            assert(done.push(rest).drop_last() =~= done);
        }
    }
}

/// The stream made of `lines`, each followed by a terminator.
pub open spec fn terminated(lines: Seq<Seq<u8>>) -> Seq<u8>
    decreases lines.len(),
{
    if lines.len() == 0 {
        Seq::empty()
    } else {
        terminated(lines.drop_last()) + lines.last().push(NEWLINE)
    }
}

/// Nothing is lost or added by splitting: the complete lines, each with its
/// terminator, followed by the unterminated rest, are the stream.
pub proof fn lemma_lines_rebuild_stream(s: Seq<u8>)
    ensures
        terminated(complete_lines(s)) + partial_line(s) == s,
    decreases s.len(),
{
    if s.len() == 0 {
        assert(terminated(complete_lines(s)) + partial_line(s) =~= s);
    } else {
        let front = s.drop_last();
        let done = complete_lines(front);
        let rest = partial_line(front);
        lemma_lines_rebuild_stream(front);
        assert(front.push(s.last()) =~= s);
        if s.last() == NEWLINE {
            assert(done.push(rest).drop_last() =~= done);
            assert(terminated(done.push(rest)) + Seq::<u8>::empty() =~= (terminated(done)
                + rest).push(NEWLINE));
        } else {
            assert(terminated(done) + rest.push(s.last()) =~= (terminated(done) + rest).push(
                s.last(),
            ));
        }
    }
}

/// No line holds a terminator, complete or not.
pub proof fn lemma_lines_hold_no_terminator(s: Seq<u8>)
    ensures
        forall|j: int| 0 <= j < partial_line(s).len() ==> #[trigger] partial_line(s)[j] != NEWLINE,
        forall|i: int, j: int|
            0 <= i < complete_lines(s).len() && 0 <= j < complete_lines(s)[i].len()
                ==> #[trigger] complete_lines(s)[i][j] != NEWLINE,
    decreases s.len(),
{
    if s.len() > 0 {
        let front = s.drop_last();
        let done = complete_lines(front);
        let rest = partial_line(front);
        lemma_lines_hold_no_terminator(front);
        assert forall|j: int| 0 <= j < partial_line(s).len() implies #[trigger] partial_line(s)[j]
            != NEWLINE by {
            if j < rest.len() {
                assert(partial_line(s)[j] == rest[j]);
            }
        }
        assert forall|i: int, j: int|
            0 <= i < complete_lines(s).len() && 0 <= j < complete_lines(s)[i].len()
                implies #[trigger] complete_lines(s)[i][j] != NEWLINE by {
            if i < done.len() {
                assert(complete_lines(s)[i] == done[i]);
                assert(done[i][j] != NEWLINE);
            } else {
                assert(complete_lines(s)[i] == rest);
                assert(rest[j] != NEWLINE);
            }
        }
    }
}

/// The state of a line splitter: the line under construction and nothing else.
pub struct LineSplitter {
    buf: Vec<u8>,
    seen: Ghost<Seq<u8>>,
}

impl LineSplitter {
    /// Every byte taken so far, in order.
    pub closed spec fn consumed(&self) -> Seq<u8> {
        self.seen@
    }

    /// The bytes held in memory.
    pub closed spec fn buffered(&self) -> Seq<u8> {
        self.buf@
    }

    /// The splitter holds exactly the unterminated rest of what it has taken.
    pub open spec fn wf(&self) -> bool {
        self.buffered() == partial_line(self.consumed())
    }

    /// A splitter that has taken nothing.
    pub fn new() -> (s: Self)
        ensures
            s.wf(),
            s.consumed() == Seq::<u8>::empty(),
    {
        LineSplitter { buf: Vec::new(), seen: Ghost(Seq::empty()) }
    }

    /// The number of bytes held in memory.
    pub fn buffered_len(&self) -> (n: usize)
        ensures
            n == self.buffered().len(),
    {
        self.buf.len()
    }

    /// Takes the bytes of `chunk` from `start` up to and including the next
    /// terminator, or to the end of the chunk where there is none. Returns the
    /// position reached and the line that was closed, if one was.
    pub fn next_line(&mut self, chunk: &[u8], start: usize) -> (r: (usize, Option<Vec<u8>>))
        requires
            old(self).wf(),
            start <= chunk@.len(),
        ensures
            final(self).wf(),
            start <= r.0 <= chunk@.len(),
            final(self).consumed() == old(self).consumed() + chunk@.subrange(
                start as int,
                r.0 as int,
            ),
            match r.1 {
                Some(line) => {
                    &&& start < r.0
                    &&& chunk@[r.0 - 1] == NEWLINE
                    &&& forall|j: int| start <= j < r.0 - 1 ==> chunk@[j] != NEWLINE
                    &&& complete_lines(final(self).consumed()) == complete_lines(
                        old(self).consumed(),
                    ).push(line@)
                    &&& line@ == partial_line(
                        old(self).consumed() + chunk@.subrange(start as int, r.0 - 1),
                    )
                },
                None => {
                    &&& r.0 == chunk@.len()
                    &&& forall|j: int| start <= j < r.0 ==> chunk@[j] != NEWLINE
                    &&& complete_lines(final(self).consumed()) == complete_lines(
                        old(self).consumed(),
                    )
                },
            },
    {
        let ghost before = self.seen@;
        let mut i: usize = start;
        assert(chunk@.subrange(start as int, i as int) =~= Seq::<u8>::empty());
        assert(before + Seq::<u8>::empty() =~= before);
        while i < chunk.len()
            invariant
                start <= i <= chunk@.len(),
                self.wf(),
                before == old(self).consumed(),
                self.seen@ == before + chunk@.subrange(start as int, i as int),
                forall|j: int| start <= j < i ==> chunk@[j] != NEWLINE,
                complete_lines(self.seen@) == complete_lines(before),
            decreases chunk@.len() - i,
        {
            let b: u8 = chunk[i];
            proof {
                lemma_push_byte(self.seen@, b);
                assert(before + chunk@.subrange(start as int, i + 1) =~= self.seen@.push(b));
            }
            if b == NEWLINE {
                let mut line: Vec<u8> = Vec::new();
                std::mem::swap(&mut self.buf, &mut line);
                self.seen = Ghost(self.seen@.push(b));
                return (i + 1, Some(line));
            }
            self.buf.push(b);
            self.seen = Ghost(self.seen@.push(b));
            i = i + 1;
        }
        (i, None)
    }

    /// Ends the stream: hands out the unterminated rest as a last line, unless
    /// it is empty.
    pub fn finish(self) -> (last: Option<Vec<u8>>)
        requires
            self.wf(),
        ensures
            match last {
                Some(line) => line@ == partial_line(self.consumed()) && line@.len() > 0,
                None => partial_line(self.consumed()).len() == 0,
            },
            all_lines(self.consumed()) == match last {
                Some(line) => complete_lines(self.consumed()).push(line@),
                None => complete_lines(self.consumed()),
            },
    {
        if self.buf.len() == 0 {
            None
        } else {
            Some(self.buf)
        }
    }
}

} // verus!
