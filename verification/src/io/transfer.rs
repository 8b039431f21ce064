//! Transfers that take more than one read or write.
//!
//! The reads and writes are the caller's: a transfer says what to do next, and is told what came
//! of it.

use crate::error::IoError;
use vstd::prelude::*;

verus! {

/// How many bytes a copy reads at a time.
pub const COPY_CHUNK: usize = 8192;

/// A transfer of a whole buffer.
#[derive(Clone, Copy, Debug, PartialEq, Eq, Structural)]
pub struct ExactTransfer {
    /// How many bytes have been transferred.
    pub done: usize,
    /// How many bytes the buffer has.
    pub total: usize,
    /// What it means when nothing is transferred any more.
    pub shortfall: IoError,
}

/// Where a transfer stands.
#[derive(Clone, Copy, Debug, PartialEq, Eq, Structural)]
pub enum Progress {
    /// The buffer has been transferred.
    Complete,
    /// The rest of the buffer has to be transferred: so many bytes.
    Remaining(usize),
}

/// The transfer, or the error that ends it, after the results of several reads or writes.
pub open spec fn exact_steps(
    transfer: ExactTransfer,
    results: Seq<Result<usize, IoError>>,
) -> Result<ExactTransfer, IoError>
    decreases results.len(),
{
    if results.len() == 0 {
        Ok(transfer)
    } else {
        match exact_steps(transfer, results.drop_last()) {
            Ok(so_far) => so_far.step(results.last()),
            Err(err) => Err(err),
        }
    }
}

/// The sum of counts.
pub open spec fn sum(counts: Seq<usize>) -> nat
    decreases counts.len(),
{
    if counts.len() == 0 {
        0
    } else {
        sum(counts.drop_last()) + counts.last() as nat
    }
}

impl ExactTransfer {
    /// No more is transferred than there is.
    pub open spec fn wf(self) -> bool {
        self.done <= self.total
    }

    /// The transfer, or the error that ends it, after one more read or write.
    pub open spec fn step(self, result: Result<usize, IoError>) -> Result<ExactTransfer, IoError> {
        match result {
            Err(err) => Err(err),
            Ok(count) => if count == 0 {
                Err(self.shortfall)
            } else {
                Ok(ExactTransfer { done: (self.done + count) as usize, ..self })
            },
        }
    }

    /// Reads a whole buffer.
    pub fn read_exact(total: usize) -> (transfer: ExactTransfer)
        ensures
            transfer == (ExactTransfer { done: 0, total, shortfall: IoError::FillWholeBuffer }),
            transfer.wf(),
    {
        ExactTransfer { done: 0, total, shortfall: IoError::FillWholeBuffer }
    }

    /// Writes a whole buffer.
    pub fn write_all(total: usize) -> (transfer: ExactTransfer)
        ensures
            transfer == (ExactTransfer { done: 0, total, shortfall: IoError::WriteWholeBuffer }),
            transfer.wf(),
    {
        ExactTransfer { done: 0, total, shortfall: IoError::WriteWholeBuffer }
    }

    /// Writes a whole buffer to a place in a file.
    pub fn write_exact_at(total: usize) -> (transfer: ExactTransfer)
        ensures
            transfer == (ExactTransfer { done: 0, total, shortfall: IoError::WriteWholeFile }),
            transfer.wf(),
    {
        ExactTransfer { done: 0, total, shortfall: IoError::WriteWholeFile }
    }

    /// Where the transfer stands.
    pub fn progress(&self) -> (progress: Progress)
        requires
            self.wf(),
        ensures
            progress == (if self.done == self.total {
                Progress::Complete
            } else {
                Progress::Remaining((self.total - self.done) as usize)
            }),
    {
        if self.done < self.total {
            Progress::Remaining(self.total - self.done)
        } else {
            Progress::Complete
        }
    }

    /// The place in a file at which the rest of the buffer goes, for a transfer that started at
    /// `start`.
    pub fn offset(&self, start: u64) -> (offset: u64)
        ensures
            offset == (if start + self.done <= u64::MAX {
                start + self.done
            } else {
                u64::MAX as int
            }),
    {
        start.saturating_add(self.done as u64)
    }

    /// Goes on after a read or a write.
    pub fn advance(&mut self, result: Result<usize, IoError>) -> (outcome: Result<(), IoError>)
        requires
            old(self).wf(),
            result matches Ok(count) ==> count <= old(self).total - old(self).done,
        ensures
            final(self).wf(),
            match old(self).step(result) {
                Ok(next) => outcome is Ok && *final(self) == next,
                Err(err) => outcome == Err::<(), IoError>(err) && *final(self) == *old(self),
            },
    {
        match result {
            Err(err) => Err(err),
            Ok(count) => {
                if count == 0 {
                    return Err(self.shortfall);
                }
                self.done = self.done + count;
                Ok(())
            },
        }
    }
}

/// Reads or writes of which each transfers something, and which together transfer the whole
/// buffer, complete a transfer; one that transfers nothing ends it with the transfer's error.
pub proof fn law_exact_transfer(transfer: ExactTransfer, counts: Seq<usize>)
    requires
        transfer.wf(),
        forall|i: int| 0 <= i < counts.len() ==> #[trigger] counts[i] > 0,
        transfer.done + sum(counts) <= transfer.total,
    ensures
        ({
            let results = counts.map_values(|count: usize| Ok::<usize, IoError>(count));
            let after = exact_steps(transfer, results);
            &&& after == Ok::<ExactTransfer, IoError>(
                ExactTransfer { done: (transfer.done + sum(counts)) as usize, ..transfer },
            )
            &&& transfer.done + sum(counts) == transfer.total ==> after->Ok_0.done
                == after->Ok_0.total
            &&& exact_steps(transfer, results.push(Ok(0))) == Err::<ExactTransfer, IoError>(
                transfer.shortfall,
            )
        }),
    decreases counts.len(),
{
    let results = counts.map_values(|count: usize| Ok::<usize, IoError>(count));
    assert(results.push(Ok(0)).drop_last() =~= results);
    if counts.len() > 0 {
        let fewer = counts.drop_last();
        assert forall|i: int| 0 <= i < fewer.len() implies #[trigger] fewer[i] > 0 by {
            assert(fewer[i] == counts[i]);
        }
        law_exact_transfer(transfer, fewer);
        assert(results.drop_last() =~= fewer.map_values(
            |count: usize| Ok::<usize, IoError>(count),
        ));
        assert(counts.last() == counts[counts.len() - 1]);
    }
}

/// What a copy does next.
#[derive(Clone, Copy, Debug, PartialEq, Eq, Structural)]
pub enum CopyStep {
    /// Read up to so many bytes.
    Read(usize),
    /// Write the bytes that were read, from here to there.
    Write { from: usize, to: usize },
    /// Flush the writer.
    Flush,
    /// The copy is over, after so many bytes.
    Done(u64),
}

/// A copy from a reader to a writer.
#[derive(Clone, Copy, Debug, PartialEq, Eq, Structural)]
pub struct CopyTransfer {
    /// How many bytes have been copied in whole chunks.
    pub copied: u64,
    /// What to do next.
    pub step: CopyStep,
}

impl CopyTransfer {
    /// A copy reads chunks of the size it asked for, and writes what it has read.
    pub open spec fn wf(self) -> bool {
        match self.step {
            CopyStep::Read(len) => len == COPY_CHUNK,
            CopyStep::Write { from, to } => from < to <= COPY_CHUNK,
            CopyStep::Flush => true,
            CopyStep::Done(copied) => copied == self.copied,
        }
    }

    /// The copy after a chunk was read: at the end of the input it flushes, otherwise it writes.
    pub open spec fn after_read(self, count: usize) -> CopyTransfer {
        if count == 0 {
            CopyTransfer { step: CopyStep::Flush, ..self }
        } else {
            CopyTransfer { step: CopyStep::Write { from: 0, to: count }, ..self }
        }
    }

    /// The copy after a part of a chunk was written: it writes the rest, or counts the chunk and
    /// reads the next.
    pub open spec fn after_write(self, count: usize) -> CopyTransfer {
        let from = self.step->from;
        let to = self.step->to;
        if from + count < to {
            CopyTransfer { step: CopyStep::Write { from: (from + count) as usize, to }, ..self }
        } else {
            CopyTransfer {
                copied: if self.copied + to <= u64::MAX {
                    (self.copied + to) as u64
                } else {
                    u64::MAX
                },
                step: CopyStep::Read(COPY_CHUNK),
            }
        }
    }

    /// A copy that has not started.
    pub fn new() -> (copy: CopyTransfer)
        ensures
            copy == (CopyTransfer { copied: 0, step: CopyStep::Read(COPY_CHUNK) }),
            copy.wf(),
    {
        CopyTransfer { copied: 0, step: CopyStep::Read(COPY_CHUNK) }
    }

    /// Goes on after a read. An error ends the copy.
    pub fn on_read(&mut self, result: Result<usize, IoError>) -> (outcome: Result<(), IoError>)
        requires
            old(self).wf(),
            old(self).step is Read,
            result matches Ok(count) ==> count <= COPY_CHUNK,
        ensures
            final(self).wf(),
            match result {
                Err(err) => outcome == Err::<(), IoError>(err) && *final(self) == *old(self),
                Ok(count) => outcome is Ok && *final(self) == old(self).after_read(count),
            },
    {
        match result {
            Err(err) => Err(err),
            Ok(count) => {
                if count == 0 {
                    self.step = CopyStep::Flush;
                } else {
                    self.step = CopyStep::Write { from: 0, to: count };
                }
                Ok(())
            },
        }
    }

    /// Goes on after a write. A writer that takes nothing ends the copy, as does an error.
    pub fn on_write(&mut self, result: Result<usize, IoError>) -> (outcome: Result<(), IoError>)
        requires
            old(self).wf(),
            old(self).step is Write,
            result matches Ok(count) ==> count <= old(self).step->to - old(self).step->from,
        ensures
            final(self).wf(),
            match result {
                Err(err) => outcome == Err::<(), IoError>(err) && *final(self) == *old(self),
                Ok(count) => if count == 0 {
                    outcome == Err::<(), IoError>(IoError::WriteWholeBuffer) && *final(self)
                        == *old(self)
                } else {
                    outcome is Ok && *final(self) == old(self).after_write(count)
                },
            },
    {
        match result {
            Err(err) => Err(err),
            Ok(count) => {
                if count == 0 {
                    return Err(IoError::WriteWholeBuffer);
                }
                if let CopyStep::Write { from, to } = self.step {
                    if from + count < to {
                        self.step = CopyStep::Write { from: from + count, to };
                    } else {
                        self.copied = self.copied.saturating_add(to as u64);
                        self.step = CopyStep::Read(COPY_CHUNK);
                    }
                }
                Ok(())
            },
        }
    }

    /// Goes on after the flush, which ends the copy.
    pub fn on_flush(&mut self, result: Result<(), IoError>) -> (outcome: Result<u64, IoError>)
        requires
            old(self).wf(),
            old(self).step is Flush,
        ensures
            final(self).wf(),
            match result {
                Err(err) => outcome == Err::<u64, IoError>(err) && *final(self) == *old(self),
                Ok(_) => {
                    &&& outcome == Ok::<u64, IoError>(old(self).copied)
                    &&& *final(self) == (CopyTransfer {
                        copied: old(self).copied,
                        step: CopyStep::Done(old(self).copied),
                    })
                },
            },
    {
        match result {
            Err(err) => Err(err),
            Ok(_) => {
                self.step = CopyStep::Done(self.copied);
                Ok(self.copied)
            },
        }
    }
}

/// The copy after a whole chunk was read and written, in the pieces given.
pub open spec fn written(copy: CopyTransfer, pieces: Seq<usize>) -> CopyTransfer
    decreases pieces.len(),
{
    if pieces.len() == 0 {
        copy
    } else {
        written(copy, pieces.drop_last()).after_write(pieces.last())
    }
}

/// However a writer divides a chunk, the copy goes on reading once all of it was written, and has
/// counted it once.
pub proof fn law_copy_counts_chunks(copy: CopyTransfer, count: usize, pieces: Seq<usize>)
    requires
        copy.step is Read,
        0 < count <= COPY_CHUNK,
        forall|i: int| 0 <= i < pieces.len() ==> #[trigger] pieces[i] > 0,
        sum(pieces) == count,
        copy.copied + count <= u64::MAX,
    ensures
        written(copy.after_read(count), pieces) == (CopyTransfer {
            copied: (copy.copied + count) as u64,
            step: CopyStep::Read(COPY_CHUNK),
        }),
{
    lemma_partly_written(copy, count, pieces, pieces.len() - 1);
    assert(pieces.len() > 0);
    assert(pieces.drop_last() =~= pieces.take(pieces.len() - 1));
    assert(pieces.last() == pieces[pieces.len() - 1]);
}

/// The bytes of a chunk that reach the writer in the pieces given.
pub open spec fn delivered(copy: CopyTransfer, chunk: Seq<u8>, pieces: Seq<usize>) -> Seq<u8>
    decreases pieces.len(),
{
    if pieces.len() == 0 {
        Seq::empty()
    } else {
        let from = written(
            copy.after_read(chunk.len() as usize),
            pieces.drop_last(),
        ).step->from as int;
        delivered(copy, chunk, pieces.drop_last()) + chunk.subrange(from, from + pieces.last())
    }
}

/// A chunk that was read, and the pieces in which it was written.
pub struct CopiedChunk {
    pub bytes: Seq<u8>,
    pub pieces: Seq<usize>,
}

impl CopiedChunk {
    /// The chunk is neither empty nor longer than what was asked for, and the writer took all of
    /// it, something with each write.
    pub open spec fn valid(self) -> bool {
        &&& 0 < self.bytes.len() <= COPY_CHUNK
        &&& forall|i: int| 0 <= i < self.pieces.len() ==> #[trigger] self.pieces[i] > 0
        &&& sum(self.pieces) == self.bytes.len()
    }
}

/// The bytes of several chunks.
pub open spec fn joined(chunks: Seq<CopiedChunk>) -> Seq<u8>
    decreases chunks.len(),
{
    if chunks.len() == 0 {
        Seq::empty()
    } else {
        joined(chunks.drop_last()) + chunks.last().bytes
    }
}

/// The copy, and the bytes that have reached the writer, after several chunks.
pub open spec fn copied(copy: CopyTransfer, chunks: Seq<CopiedChunk>) -> (CopyTransfer, Seq<u8>)
    decreases chunks.len(),
{
    if chunks.len() == 0 {
        (copy, Seq::empty())
    } else {
        let (before, bytes) = copied(copy, chunks.drop_last());
        let chunk = chunks.last();
        (
            written(before.after_read(chunk.bytes.len() as usize), chunk.pieces),
            bytes + delivered(before, chunk.bytes, chunk.pieces),
        )
    }
}

/// A copy delivers what it reads: whatever chunks the reader gives and however the writer divides
/// them, all bytes reach the writer once and in order, they are counted, and at the end of the
/// input the writer is flushed.
pub proof fn law_copy_delivers_everything(chunks: Seq<CopiedChunk>)
    requires
        forall|i: int| 0 <= i < chunks.len() ==> (#[trigger] chunks[i]).valid(),
        joined(chunks).len() <= u64::MAX,
    ensures
        ({
            let start = CopyTransfer { copied: 0, step: CopyStep::Read(COPY_CHUNK) };
            let (copy, bytes) = copied(start, chunks);
            &&& bytes == joined(chunks)
            &&& copy.copied == joined(chunks).len()
            &&& copy.step == CopyStep::Read(COPY_CHUNK)
            &&& copy.after_read(0).step == CopyStep::Flush
        }),
    decreases chunks.len(),
{
    let start = CopyTransfer { copied: 0, step: CopyStep::Read(COPY_CHUNK) };
    if chunks.len() > 0 {
        let fewer = chunks.drop_last();
        let chunk = chunks.last();
        assert forall|i: int| 0 <= i < fewer.len() implies (#[trigger] fewer[i]).valid() by {
            assert(fewer[i] == chunks[i]);
        }
        law_copy_delivers_everything(fewer);
        let (before, _) = copied(start, fewer);
        assert(chunk == chunks[chunks.len() - 1]);
        law_copy_counts_chunks(before, chunk.bytes.len() as usize, chunk.pieces);
        lemma_delivered(before, chunk, chunk.pieces.len() as int);
        assert(chunk.pieces.take(chunk.pieces.len() as int) =~= chunk.pieces);
        assert(chunk.bytes.take(chunk.bytes.len() as int) =~= chunk.bytes);
    }
}

/// The pieces written so far are the beginning of the chunk.
proof fn lemma_delivered(copy: CopyTransfer, chunk: CopiedChunk, taken: int)
    requires
        copy.step is Read,
        chunk.valid(),
        0 <= taken <= chunk.pieces.len(),
    ensures
        sum(chunk.pieces.take(taken)) <= chunk.bytes.len(),
        delivered(copy, chunk.bytes, chunk.pieces.take(taken)) == chunk.bytes.take(
            sum(chunk.pieces.take(taken)) as int,
        ),
    decreases taken,
{
    let so_far = chunk.pieces.take(taken);
    if taken < chunk.pieces.len() {
        lemma_sum_grows(chunk.pieces, taken);
    } else {
        assert(so_far =~= chunk.pieces);
    }
    if taken > 0 {
        lemma_delivered(copy, chunk, taken - 1);
        lemma_partly_written(copy, chunk.bytes.len() as usize, chunk.pieces, taken - 1);
        assert(so_far.drop_last() =~= chunk.pieces.take(taken - 1));
        let from = sum(chunk.pieces.take(taken - 1)) as int;
        let to = from + so_far.last();
        assert(chunk.bytes.take(from) + chunk.bytes.subrange(from, to) =~= chunk.bytes.take(to));
    } else {
        assert(so_far =~= Seq::<usize>::empty());
        assert(chunk.bytes.take(0) =~= Seq::<u8>::empty());
    }
}

/// Before the last piece, a copy is still writing the chunk.
proof fn lemma_partly_written(copy: CopyTransfer, count: usize, pieces: Seq<usize>, taken: int)
    requires
        copy.step is Read,
        0 < count <= COPY_CHUNK,
        forall|i: int| 0 <= i < pieces.len() ==> #[trigger] pieces[i] > 0,
        sum(pieces) == count,
        taken < pieces.len(),
    ensures
        taken >= 0 ==> sum(pieces.take(taken)) < count && written(
            copy.after_read(count),
            pieces.take(taken),
        ) == (CopyTransfer {
            step: CopyStep::Write { from: sum(pieces.take(taken)) as usize, to: count },
            ..copy
        }),
    decreases taken,
{
    if taken > 0 {
        lemma_partly_written(copy, count, pieces, taken - 1);
        assert(pieces.take(taken).drop_last() =~= pieces.take(taken - 1));
        assert(pieces.take(taken).last() == pieces[taken - 1]);
        lemma_sum_grows(pieces, taken);
    } else if taken == 0 {
        assert(pieces.take(0) =~= Seq::<usize>::empty());
        reveal_with_fuel(written, 1);
        lemma_sum_grows(pieces, 0);
    }
}

/// Leaving out counts that are not zero makes the sum smaller.
proof fn lemma_sum_grows(counts: Seq<usize>, taken: int)
    requires
        0 <= taken < counts.len(),
        forall|i: int| 0 <= i < counts.len() ==> #[trigger] counts[i] > 0,
    ensures
        sum(counts.take(taken)) < sum(counts),
    decreases counts.len(),
{
    let fewer = counts.drop_last();
    assert(counts.last() == counts[counts.len() - 1]);
    if taken < fewer.len() {
        assert forall|i: int| 0 <= i < fewer.len() implies #[trigger] fewer[i] > 0 by {
            assert(fewer[i] == counts[i]);
        }
        lemma_sum_grows(fewer, taken);
        assert(fewer.take(taken) =~= counts.take(taken));
    } else {
        assert(counts.take(taken) =~= fewer);
    }
}

/// What copying in both directions comes to: the counts of both, or the error of the first that
/// failed.
pub fn copy_bidirectional(
    a_to_b: Result<u64, IoError>,
    b_to_a: Result<u64, IoError>,
) -> (outcome: Result<(u64, u64), IoError>)
    ensures
        outcome == (match (a_to_b, b_to_a) {
            (Err(err), _) => Err::<(u64, u64), IoError>(err),
            (Ok(_), Err(err)) => Err(err),
            (Ok(there), Ok(back)) => Ok((there, back)),
        }),
{
    match a_to_b {
        Err(err) => Err(err),
        Ok(there) => {
            match b_to_a {
                Err(err) => Err(err),
                Ok(back) => Ok((there, back)),
            }
        },
    }
}

/// What a vectored read or write does that is carried out with a single buffer: it takes the
/// first, and without one it transfers nothing.
pub fn first_buffer(count: usize) -> (index: Option<usize>)
    ensures
        index == (if count == 0 {
            None
        } else {
            Some(0usize)
        }),
{
    if count == 0 {
        None
    } else {
        Some(0)
    }
}

/// What a vectored read or write comes to where none is offered.
pub fn vectored_unimplemented() -> (err: IoError)
    ensures
        err == IoError::ReadvNotImplemented,
{
    IoError::ReadvNotImplemented
}

/// A transfer starts with nothing done, and fails with its own error when nothing moves any more.
pub proof fn law_transfers_start_with_nothing(
    total: usize,
    reading: ExactTransfer,
    writing: ExactTransfer,
    placing: ExactTransfer,
)
    requires
        call_ensures(ExactTransfer::read_exact, (total,), reading),
        call_ensures(ExactTransfer::write_all, (total,), writing),
        call_ensures(ExactTransfer::write_exact_at, (total,), placing),
    ensures
        reading.done == 0 && writing.done == 0 && placing.done == 0,
        reading.total == total && writing.total == total && placing.total == total,
        reading.shortfall == IoError::FillWholeBuffer,
        writing.shortfall == IoError::WriteWholeBuffer,
        placing.shortfall == IoError::WriteWholeFile,
{
}

/// A transfer asks for exactly what is missing, and is complete just if nothing is.
pub proof fn law_transfer_asks_for_the_rest(transfer: ExactTransfer, progress: Progress)
    requires
        transfer.wf(),
        call_ensures(ExactTransfer::progress, (&transfer,), progress),
    ensures
        progress is Complete <==> transfer.done == transfer.total,
        progress matches Progress::Remaining(len) ==> len > 0 && transfer.done + len
            == transfer.total,
{
}

/// The rest of a buffer goes right behind what was transferred, and never past the largest place.
pub proof fn law_rest_goes_behind_what_was_done(transfer: ExactTransfer, start: u64, offset: u64)
    requires
        call_ensures(ExactTransfer::offset, (&transfer, start), offset),
    ensures
        start + transfer.done <= u64::MAX ==> offset == start + transfer.done,
        start + transfer.done > u64::MAX ==> offset == u64::MAX,
{
}

/// A read or a write moves the transfer by exactly what it transferred. One that failed, or
/// transferred nothing, ends it with that error, or with the transfer's own, and moves nothing.
pub proof fn law_transfer_counts_what_moved(
    transfer: &mut ExactTransfer,
    result: Result<usize, IoError>,
    outcome: Result<(), IoError>,
)
    requires
        old(transfer).wf(),
        result matches Ok(count) ==> count <= old(transfer).total - old(transfer).done,
        call_ensures(ExactTransfer::advance, (transfer, result), outcome),
    ensures
        outcome is Ok <==> result is Ok && result->Ok_0 > 0,
        outcome matches Err(err) ==> err == (match result {
            Err(failed) => failed,
            Ok(_) => old(transfer).shortfall,
        }),
        final(transfer).done == old(transfer).done + (if outcome is Ok {
            result->Ok_0 as int
        } else {
            0
        }),
        final(transfer).total == old(transfer).total,
        final(transfer).shortfall == old(transfer).shortfall,
{
}

/// A copy starts by reading 8192 bytes, with nothing copied.
pub proof fn law_copy_starts_by_reading(copy: CopyTransfer)
    requires
        call_ensures(CopyTransfer::new, (), copy),
    ensures
        copy.copied == 0,
        copy.step == CopyStep::Read(8192),
{
}

/// After a read, a copy writes all that was read, from its beginning; at the end of the input it
/// flushes; and an error ends it where it stands. Nothing is counted yet.
pub proof fn law_copy_writes_what_it_read(
    copy: &mut CopyTransfer,
    result: Result<usize, IoError>,
    outcome: Result<(), IoError>,
)
    requires
        call_ensures(CopyTransfer::on_read, (copy, result), outcome),
    ensures
        final(copy).copied == old(copy).copied,
        result matches Err(err)
            ==> outcome == Err::<(), IoError>(err) && final(copy).step == old(copy).step,
        result is Ok ==> outcome is Ok,
        result == Ok::<usize, IoError>(0) ==> final(copy).step is Flush,
        result matches Ok(count) ==> count > 0 ==> final(copy).step == (CopyStep::Write {
            from: 0,
            to: count,
        }),
{
}

/// After a write, a copy writes the rest of the chunk, from where the write ended; once all of it
/// was written, the whole chunk is counted and the next is read. A writer that takes nothing ends
/// the copy with an error of its own, and an error ends it where it stands.
pub proof fn law_copy_counts_what_it_wrote(
    copy: &mut CopyTransfer,
    result: Result<usize, IoError>,
    outcome: Result<(), IoError>,
)
    requires
        old(copy).step is Write,
        old(copy).step->from < old(copy).step->to,
        result matches Ok(count) ==> count <= old(copy).step->to - old(copy).step->from,
        call_ensures(CopyTransfer::on_write, (copy, result), outcome),
    ensures
        outcome is Ok <==> result is Ok && result->Ok_0 > 0,
        outcome matches Err(err) ==> err == (match result {
            Err(failed) => failed,
            Ok(_) => IoError::WriteWholeBuffer,
        }),
        outcome is Err ==> *final(copy) == *old(copy),
        outcome is Ok ==> {
            let from = old(copy).step->from;
            let to = old(copy).step->to;
            let count = result->Ok_0;
            &&& from + count < to ==> final(copy).step is Write && final(copy).step->from == from
                + count && final(copy).step->to == to && final(copy).copied == old(copy).copied
            &&& from + count == to ==> final(copy).step == CopyStep::Read(8192)
            &&& from + count == to && old(copy).copied + to <= u64::MAX ==> final(copy).copied
                == old(copy).copied + to
            &&& from + count == to && old(copy).copied + to > u64::MAX ==> final(copy).copied
                == u64::MAX
        },
{
}

/// A flush ends the copy with what was copied; an error leaves it where it stands.
pub proof fn law_copy_ends_with_its_count(
    copy: &mut CopyTransfer,
    result: Result<(), IoError>,
    outcome: Result<u64, IoError>,
)
    requires
        call_ensures(CopyTransfer::on_flush, (copy, result), outcome),
    ensures
        outcome is Ok <==> result is Ok,
        outcome matches Ok(copied) ==> copied == old(copy).copied && final(copy).step
            == CopyStep::Done(copied),
        outcome matches Err(err)
            ==> result == Err::<(), IoError>(err) && *final(copy) == *old(copy),
        final(copy).copied == old(copy).copied,
{
}

/// Copying in both directions succeeds just if both do, with the counts of both in their order; the
/// first error in that order is reported otherwise.
pub proof fn law_both_directions_have_to_succeed(
    a_to_b: Result<u64, IoError>,
    b_to_a: Result<u64, IoError>,
    outcome: Result<(u64, u64), IoError>,
)
    requires
        call_ensures(copy_bidirectional, (a_to_b, b_to_a), outcome),
    ensures
        outcome is Ok <==> a_to_b is Ok && b_to_a is Ok,
        outcome matches Ok(counts) ==> a_to_b == Ok::<u64, IoError>(counts.0) && b_to_a == Ok::<
            u64,
            IoError,
        >(counts.1),
        outcome matches Err(err) ==> err == (if a_to_b is Err {
            a_to_b->Err_0
        } else {
            b_to_a->Err_0
        }),
{
}

/// A vectored transfer with a single buffer takes the first, if there is one; where none is offered
/// it is refused.
pub proof fn law_first_buffer_is_taken(count: usize, index: Option<usize>, err: IoError)
    requires
        call_ensures(first_buffer, (count,), index),
        call_ensures(vectored_unimplemented, (), err),
    ensures
        count > 0 ==> index == Some(0usize),
        count == 0 ==> index is None,
        err == IoError::ReadvNotImplemented,
{
}

} // verus!
