use vstd::prelude::*;

verus! {

/// Two streams relayed to each other, with a count of the bytes moved.
pub struct DirectSplice<R, W> {
    reader: R,
    writer: W,
    counter: SpliceCounter,
}

/// The transfer count of a splice together with the reads it was counted from.
struct SpliceCounter {
    bytes_transferred: u64,
    reads: Ghost<Seq<SpliceRead>>,
}

/// What one read from either side of a splice produced.
#[derive(Debug, Clone, Copy, PartialEq, Eq, Structural)]
pub enum ReadOutcome {
    /// This many bytes; zero means the side reached end of stream.
    Bytes(usize),
    /// The read would block.
    WouldBlock,
    /// The read failed.
    Failed,
}

/// What a splice does after a read.
#[derive(Debug, Clone, Copy, PartialEq, Eq, Structural)]
pub enum SpliceStep {
    /// Write this many bytes to the other side, flush, and count them.
    Forward(usize),
    /// Read again.
    Retry,
    /// End the splice.
    Stop,
}

/// The step after a read: forward data, retry a read that would block, stop
/// at end of stream or on a failed read.
pub open spec fn spec_splice_step(outcome: ReadOutcome) -> SpliceStep {
    match outcome {
        ReadOutcome::Bytes(n) => if n == 0 {
            SpliceStep::Stop
        } else {
            SpliceStep::Forward(n)
        },
        ReadOutcome::WouldBlock => SpliceStep::Retry,
        ReadOutcome::Failed => SpliceStep::Stop,
    }
}

/// Decides the step after a read.
pub fn splice_step(outcome: ReadOutcome) -> (s: SpliceStep)
    ensures
        s == spec_splice_step(outcome),
{
    match outcome {
        ReadOutcome::Bytes(n) => if n == 0 {
            SpliceStep::Stop
        } else {
            SpliceStep::Forward(n)
        },
        ReadOutcome::WouldBlock => SpliceStep::Retry,
        ReadOutcome::Failed => SpliceStep::Stop,
    }
}

/// One read of a splice run: whether it was taken from the first stream (the
/// reader) or the second (the writer), its outcome, and the bytes it returned.
pub struct SpliceRead {
    pub from_reader: bool,
    pub outcome: ReadOutcome,
    pub data: Seq<u8>,
}

/// The effect of the reads of a splice so far: the bytes written to each
/// stream, in order, and the transfer count.
pub struct SpliceRun {
    pub to_writer: Seq<u8>,
    pub to_reader: Seq<u8>,
    pub count: nat,
}

/// The read returned as many bytes as its outcome reports.
pub open spec fn read_well_formed(r: SpliceRead) -> bool {
    match r.outcome {
        ReadOutcome::Bytes(n) => r.data.len() == n,
        _ => true,
    }
}

/// Each read returned as many bytes as its outcome reports.
pub open spec fn reads_well_formed(reads: Seq<SpliceRead>) -> bool {
    forall|i: int| 0 <= i < reads.len() ==> read_well_formed(#[trigger] reads[i])
}

/// The read took some bytes from the reader.
pub open spec fn reader_data(r: SpliceRead) -> bool {
    r.from_reader && match r.outcome {
        ReadOutcome::Bytes(n) => n > 0,
        _ => false,
    }
}

/// A splice that had moved `count0` bytes, after the given reads: each read
/// is handled by `spec_splice_step`; forwarded bytes are written to the other
/// stream and counted; a read that retries or stops (which ends the current
/// splice call) moves nothing.
pub open spec fn spec_splice_run(count0: nat, reads: Seq<SpliceRead>) -> SpliceRun
    decreases reads.len(),
{
    if reads.len() == 0 {
        SpliceRun { to_writer: Seq::empty(), to_reader: Seq::empty(), count: count0 }
    } else {
        let prev = spec_splice_run(count0, reads.drop_last());
        let r = reads.last();
        match spec_splice_step(r.outcome) {
            SpliceStep::Forward(n) => if r.from_reader {
                SpliceRun { to_writer: prev.to_writer + r.data, count: prev.count + n as nat, ..prev }
            } else {
                SpliceRun { to_reader: prev.to_reader + r.data, count: prev.count + n as nat, ..prev }
            },
            _ => prev,
        }
    }
}

/// Over a whole splice run, the count grows by exactly the bytes forwarded:
/// it ends as the starting count plus everything written to either stream.
pub proof fn lemma_splice_count_is_bytes_forwarded(count0: nat, reads: Seq<SpliceRead>)
    requires
        reads_well_formed(reads),
    ensures
        spec_splice_run(count0, reads).count == count0 + spec_splice_run(count0, reads).to_writer.len()
            + spec_splice_run(count0, reads).to_reader.len(),
    decreases reads.len(),
{
    if reads.len() > 0 {
        let init = reads.drop_last();
        assert forall|i: int| 0 <= i < init.len() implies read_well_formed(#[trigger] init[i]) by {
            assert(init[i] == reads[i]);
        }
        lemma_splice_count_is_bytes_forwarded(count0, init);
        let r = reads.last();
        assert(r == reads[reads.len() - 1]);
    }
}

/// A run whose reads all come from the reader and return data writes exactly
/// that data, in order, to the writer.
pub proof fn lemma_splice_forwards_in_order(count0: nat, reads: Seq<SpliceRead>)
    requires
        reads_well_formed(reads),
        forall|i: int| 0 <= i < reads.len() ==> reader_data(#[trigger] reads[i]),
    ensures
        spec_splice_run(count0, reads).to_writer == reads.fold_left(
            Seq::<u8>::empty(),
            |acc: Seq<u8>, r: SpliceRead| acc + r.data,
        ),
        spec_splice_run(count0, reads).to_reader == Seq::<u8>::empty(),
    decreases reads.len(),
{
    if reads.len() > 0 {
        let init = reads.drop_last();
        assert forall|i: int| 0 <= i < init.len() implies read_well_formed(#[trigger] init[i]) by {
            assert(init[i] == reads[i]);
        }
        assert forall|i: int| 0 <= i < init.len() implies reader_data(#[trigger] init[i]) by {
            assert(init[i] == reads[i]);
        }
        lemma_splice_forwards_in_order(count0, init);
        assert(reads.last() == reads[reads.len() - 1]);
    }
}

impl SpliceCounter {
    /// The count is that of the run of reads recorded so far.
    #[verifier::type_invariant]
    spec fn count_matches_run(self) -> bool {
        &&& reads_well_formed(self.reads@)
        &&& self.bytes_transferred == spec_splice_run(0, self.reads@).count
    }

    closed spec fn count(self) -> u64 {
        self.bytes_transferred
    }

    closed spec fn log(self) -> Seq<SpliceRead> {
        self.reads@
    }

    fn new() -> (c: Self)
        ensures
            c.count() == 0,
            c.log() == Seq::<SpliceRead>::empty(),
    {
        SpliceCounter { bytes_transferred: 0, reads: Ghost(Seq::empty()) }
    }

    fn get(&self) -> (n: u64)
        ensures
            n == self.count(),
            n == spec_splice_run(0, self.log()).count,
            n == spec_splice_run(0, self.log()).to_writer.len() + spec_splice_run(
                0,
                self.log(),
            ).to_reader.len(),
    {
        proof {
            use_type_invariant(self);
            lemma_splice_count_is_bytes_forwarded(0, self.reads@);
        }
        self.bytes_transferred
    }

    fn record(&mut self, from_reader: bool, outcome: ReadOutcome, data: &[u8])
        requires
            read_well_formed(SpliceRead { from_reader, outcome, data: data@ }),
            old(self).count() + data@.len() <= u64::MAX,
        ensures
            final(self).log() == old(self).log().push(SpliceRead { from_reader, outcome, data: data@ }),
            final(self).count() == spec_splice_run(0, final(self).log()).count,
    {
        proof {
            use_type_invariant(&*self);
        }
        let ghost r = SpliceRead { from_reader, outcome, data: data@ };
        let ghost before = self.reads@;
        let ghost after = before.push(r);
        proof {
            assert(after.drop_last() =~= before);
            assert(after.last() == r);
            assert forall|i: int| 0 <= i < after.len() implies read_well_formed(#[trigger] after[i]) by {
                if i < before.len() {
                    assert(after[i] == before[i]);
                }
            }
        }
        let add: u64 = match splice_step(outcome) {
            SpliceStep::Forward(_) => data.len() as u64,
            _ => 0,
        };
        *self = SpliceCounter { bytes_transferred: self.bytes_transferred + add, reads: Ghost(after) };
    }
}

impl<R, W> DirectSplice<R, W> {
    /// The first stream.
    pub closed spec fn reader(&self) -> R {
        self.reader
    }

    /// The second stream.
    pub closed spec fn writer(&self) -> W {
        self.writer
    }

    /// Bytes moved so far.
    pub closed spec fn transferred(&self) -> u64 {
        self.counter.count()
    }

    /// The reads recorded so far, in order.
    pub closed spec fn reads(&self) -> Seq<SpliceRead> {
        self.counter.log()
    }

    /// The effect of the reads recorded so far.
    pub open spec fn run(&self) -> SpliceRun {
        spec_splice_run(0, self.reads())
    }

    /// A splice of the two streams with nothing moved yet.
    pub fn new(reader: R, writer: W) -> (r: Self)
        ensures
            r.reader() == reader,
            r.writer() == writer,
            r.transferred() == 0,
            r.reads() == Seq::<SpliceRead>::empty(),
    {
        DirectSplice { reader, writer, counter: SpliceCounter::new() }
    }

    /// Both streams, for reading from one and writing to the other.
    pub fn streams(&mut self) -> (r: (&mut R, &mut W))
        ensures
            *r.0 == old(self).reader(),
            *r.1 == old(self).writer(),
            final(self).reader() == *final(r.0),
            final(self).writer() == *final(r.1),
            final(self).transferred() == old(self).transferred(),
            final(self).reads() == old(self).reads(),
    {
        (&mut self.reader, &mut self.writer)
    }

    /// Bytes moved so far: the count of the recorded reads, which is exactly
    /// the bytes forwarded to either stream.
    pub fn bytes_transferred(&self) -> (n: u64)
        ensures
            n == self.transferred(),
            n == self.run().count,
            n == self.run().to_writer.len() + self.run().to_reader.len(),
    {
        self.counter.get()
    }

    /// Records a read from the reader (`from_reader`) or the writer, with its
    /// outcome and the bytes it returned, once `splice_step` has been followed
    /// for it (a forwarded chunk written and flushed): the count grows by the
    /// bytes forwarded.
    pub fn record_read(&mut self, from_reader: bool, outcome: ReadOutcome, data: &[u8])
        requires
            read_well_formed(SpliceRead { from_reader, outcome, data: data@ }),
            old(self).transferred() + data@.len() <= u64::MAX,
        ensures
            final(self).reads() == old(self).reads().push(
                SpliceRead { from_reader, outcome, data: data@ },
            ),
            final(self).transferred() == final(self).run().count,
            final(self).reader() == old(self).reader(),
            final(self).writer() == old(self).writer(),
    {
        self.counter.record(from_reader, outcome, data);
    }
}

/// A stream together with a flag telling whether its traffic is now read
/// without the outer TLS layer.
pub struct UnwrapStream<S> {
    inner: S,
    decrypted: bool,
}

impl<S> UnwrapStream<S> {
    /// The wrapped stream.
    pub closed spec fn inner(&self) -> S {
        self.inner
    }

    /// Whether the stream is marked decrypted.
    pub closed spec fn decrypted(&self) -> bool {
        self.decrypted
    }

    /// Wraps a stream, not yet marked decrypted.
    pub fn new(inner: S) -> (r: Self)
        ensures
            r.inner() == inner,
            !r.decrypted(),
    {
        UnwrapStream { inner, decrypted: false }
    }

    /// Unwraps the stream.
    pub fn into_inner(self) -> (s: S)
        ensures
            s == self.inner(),
    {
        self.inner
    }

    /// Whether the stream is marked decrypted.
    pub fn is_decrypted(&self) -> (b: bool)
        ensures
            b == self.decrypted(),
    {
        self.decrypted
    }

    /// Marks the stream decrypted.
    pub fn mark_decrypted(&mut self)
        ensures
            final(self).decrypted(),
            final(self).inner() == old(self).inner(),
    {
        self.decrypted = true;
    }

    /// The wrapped stream, for reading and writing through.
    pub fn get_mut(&mut self) -> (s: &mut S)
        ensures
            *s == old(self).inner(),
            final(self).inner() == *final(s),
            final(self).decrypted() == old(self).decrypted(),
    {
        &mut self.inner
    }
}

} // verus!
