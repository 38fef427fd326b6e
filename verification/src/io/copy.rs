//! The byte-copy engine: a flush-aware pump from a reader to a writer, and
//! the pairing of two of them into a bidirectional splice.
//!
//! One direction is a state machine over a fixed buffer. The driver reads
//! into the buffer, writes the filled region out and flushes, as the
//! machine asks, and reports each outcome; the machine keeps the cursors
//! and the count. A write of zero bytes is fatal, so that nothing is
//! truncated in silence.

use vstd::prelude::*;
use vstd::slice::slice_subrange;
use vstd::string::StringExecFns;

verus! {

/// Size of the buffer of one direction where none is asked for.
pub const DEFAULT_BUF_SIZE: usize = 8 * 1024;

/// Where one direction of a copy stands.
#[derive(Debug, Clone, Copy, PartialEq, Eq, Structural)]
pub enum CopyState {
    /// The buffer is empty; a read is due.
    Read,
    /// The buffer holds bytes that the writer has not taken yet.
    Write,
    /// The buffer was drained; a flush is due.
    Flush,
    /// The reader is at its end; the direction is complete.
    Done,
}

/// Failure of a copy that the engine itself detects.
#[derive(Debug, Clone, Copy, PartialEq, Eq, Structural)]
pub enum CopyError {
    /// The writer took no byte of a non-empty region.
    WriteZero,
}

impl CopyError {
    pub open spec fn spec_message(self) -> Seq<char> {
        "write zero byte into writer"@
    }

    /// The text shown for the error.
    pub fn message(&self) -> (text: String)
        ensures
            text@ == self.spec_message(),
    {
        String::from_str("write zero byte into writer")
    }
}

/// What the driver of one direction does next.
#[derive(Debug, Clone, Copy, PartialEq, Eq, Structural)]
pub enum CopyAction {
    /// Read once into the buffer and report how far it is filled.
    Read,
    /// Write the pending bytes once and report how many were taken.
    Write,
    /// Flush the writer and report it.
    Flush,
    /// Nothing: the direction is complete, with this many bytes copied.
    Done(u64),
}

/// Mathematical value of a [`Copy`]: its state, the bytes copied so far,
/// the bytes read but not yet written, and the size of the buffer.
pub struct CopyView {
    pub state: CopyState,
    pub amt: nat,
    pub pending: Seq<u8>,
    pub size: nat,
}

/// What a driver reports.
pub enum CopyEvent {
    /// A read completed and left these bytes in the buffer.
    Filled(Seq<u8>),
    /// A write completed and took this many of the pending bytes.
    Wrote(nat),
    /// A flush completed.
    Flushed,
}

/// A direction that nothing was read into yet.
pub open spec fn fresh(size: nat) -> CopyView {
    CopyView { state: CopyState::Read, amt: 0, pending: Seq::empty(), size }
}

/// The invariant of a direction: bytes are pending exactly while it
/// writes, and never more than the buffer holds.
pub open spec fn sound(v: CopyView) -> bool {
    &&& v.pending.len() <= v.size
    &&& v.state is Write <==> v.pending.len() > 0
}

/// Whether `e` reports what a direction at `v` asked for: a read no larger
/// than the buffer, a write no larger than what is pending, or a flush.
pub open spec fn admits(v: CopyView, e: CopyEvent) -> bool {
    match e {
        CopyEvent::Filled(data) => v.state is Read && data.len() <= v.size,
        CopyEvent::Wrote(n) => v.state is Write && n <= v.pending.len(),
        CopyEvent::Flushed => v.state is Flush,
    }
}

/// The transition of one direction.
///
/// A read that leaves nothing ends the direction; any other is written
/// out. A write of zero bytes is an error; any other is counted, and the
/// buffer is flushed once it is drained. A flush is followed by a read.
pub open spec fn copy_step(v: CopyView, e: CopyEvent) -> Result<CopyView, CopyError> {
    match e {
        CopyEvent::Filled(data) => Ok(
            if data.len() == 0 {
                CopyView { state: CopyState::Done, ..v }
            } else {
                CopyView { state: CopyState::Write, pending: data, ..v }
            },
        ),
        CopyEvent::Wrote(n) => if n == 0 {
            Err(CopyError::WriteZero)
        } else {
            let rest = v.pending.skip(n as int);
            Ok(
                CopyView {
                    state: if rest.len() == 0 {
                        CopyState::Flush
                    } else {
                        CopyState::Write
                    },
                    amt: v.amt + n,
                    pending: rest,
                    ..v
                },
            )
        },
        CopyEvent::Flushed => Ok(CopyView { state: CopyState::Read, ..v }),
    }
}

/// Where a direction stands after a run of events, if each of them reports
/// what was asked for and none is an error.
pub open spec fn copy_run(v: CopyView, events: Seq<CopyEvent>) -> Option<CopyView>
    decreases events.len(),
{
    if events.len() == 0 {
        Some(v)
    } else if !admits(v, events[0]) {
        None
    } else {
        match copy_step(v, events[0]) {
            Ok(next) => copy_run(next, events.drop_first()),
            Err(_) => None,
        }
    }
}

/// The bytes that the reader produced over a run of events.
pub open spec fn bytes_read(events: Seq<CopyEvent>) -> Seq<u8>
    decreases events.len(),
{
    if events.len() == 0 {
        Seq::empty()
    } else {
        let rest = bytes_read(events.drop_first());
        match events[0] {
            CopyEvent::Filled(data) => data + rest,
            _ => rest,
        }
    }
}

/// The bytes that the writer took over a run of events that starts at `v`.
pub open spec fn bytes_written(v: CopyView, events: Seq<CopyEvent>) -> Seq<u8>
    decreases events.len(),
{
    if events.len() == 0 || !admits(v, events[0]) {
        Seq::empty()
    } else {
        match copy_step(v, events[0]) {
            Ok(next) => {
                let rest = bytes_written(next, events.drop_first());
                match events[0] {
                    CopyEvent::Wrote(n) => v.pending.take(n as int) + rest,
                    _ => rest,
                }
            },
            Err(_) => Seq::empty(),
        }
    }
}

/// Every admitted step keeps the invariant.
pub proof fn lemma_step_sound(v: CopyView, e: CopyEvent)
    requires
        sound(v),
        admits(v, e),
    ensures
        copy_step(v, e) matches Ok(next) ==> sound(next) && next.size == v.size,
{
}

/// Over any run, what was written and what is still pending is what was
/// pending before and what was read, in order; and the count grows by what
/// was written.
pub proof fn lemma_run_conserves(v: CopyView, events: Seq<CopyEvent>)
    requires
        sound(v),
        copy_run(v, events) is Some,
    ensures
        ({
            let end = copy_run(v, events)->0;
            &&& sound(end)
            &&& bytes_written(v, events) + end.pending == v.pending + bytes_read(events)
            &&& end.amt == v.amt + bytes_written(v, events).len()
        }),
    decreases events.len(),
{
    if events.len() == 0 {
        assert(bytes_written(v, events) + v.pending =~= v.pending + bytes_read(events));
    } else {
        let e = events[0];
        let next = copy_step(v, e)->Ok_0;
        let rest = events.drop_first();
        lemma_step_sound(v, e);
        lemma_run_conserves(next, rest);
        let end = copy_run(next, rest)->0;
        match e {
            CopyEvent::Filled(data) => {
                assert(v.pending =~= Seq::<u8>::empty());
                if data.len() == 0 {
                    assert(next.pending =~= Seq::<u8>::empty());
                }
                assert(bytes_written(v, events) + end.pending =~= v.pending + bytes_read(events));
            },
            CopyEvent::Wrote(n) => {
                let head = v.pending.take(n as int);
                let tail = bytes_written(next, rest);
                assert(v.pending =~= head + next.pending);
                assert(bytes_written(v, events) == head + tail);
                assert((head + tail) + end.pending =~= head + (tail + end.pending));
                assert(head + (next.pending + bytes_read(rest)) =~= (head + next.pending)
                    + bytes_read(rest));
            },
            CopyEvent::Flushed => {
                assert(bytes_written(v, events) + end.pending =~= v.pending + bytes_read(events));
            },
        }
    }
}

/// A direction that starts fresh and runs to its end has handed the writer
/// exactly the bytes that the reader produced, in order, and reports their
/// number.
pub proof fn lemma_copy_conservation(size: nat, events: Seq<CopyEvent>)
    requires
        copy_run(fresh(size), events) matches Some(end) && end.state is Done,
    ensures
        bytes_written(fresh(size), events) == bytes_read(events),
        copy_run(fresh(size), events)->0.amt == bytes_read(events).len(),
{
    lemma_run_conserves(fresh(size), events);
    let end = copy_run(fresh(size), events)->0;
    assert(end.pending =~= Seq::<u8>::empty());
    assert(bytes_written(fresh(size), events) =~= bytes_written(fresh(size), events) + end.pending);
    assert(bytes_read(events) =~= fresh(size).pending + bytes_read(events));
}

/// A writer that takes nothing is detected at once: whatever is pending, a
/// write of zero bytes is an error and not a step.
pub proof fn lemma_write_zero(v: CopyView)
    ensures
        copy_step(v, CopyEvent::Wrote(0)) == Err::<CopyView, CopyError>(CopyError::WriteZero),
        forall|rest: Seq<CopyEvent>| #[trigger]
            copy_run(v, seq![CopyEvent::Wrote(0)] + rest) is None,
{
    assert forall|rest: Seq<CopyEvent>| #[trigger]
        copy_run(v, seq![CopyEvent::Wrote(0)] + rest) is None by {
        let events = seq![CopyEvent::Wrote(0)] + rest;
        assert(events[0] == CopyEvent::Wrote(0));
    }
}

/// One direction of a copy: the buffer, its cursors, the count of bytes
/// copied and the state.
pub struct Copy {
    amt: u64,
    cap: usize,
    pos: usize,
    buf: Vec<u8>,
    state: CopyState,
}

impl View for Copy {
    type V = CopyView;

    closed spec fn view(&self) -> CopyView {
        CopyView {
            state: self.state,
            amt: self.amt as nat,
            pending: self.buf@.subrange(self.pos as int, self.cap as int),
            size: self.buf@.len(),
        }
    }
}

impl Copy {
    /// The invariant of the cursors: the filled region lies in the buffer,
    /// and is empty unless a write is due.
    pub closed spec fn wf(&self) -> bool {
        &&& self.pos <= self.cap <= self.buf@.len()
        &&& self.state is Write ==> self.pos < self.cap
        &&& !(self.state is Write) ==> self.pos == 0 && self.cap == 0
    }

    /// What the buffer holds, filled or not.
    pub closed spec fn buffered(&self) -> Seq<u8> {
        self.buf@
    }

    /// A well-formed direction has a sound value, and its buffer has the
    /// size of its value.
    pub proof fn lemma_sound(&self)
        requires
            self.wf(),
        ensures
            sound(self@),
            self.buffered().len() == self@.size,
    {
    }

    /// A direction with a buffer of `buf_size` bytes, ready to read.
    pub fn new(buf_size: usize) -> (c: Copy)
        ensures
            c.wf(),
            c@ == fresh(buf_size as nat),
            c.buffered().len() == buf_size,
    {
        let c = Copy { amt: 0, cap: 0, pos: 0, buf: vec![0u8; buf_size], state: CopyState::Read };
        assert(c@.pending =~= Seq::<u8>::empty());
        c
    }

    /// Where the direction stands.
    pub fn state(&self) -> (s: CopyState)
        ensures
            s == self@.state,
    {
        self.state
    }

    /// Bytes copied so far.
    pub fn amt(&self) -> (n: u64)
        ensures
            n == self@.amt,
    {
        self.amt
    }

    /// What the driver does next.
    pub fn action(&self) -> (a: CopyAction)
        ensures
            a == match self@.state {
                CopyState::Read => CopyAction::Read,
                CopyState::Write => CopyAction::Write,
                CopyState::Flush => CopyAction::Flush,
                CopyState::Done => CopyAction::Done(self@.amt as u64),
            },
    {
        match self.state {
            CopyState::Read => CopyAction::Read,
            CopyState::Write => CopyAction::Write,
            CopyState::Flush => CopyAction::Flush,
            CopyState::Done => CopyAction::Done(self.amt),
        }
    }

    /// The buffer, for the reader to fill from its start while a read is
    /// due. What the driver leaves in it is what `filled` takes.
    pub fn buffer(&mut self) -> (room: &mut [u8])
        requires
            old(self).wf(),
            old(self)@.state is Read,
        ensures
            room@ == old(self).buffered(),
            room@.len() == old(self)@.size,
            final(room)@.len() == room@.len() ==> {
                &&& final(self).wf()
                &&& final(self)@ == old(self)@
                &&& final(self).buffered() == final(room)@
            },
    {
        proof {
            assert forall|s: Seq<u8>| #[trigger] s.subrange(0, 0) == Seq::<u8>::empty() by {
                assert(s.subrange(0, 0) =~= Seq::<u8>::empty());
            }
        }
        self.buf.as_mut_slice()
    }

    /// Reports a completed read that filled the first `filled_len` bytes
    /// of the buffer. No byte means that the reader is at its end.
    pub fn filled(&mut self, filled_len: usize)
        requires
            old(self).wf(),
            old(self)@.state is Read,
            filled_len <= old(self)@.size,
        ensures
            final(self).wf(),
            final(self).buffered() == old(self).buffered(),
            Ok::<CopyView, CopyError>(final(self)@) == copy_step(
                old(self)@,
                CopyEvent::Filled(old(self).buffered().take(filled_len as int)),
            ),
    {
        if self.cap == filled_len {
            self.state = CopyState::Done;
        } else {
            self.state = CopyState::Write;
        }
        self.cap = filled_len;
        proof {
            assert(self@.pending =~= old(self).buffered().take(filled_len as int));
            assert(old(self)@.pending =~= Seq::<u8>::empty());
        }
    }

    /// The bytes read but not yet written, for the writer to take from
    /// their start.
    pub fn pending(&self) -> (bytes: &[u8])
        requires
            self.wf(),
        ensures
            bytes@ == self@.pending,
    {
        slice_subrange(self.buf.as_slice(), self.pos, self.cap)
    }

    /// Reports a completed write that took the first `n` of the pending
    /// bytes. A writer that took none fails the copy, and the direction
    /// stays as it was.
    pub fn wrote(&mut self, n: usize) -> (r: Result<(), CopyError>)
        requires
            old(self).wf(),
            old(self)@.state is Write,
            n <= old(self)@.pending.len(),
            old(self)@.amt + n <= u64::MAX,
        ensures
            final(self).wf(),
            final(self).buffered() == old(self).buffered(),
            match copy_step(old(self)@, CopyEvent::Wrote(n as nat)) {
                Ok(next) => r is Ok && final(self)@ == next,
                Err(e) => r == Err::<(), CopyError>(e) && final(self)@ == old(self)@,
            },
    {
        if n == 0 {
            return Err(CopyError::WriteZero);
        }
        let ghost before = self@.pending;
        self.pos += n;
        self.amt += n as u64;
        assert(self@.pending =~= before.skip(n as int));
        if self.pos == self.cap {
            self.pos = 0;
            self.cap = 0;
            self.state = CopyState::Flush;
            assert(self@.pending =~= before.skip(n as int));
        }
        Ok(())
    }

    /// Reports a completed flush.
    pub fn flushed(&mut self)
        requires
            old(self).wf(),
            old(self)@.state is Flush,
        ensures
            final(self).wf(),
            final(self).buffered() == old(self).buffered(),
            Ok::<CopyView, CopyError>(final(self)@) == copy_step(old(self)@, CopyEvent::Flushed),
    {
        self.state = CopyState::Read;
    }
}

/// A direction with a buffer of the default size.
pub fn copy() -> (c: Copy)
    ensures
        c.wf(),
        c@ == fresh(DEFAULT_BUF_SIZE as nat),
        c.buffered().len() == DEFAULT_BUF_SIZE,
{
    copy_with_size(DEFAULT_BUF_SIZE)
}

/// A direction with a buffer of `buf_size` bytes.
pub fn copy_with_size(buf_size: usize) -> (c: Copy)
    ensures
        c.wf(),
        c@ == fresh(buf_size as nat),
        c.buffered().len() == buf_size,
{
    Copy::new(buf_size)
}

/// What polling one side of a pair gave.
#[derive(Debug, Clone, Copy, PartialEq, Eq)]
pub enum Progress<T> {
    /// It waits for its reader or writer.
    Pending,
    /// It is complete, or failed.
    Ready(T),
}

/// The two directions of a splice. They are polled together and keep
/// their buffers and counts from poll to poll.
pub struct CopyBi {
    pub a_to_b: Copy,
    pub b_to_a: Copy,
}

/// A splice whose directions have buffers of the default size.
pub fn copy_bi() -> (pair: CopyBi)
    ensures
        pair.a_to_b.wf(),
        pair.b_to_a.wf(),
        pair.a_to_b@ == fresh(DEFAULT_BUF_SIZE as nat),
        pair.b_to_a@ == fresh(DEFAULT_BUF_SIZE as nat),
        pair.a_to_b.buffered().len() == DEFAULT_BUF_SIZE,
        pair.b_to_a.buffered().len() == DEFAULT_BUF_SIZE,
{
    copy_bi_with_size(DEFAULT_BUF_SIZE, DEFAULT_BUF_SIZE)
}

/// A splice whose directions have buffers of the given sizes.
pub fn copy_bi_with_size(a_to_b_buf_size: usize, b_to_a_buf_size: usize) -> (pair: CopyBi)
    ensures
        pair.a_to_b.wf(),
        pair.b_to_a.wf(),
        pair.a_to_b@ == fresh(a_to_b_buf_size as nat),
        pair.b_to_a@ == fresh(b_to_a_buf_size as nat),
        pair.a_to_b.buffered().len() == a_to_b_buf_size,
        pair.b_to_a.buffered().len() == b_to_a_buf_size,
{
    CopyBi { a_to_b: copy_with_size(a_to_b_buf_size), b_to_a: copy_with_size(b_to_a_buf_size) }
}

/// The outcome of a splice after both directions were polled: the first
/// failure, looking at `a_to_b` first; else both counts once both
/// directions are complete; else nothing yet.
pub open spec fn joined<E>(
    a_to_b: Progress<Result<u64, E>>,
    b_to_a: Progress<Result<u64, E>>,
) -> Progress<Result<(u64, u64), E>> {
    match (a_to_b, b_to_a) {
        (Progress::Ready(Err(e)), _) => Progress::Ready(Err(e)),
        (_, Progress::Ready(Err(e))) => Progress::Ready(Err(e)),
        (Progress::Ready(Ok(a)), Progress::Ready(Ok(b))) => Progress::Ready(Ok((a, b))),
        _ => Progress::Pending,
    }
}

/// Combines what polling the two directions gave into the outcome of the
/// splice. No failure is dropped, and the counts are reported only where
/// both directions succeeded.
pub fn join<E>(a_to_b: Progress<Result<u64, E>>, b_to_a: Progress<Result<u64, E>>) -> (r: Progress<
    Result<(u64, u64), E>,
>)
    ensures
        r == joined(a_to_b, b_to_a),
{
    match a_to_b {
        Progress::Ready(Err(e)) => Progress::Ready(Err(e)),
        Progress::Ready(Ok(a)) => match b_to_a {
            Progress::Ready(Err(e)) => Progress::Ready(Err(e)),
            Progress::Ready(Ok(b)) => Progress::Ready(Ok((a, b))),
            Progress::Pending => Progress::Pending,
        },
        Progress::Pending => match b_to_a {
            Progress::Ready(Err(e)) => Progress::Ready(Err(e)),
            _ => Progress::Pending,
        },
    }
}

} // verus!
