//! A bounded, unidirectional in-memory byte pipe.
//!
//! `pipe(capacity)` hands out a writer and a reader that share one buffer.
//! Bytes written to the writer become readable from the reader, in order.
//! A write waits (is pending) while `capacity` bytes are buffered, which is
//! how backpressure reaches the writing side; a read waits while the buffer
//! is empty and the writer is still open, and reports end-of-stream once the
//! writer has closed and everything has been read.

use vstd::prelude::*;
use std::collections::VecDeque;
use std::sync::Arc;
use std::task::Waker;
use vstd::rwlock::{RwLock, RwLockPredicate};

verus! {

#[verifier::external_type_specification]
#[verifier::external_body]
pub struct ExWaker(Waker);

/// A second handle to the shared state of one pipe, made by `Arc::clone`
/// (std); the new handle points at the same lock.
#[verifier::external_body]
fn share(a: &Arc<RwLock<PipeInner, PipeWf>>) -> (res: Arc<RwLock<PipeInner, PipeWf>>)
    ensures
        res == *a,
{
    a.clone()
}

/// Wakes the task behind `waker` by calling `Waker::wake` (std). Nothing is
/// claimed: waking only schedules another poll of that task.
#[verifier::external_body]
fn wake(waker: Waker) {
    waker.wake()
}

/// A second handle to the task behind `waker`, made by `Waker::clone` (std).
/// Nothing is claimed of the handle beyond its type.
#[verifier::external_body]
fn clone_waker(waker: &Waker) -> Waker {
    waker.clone()
}

/// What the pipe holds, as plain values.
pub struct PipeView {
    /// The buffered bytes, oldest first.
    pub bytes: Seq<u8>,
    pub capacity: nat,
    pub writer_closed: bool,
    pub reader_closed: bool,
    /// A reader is waiting to be woken when bytes arrive or the writer closes.
    pub reader_waiting: bool,
    /// A writer is waiting to be woken when room appears or the reader closes.
    pub writer_waiting: bool,
}

impl PipeView {
    pub open spec fn wf(self) -> bool {
        &&& self.capacity > 0
        &&& self.bytes.len() <= self.capacity
    }

    /// Free room in the buffer.
    pub open spec fn room(self) -> nat {
        if self.bytes.len() <= self.capacity {
            (self.capacity - self.bytes.len()) as nat
        } else {
            0
        }
    }
}

/// An empty, open pipe of the given capacity.
pub open spec fn fresh_pipe(capacity: nat) -> PipeView {
    PipeView {
        bytes: Seq::empty(),
        capacity,
        writer_closed: false,
        reader_closed: false,
        reader_waiting: false,
        writer_waiting: false,
    }
}

/// How a read of at most `max` bytes is answered: `None` means the read
/// waits; `Some(bytes)` is the answer, where an empty answer is end-of-stream
/// (or a read of zero bytes).
pub open spec fn read_answer(v: PipeView, max: nat) -> Option<Seq<u8>> {
    if v.bytes.len() == 0 {
        if v.writer_closed {
            Some(Seq::empty())
        } else {
            None
        }
    } else if max < v.bytes.len() {
        Some(v.bytes.take(max as int))
    } else {
        Some(v.bytes)
    }
}

/// The pipe after a read of at most `max` bytes.
pub open spec fn after_read(v: PipeView, max: nat) -> PipeView {
    match read_answer(v, max) {
        None => PipeView { reader_waiting: true, ..v },
        Some(out) => if v.bytes.len() == 0 {
            v
        } else {
            PipeView { bytes: v.bytes.skip(out.len() as int), writer_waiting: false, ..v }
        },
    }
}

/// How a write of `data` is answered.
pub enum WriteAnswer {
    /// This many leading bytes of `data` were accepted.
    Written(nat),
    /// The pipe is closed at either end; nothing was accepted.
    Closed,
    /// The buffer is full; the write waits.
    Pending,
}

pub open spec fn write_answer(v: PipeView, data: Seq<u8>) -> WriteAnswer {
    if v.reader_closed || v.writer_closed {
        WriteAnswer::Closed
    } else if v.room() == 0 {
        WriteAnswer::Pending
    } else if data.len() < v.room() {
        WriteAnswer::Written(data.len())
    } else {
        WriteAnswer::Written(v.room())
    }
}

/// The pipe after a write of `data`.
pub open spec fn after_write(v: PipeView, data: Seq<u8>) -> PipeView {
    match write_answer(v, data) {
        WriteAnswer::Closed => v,
        WriteAnswer::Pending => PipeView { writer_waiting: true, ..v },
        WriteAnswer::Written(n) => PipeView {
            bytes: v.bytes + data.take(n as int),
            reader_waiting: false,
            ..v
        },
    }
}

/// The pipe after the writing side closes: a waiting reader is woken.
pub open spec fn after_close_writer(v: PipeView) -> PipeView {
    PipeView { writer_closed: true, reader_waiting: false, ..v }
}

/// The pipe after the reading side closes: buffered bytes are discarded
/// and a waiting writer is woken.
pub open spec fn after_close_reader(v: PipeView) -> PipeView {
    PipeView { reader_closed: true, bytes: Seq::empty(), writer_waiting: false, ..v }
}

/// The answer to a poll for reading.
pub enum ReadPoll {
    /// The bytes read; empty means end-of-stream.
    Ready(Vec<u8>),
    Pending,
}

/// The answer to a poll for writing.
pub enum WritePoll {
    /// How many bytes were accepted.
    Written(usize),
    /// The pipe is closed (a broken pipe for the writer).
    Closed,
    Pending,
}

pub open spec fn read_poll_is(r: ReadPoll, a: Option<Seq<u8>>) -> bool {
    match r {
        ReadPoll::Ready(out) => a == Some(out@),
        ReadPoll::Pending => a is None,
    }
}

pub open spec fn write_poll_is(r: WritePoll, a: WriteAnswer) -> bool {
    match r {
        WritePoll::Written(n) => a == WriteAnswer::Written(n as nat),
        WritePoll::Closed => a is Closed,
        WritePoll::Pending => a is Pending,
    }
}

/// The shared state of one pipe.
pub struct PipeInner {
    buf: VecDeque<u8>,
    capacity: usize,
    reader_waker: Option<Waker>,
    writer_waker: Option<Waker>,
    writer_closed: bool,
    reader_closed: bool,
}

impl View for PipeInner {
    type V = PipeView;

    closed spec fn view(&self) -> PipeView {
        PipeView {
            bytes: self.buf@,
            capacity: self.capacity as nat,
            writer_closed: self.writer_closed,
            reader_closed: self.reader_closed,
            reader_waiting: self.reader_waker is Some,
            writer_waiting: self.writer_waker is Some,
        }
    }
}

impl PipeInner {
    #[verifier::type_invariant]
    spec fn inv(&self) -> bool {
        &&& self.capacity > 0
        &&& self.buf@.len() <= self.capacity
    }

    /// An empty, open pipe state.
    pub fn new(capacity: usize) -> (p: Self)
        requires
            capacity > 0,
        ensures
            p@ == fresh_pipe(capacity as nat),
            p@.wf(),
    {
        PipeInner {
            buf: VecDeque::new(),
            capacity,
            reader_waker: None,
            writer_waker: None,
            writer_closed: false,
            reader_closed: false,
        }
    }

    fn wake_writer(&mut self)
        ensures
            final(self)@ == (PipeView { writer_waiting: false, ..old(self)@ }),
    {
        proof {
            use_type_invariant(&*self);
        }
        let mut w: Option<Waker> = None;
        std::mem::swap(&mut w, &mut self.writer_waker);
        if let Some(w) = w {
            wake(w);
        }
    }

    fn wake_reader(&mut self)
        ensures
            final(self)@ == (PipeView { reader_waiting: false, ..old(self)@ }),
    {
        proof {
            use_type_invariant(&*self);
        }
        let mut w: Option<Waker> = None;
        std::mem::swap(&mut w, &mut self.reader_waker);
        if let Some(w) = w {
            wake(w);
        }
    }

    /// Read at most `max` buffered bytes. When nothing is buffered and the
    /// writer is open, `waker` is kept to be woken by the next write or
    /// close, and the read waits.
    pub fn read(&mut self, waker: &Waker, max: usize) -> (r: ReadPoll)
        ensures
            final(self)@.wf(),
            read_poll_is(r, read_answer(old(self)@, max as nat)),
            final(self)@ == after_read(old(self)@, max as nat),
    {
        proof {
            use_type_invariant(&*self);
        }
        if self.buf.len() == 0 {
            if self.writer_closed {
                return ReadPoll::Ready(Vec::new());
            }
            self.reader_waker = Some(clone_waker(waker));
            return ReadPoll::Pending;
        }
        let n = if max < self.buf.len() { max } else { self.buf.len() };
        let mut buf: VecDeque<u8> = VecDeque::new();
        std::mem::swap(&mut buf, &mut self.buf);
        let ghost start = buf@;
        let mut out: Vec<u8> = Vec::new();
        let mut i: usize = 0;
        while i < n
            invariant
                i <= n,
                n <= start.len(),
                out@ == start.take(i as int),
                buf@ == start.skip(i as int),
                start == old(self)@.bytes,
            decreases n - i,
        {
            match buf.pop_front() {
                Some(b) => {
                    proof {
                        assert(start.take(i as int).push(b) =~= start.take(i + 1));
                        assert(buf@ =~= start.skip(i + 1));
                    }
                    out.push(b);
                },
                None => {
                    proof {
                        assert(false);
                    }
                },
            }
            i = i + 1;
        }
        proof {
            if n == start.len() {
                assert(start.take(n as int) =~= start);
            }
        }
        self.buf = buf;
        self.wake_writer();
        ReadPoll::Ready(out)
    }

    /// Write as many leading bytes of `data` as there is room for. When the
    /// buffer is full, `waker` is kept to be woken by the next read or
    /// reader close, and the write waits.
    pub fn write(&mut self, waker: &Waker, data: &[u8]) -> (r: WritePoll)
        ensures
            final(self)@.wf(),
            write_poll_is(r, write_answer(old(self)@, data@)),
            final(self)@ == after_write(old(self)@, data@),
    {
        proof {
            use_type_invariant(&*self);
        }
        if self.reader_closed || self.writer_closed {
            return WritePoll::Closed;
        }
        let room = self.capacity - self.buf.len();
        if room == 0 {
            self.writer_waker = Some(clone_waker(waker));
            return WritePoll::Pending;
        }
        let n = if data.len() < room { data.len() } else { room };
        let mut buf: VecDeque<u8> = VecDeque::new();
        std::mem::swap(&mut buf, &mut self.buf);
        let ghost start = buf@;
        let mut i: usize = 0;
        while i < n
            invariant
                i <= n,
                n <= data@.len(),
                buf@ == start + data@.take(i as int),
                start == old(self)@.bytes,
            decreases n - i,
        {
            buf.push_back(data[i]);
            proof {
                assert(start + data@.take(i + 1) =~= (start + data@.take(i as int)).push(data@[i as int]));
            }
            i = i + 1;
        }
        self.buf = buf;
        self.wake_reader();
        WritePoll::Written(n)
    }

    /// The writing side is done: the reader sees end-of-stream once the
    /// buffer is drained.
    pub fn close_writer(&mut self)
        ensures
            final(self)@.wf(),
            final(self)@ == after_close_writer(old(self)@),
    {
        proof {
            use_type_invariant(&*self);
        }
        self.writer_closed = true;
        self.wake_reader();
    }

    /// The reading side is gone: buffered bytes are discarded and further
    /// writes fail.
    pub fn close_reader(&mut self)
        ensures
            final(self)@.wf(),
            final(self)@ == after_close_reader(old(self)@),
    {
        proof {
            use_type_invariant(&*self);
        }
        self.reader_closed = true;
        self.buf = VecDeque::new();
        self.wake_writer();
    }
}

/// Bytes written to an open pipe become readable, in order, after what was
/// already buffered: a read large enough returns the old contents followed
/// by the written bytes.
pub proof fn law_read_returns_written(v: PipeView, data: Seq<u8>)
    requires
        v.wf(),
        !v.writer_closed,
        !v.reader_closed,
        0 < data.len() <= v.room(),
    ensures
        write_answer(v, data) == WriteAnswer::Written(data.len()),
        read_answer(after_write(v, data), v.bytes.len() + data.len()) == Some(v.bytes + data),
        after_read(after_write(v, data), v.bytes.len() + data.len()).bytes.len() == 0,
{
    assert(data.take(data.len() as int) =~= data);
    let w = after_write(v, data);
    assert(w.bytes =~= v.bytes + data);
    assert(w.bytes.skip(w.bytes.len() as int) =~= Seq::<u8>::empty());
}

/// A read loses and reorders nothing: the bytes it returns followed by the
/// bytes left behind are exactly the bytes that were buffered.
pub proof fn law_read_conserves_bytes(v: PipeView, max: nat)
    requires
        v.wf(),
    ensures
        read_answer(v, max) matches Some(out) ==> out + after_read(v, max).bytes == v.bytes,
{
    if read_answer(v, max) is Some {
        let out = read_answer(v, max)->0;
        if v.bytes.len() == 0 {
            assert(out + v.bytes =~= v.bytes);
        } else {
            assert(out + v.bytes.skip(out.len() as int) =~= v.bytes);
        }
    }
}

/// A write accepts as many leading bytes as there is room for and never
/// lets the buffer grow past its capacity.
pub proof fn law_write_respects_capacity(v: PipeView, data: Seq<u8>)
    requires
        v.wf(),
    ensures
        after_write(v, data).wf(),
        write_answer(v, data) matches WriteAnswer::Written(n) ==> n == if data.len() < v.room() { data.len() } else { v.room() },
        after_write(v, data).bytes.len() <= v.capacity,
{
}

/// Backpressure: a write waits exactly when both ends are open and the
/// buffer holds `capacity` bytes.
pub proof fn law_write_waits_iff_full(v: PipeView, data: Seq<u8>)
    requires
        v.wf(),
    ensures
        (write_answer(v, data) is Pending) <==> (!v.reader_closed && !v.writer_closed && v.bytes.len() == v.capacity),
{
}

/// End-of-stream: a read of at least one byte reports end-of-stream exactly
/// when the writer has closed and nothing is left; it waits exactly when
/// nothing is buffered and the writer is still open.
pub proof fn law_end_of_stream(v: PipeView, max: nat)
    requires
        v.wf(),
        max > 0,
    ensures
        (read_answer(v, max) == Some(Seq::<u8>::empty())) <==> (v.bytes.len() == 0 && v.writer_closed),
        (read_answer(v, max) is None) <==> (v.bytes.len() == 0 && !v.writer_closed),
{
    if v.bytes.len() > 0 {
        if max < v.bytes.len() {
            assert(v.bytes.take(max as int).len() == max);
        }
    }
}

/// Once either end has closed, every write fails and leaves the pipe as it
/// was; once the reader has closed, nothing stays buffered.
pub proof fn law_closed_pipe_refuses_writes(v: PipeView, data: Seq<u8>)
    requires
        v.wf(),
    ensures
        write_answer(after_close_reader(v), data) is Closed,
        after_close_reader(v).bytes.len() == 0,
        write_answer(after_close_writer(v), data) is Closed,
        after_write(after_close_writer(v), data) == after_close_writer(v),
{
}

/// Closing is for good and the capacity never changes: no read or write
/// reopens a closed end or resizes the buffer.
pub proof fn law_closing_is_final(v: PipeView, data: Seq<u8>, max: nat)
    ensures
        after_read(v, max).writer_closed == v.writer_closed,
        after_read(v, max).reader_closed == v.reader_closed,
        after_read(v, max).capacity == v.capacity,
        after_write(v, data).writer_closed == v.writer_closed,
        after_write(v, data).reader_closed == v.reader_closed,
        after_write(v, data).capacity == v.capacity,
        after_close_writer(after_close_reader(v)) == after_close_reader(after_close_writer(v)),
{
}

/// One call on a pipe whose reader stays open.
pub enum PipeCall {
    /// A read of at most this many bytes.
    Read(nat),
    /// A write of these bytes.
    Write(Seq<u8>),
    /// The writer closes.
    CloseWriter,
}

/// The bytes a call hands to the reader (none for a write, a close or a
/// read that waits).
pub open spec fn call_read(v: PipeView, c: PipeCall) -> Seq<u8> {
    match c {
        PipeCall::Read(max) => match read_answer(v, max) {
            Some(out) => out,
            None => Seq::empty(),
        },
        _ => Seq::empty(),
    }
}

/// The bytes a call takes from the writer (none unless a write accepts some).
pub open spec fn call_accepted(v: PipeView, c: PipeCall) -> Seq<u8> {
    match c {
        PipeCall::Write(data) => match write_answer(v, data) {
            WriteAnswer::Written(n) => data.take(n as int),
            _ => Seq::empty(),
        },
        _ => Seq::empty(),
    }
}

/// The pipe after a call.
pub open spec fn after_call(v: PipeView, c: PipeCall) -> PipeView {
    match c {
        PipeCall::Read(max) => after_read(v, max),
        PipeCall::Write(data) => after_write(v, data),
        PipeCall::CloseWriter => after_close_writer(v),
    }
}

/// The pipe after a sequence of calls, with all the bytes the reads handed
/// out and all the bytes the writes accepted, each in call order.
pub open spec fn run_calls(v: PipeView, calls: Seq<PipeCall>) -> (PipeView, Seq<u8>, Seq<u8>)
    decreases calls.len(),
{
    if calls.len() == 0 {
        (v, Seq::empty(), Seq::empty())
    } else {
        let (w, read, accepted) = run_calls(v, calls.drop_last());
        let c = calls.last();
        (after_call(w, c), read + call_read(w, c), accepted + call_accepted(w, c))
    }
}

/// First in, first out, over any sequence of reads, writes and a writer
/// close: the bytes handed out by all reads, followed by the bytes still
/// buffered, are exactly the bytes buffered at the start followed by every
/// byte the writes accepted. No byte is lost, duplicated or reordered, and
/// once nothing is buffered (a read waits or sees end-of-stream) the reads
/// have handed out every accepted byte.
pub proof fn law_pipe_is_fifo(v: PipeView, calls: Seq<PipeCall>)
    requires
        v.wf(),
    ensures
        run_calls(v, calls).0.wf(),
        run_calls(v, calls).0.capacity == v.capacity,
        run_calls(v, calls).1 + run_calls(v, calls).0.bytes == v.bytes + run_calls(v, calls).2,
        run_calls(v, calls).0.bytes.len() == 0 ==> run_calls(v, calls).1 == v.bytes + run_calls(v, calls).2,
    decreases calls.len(),
{
    if calls.len() > 0 {
        law_pipe_is_fifo(v, calls.drop_last());
        let (w, read, accepted) = run_calls(v, calls.drop_last());
        let c = calls.last();
        let w1 = after_call(w, c);
        let out = call_read(w, c);
        let acc = call_accepted(w, c);
        match c {
            PipeCall::Read(max) => {
                law_read_conserves_bytes(w, max);
                assert(out + w1.bytes == w.bytes);
                assert(acc =~= Seq::<u8>::empty());
                assert((read + out) + w1.bytes =~= read + (out + w1.bytes));
                assert(accepted + acc =~= accepted);
            },
            PipeCall::Write(data) => {
                law_write_respects_capacity(w, data);
                assert(out =~= Seq::<u8>::empty());
                assert(w1.bytes == w.bytes + acc);
                assert(read + out =~= read);
                assert(read + (w.bytes + acc) =~= (read + w.bytes) + acc);
                assert((v.bytes + accepted) + acc =~= v.bytes + (accepted + acc));
            },
            PipeCall::CloseWriter => {
                assert(out =~= Seq::<u8>::empty());
                assert(acc =~= Seq::<u8>::empty());
                assert(read + out =~= read);
                assert(accepted + acc =~= accepted);
            },
        }
        let r = run_calls(v, calls);
        assert(r.1 + r.0.bytes == v.bytes + r.2);
        if r.0.bytes.len() == 0 {
            assert(r.1 + r.0.bytes =~= r.1);
        }
    }
}

/// From a fresh pipe, what the reader gets is a prefix of what the writer
/// put in, and all of it once nothing is left buffered.
pub proof fn law_fresh_pipe_hands_out_what_was_written(capacity: nat, calls: Seq<PipeCall>)
    requires
        capacity > 0,
    ensures
        ({
            let (w, read, accepted) = run_calls(fresh_pipe(capacity), calls);
            &&& read.len() <= accepted.len()
            &&& read == accepted.take(read.len() as int)
            &&& w.bytes.len() == 0 ==> read == accepted
        }),
{
    let v = fresh_pipe(capacity);
    law_pipe_is_fifo(v, calls);
    let (w, read, accepted) = run_calls(v, calls);
    assert(v.bytes + accepted =~= accepted);
    assert(read + w.bytes == accepted);
    assert(read =~= accepted.take(read.len() as int));
}

/// What every state a pipe's lock may hold satisfies: well formed, with the
/// capacity the pipe was made with.
pub struct PipeWf {
    pub capacity: usize,
}

impl RwLockPredicate<PipeInner> for PipeWf {
    open spec fn inv(self, p: PipeInner) -> bool {
        &&& p@.wf()
        &&& p@.capacity == self.capacity
    }
}

/// The reading end of a pipe.
pub struct PipeReader {
    inner: Arc<RwLock<PipeInner, PipeWf>>,
    capacity: usize,
}

/// The writing end of a pipe.
pub struct PipeWriter {
    inner: Arc<RwLock<PipeInner, PipeWf>>,
    capacity: usize,
}

impl PipeReader {
    #[verifier::type_invariant]
    spec fn handle_inv(&self) -> bool {
        &&& self.capacity > 0
        &&& self.inner.pred() == (PipeWf { capacity: self.capacity })
    }

    /// The capacity of the pipe.
    pub closed spec fn capacity(&self) -> nat {
        self.capacity as nat
    }

    /// Read at most `max` bytes. The shared state is whatever the writer
    /// left it in, so the answer is the one `read_answer` gives for some
    /// well-formed state of this pipe's capacity.
    pub fn poll_read(&self, waker: &Waker, max: usize) -> (r: ReadPoll)
        ensures
            exists|v: PipeView|
                v.wf() && v.capacity == self.capacity() && read_poll_is(r, #[trigger] read_answer(v, max as nat)),
    {
        proof {
            use_type_invariant(self);
        }
        let (mut state, handle) = self.inner.acquire_write();
        let ghost before = state@;
        let r = state.read(waker, max);
        handle.release_write(state);
        proof {
            assert(before.wf() && before.capacity == self.capacity() && read_poll_is(r, read_answer(before, max as nat)));
        }
        r
    }

    /// Close the reading side: buffered bytes are discarded and the writer
    /// fails from now on.
    pub fn close(&self) {
        proof {
            use_type_invariant(self);
        }
        let (mut state, handle) = self.inner.acquire_write();
        state.close_reader();
        handle.release_write(state);
    }
}

impl PipeWriter {
    /// Do this writer and `reader` share one buffer?
    pub closed spec fn connected_to(&self, reader: &PipeReader) -> bool {
        *self.inner == *reader.inner
    }

    #[verifier::type_invariant]
    spec fn handle_inv(&self) -> bool {
        &&& self.capacity > 0
        &&& self.inner.pred() == (PipeWf { capacity: self.capacity })
    }

    /// The capacity of the pipe.
    pub closed spec fn capacity(&self) -> nat {
        self.capacity as nat
    }

    /// Write as many leading bytes of `data` as fit. The answer is the one
    /// `write_answer` gives for some well-formed state of this pipe's
    /// capacity.
    pub fn poll_write(&self, waker: &Waker, data: &[u8]) -> (r: WritePoll)
        ensures
            exists|v: PipeView|
                v.wf() && v.capacity == self.capacity() && write_poll_is(r, #[trigger] write_answer(v, data@)),
    {
        proof {
            use_type_invariant(self);
        }
        let (mut state, handle) = self.inner.acquire_write();
        let ghost before = state@;
        let r = state.write(waker, data);
        handle.release_write(state);
        proof {
            assert(before.wf() && before.capacity == self.capacity() && write_poll_is(r, write_answer(before, data@)));
        }
        r
    }

    /// Close the writing side: the reader sees end-of-stream once it has
    /// read what is buffered.
    pub fn close(&self) {
        proof {
            use_type_invariant(self);
        }
        let (mut state, handle) = self.inner.acquire_write();
        state.close_writer();
        handle.release_write(state);
    }
}

/// Create a bounded unidirectional pipe. Writes wait while `capacity` bytes
/// are buffered, propagating backpressure to the writing side.
pub fn pipe(capacity: usize) -> (ends: (PipeWriter, PipeReader))
    requires
        capacity > 0,
    ensures
        ends.0.capacity() == capacity,
        ends.1.capacity() == capacity,
        ends.0.connected_to(&ends.1),
{
    let lock = RwLock::new(PipeInner::new(capacity), Ghost(PipeWf { capacity }));
    let inner = Arc::new(lock);
    let reader_inner = share(&inner);
    (PipeWriter { inner, capacity }, PipeReader { inner: reader_inner, capacity })
}

} // verus!
