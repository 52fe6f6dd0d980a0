//! Sequenced controller input and the bounded per-ship queue that orders it.

use std::collections::VecDeque;
use vstd::prelude::*;

verus! {

/// A single-precision real number, carried as its IEEE-754 bit pattern.
pub type Bits32 = u32;

/// A double-precision real number, carried as its IEEE-754 bit pattern.
pub type Bits64 = u64;

/// Number of frames an input queue holds unless told otherwise.
pub const INPUT_BUFFER_CAPACITY: usize = 60;

/// One sampled controller state, tagged with the client's sequence number.
#[derive(Debug, Clone, Copy, PartialEq, Eq, Structural)]
pub struct InputData {
    pub sequence: u32,
    pub timestamp: u64,
    /// Forward thrust in `[0, 1]`.
    pub thrust: Bits32,
    /// Turn rate in `[-1, 1]`.
    pub turn: Bits32,
    pub primary_fire: bool,
    pub secondary_fire: bool,
}

impl Default for InputData {
    fn default() -> (r: Self)
        ensures
            r == (InputData {
                sequence: 0,
                timestamp: 0,
                thrust: 0,
                turn: 0,
                primary_fire: false,
                secondary_fire: false,
            }),
    {
        InputData {
            sequence: 0,
            timestamp: 0,
            thrust: 0,
            turn: 0,
            primary_fire: false,
            secondary_fire: false,
        }
    }
}

/// Where a frame with number `sequence` enters `frames`: directly behind
/// the last frame whose number is lower, or at the head if there is none.
pub open spec fn insert_position(frames: Seq<InputData>, sequence: u32) -> int
    decreases frames.len(),
{
    if frames.len() == 0 {
        0
    } else if frames.last().sequence < sequence {
        frames.len() as int
    } else {
        insert_position(frames.drop_last(), sequence)
    }
}

/// The last `capacity` frames of `frames`, or all of them if there are fewer.
pub open spec fn keep_newest(frames: Seq<InputData>, capacity: int) -> Seq<InputData> {
    if frames.len() > capacity {
        frames.subrange(frames.len() - capacity, frames.len() as int)
    } else {
        frames
    }
}

/// Number of frames at the head of `frames` whose number is below `min_sequence`.
pub open spec fn stale_prefix_len(frames: Seq<InputData>, min_sequence: u32) -> int
    decreases frames.len(),
{
    if frames.len() == 0 || frames[0].sequence >= min_sequence {
        0
    } else {
        1 + stale_prefix_len(frames.skip(1), min_sequence)
    }
}

/// Number of frames at the head of `frames` that continue the count
/// `last + 1, last + 2, ...` without a gap.
pub open spec fn ready_run(frames: Seq<InputData>, last: int) -> int
    decreases frames.len(),
{
    if frames.len() == 0 || frames[0].sequence != last + 1 {
        0
    } else {
        1 + ready_run(frames.skip(1), last + 1)
    }
}

/// Frame numbers never go down from head to tail.
pub open spec fn ordered(frames: Seq<InputData>) -> bool {
    forall|i: int, j: int| 0 <= i <= j < frames.len() ==> frames[i].sequence <= frames[j].sequence
}

/// `insert_position` is the one index whose predecessor is lower and from
/// which on no frame is lower.
pub proof fn lemma_insert_position(frames: Seq<InputData>, sequence: u32)
    ensures
        0 <= insert_position(frames, sequence) <= frames.len(),
        insert_position(frames, sequence) > 0 ==> frames[insert_position(frames, sequence)
            - 1].sequence < sequence,
        forall|j: int|
            insert_position(frames, sequence) <= j < frames.len() ==> frames[j].sequence
                >= sequence,
    decreases frames.len(),
{
    if frames.len() > 0 && frames.last().sequence >= sequence {
        let front = frames.drop_last();
        lemma_insert_position(front, sequence);
        assert forall|j: int|
            insert_position(frames, sequence) <= j < frames.len() implies frames[j].sequence
            >= sequence by {
            if j < front.len() {
                assert(front[j] == frames[j]);
            }
        }
        if insert_position(frames, sequence) > 0 {
            assert(front[insert_position(front, sequence) - 1] == frames[insert_position(
                frames,
                sequence,
            ) - 1]);
        }
    }
}

/// Entering a frame at its position keeps an ordered queue ordered.
pub proof fn lemma_insert_keeps_order(frames: Seq<InputData>, input: InputData)
    requires
        ordered(frames),
    ensures
        ordered(frames.insert(insert_position(frames, input.sequence), input)),
{
    let p = insert_position(frames, input.sequence);
    lemma_insert_position(frames, input.sequence);
    let after = frames.insert(p, input);
    assert forall|i: int, j: int| 0 <= i <= j < after.len() implies after[i].sequence
        <= after[j].sequence by {
        if i < p && j > p {
            assert(frames[i].sequence <= frames[p - 1].sequence);
        }
    }
}

/// The frames counted by `stale_prefix_len` are all below `min_sequence`,
/// and the frame behind them, if any, is not.
pub proof fn lemma_stale_prefix(frames: Seq<InputData>, min_sequence: u32)
    ensures
        0 <= stale_prefix_len(frames, min_sequence) <= frames.len(),
        forall|i: int|
            0 <= i < stale_prefix_len(frames, min_sequence) ==> frames[i].sequence < min_sequence,
        stale_prefix_len(frames, min_sequence) < frames.len() ==> frames[stale_prefix_len(
            frames,
            min_sequence,
        )].sequence >= min_sequence,
    decreases frames.len(),
{
    if frames.len() > 0 && frames[0].sequence < min_sequence {
        let rest = frames.skip(1);
        lemma_stale_prefix(rest, min_sequence);
        let k = stale_prefix_len(rest, min_sequence);
        assert forall|i: int| 0 <= i < k + 1 implies frames[i].sequence < min_sequence by {
            if i > 0 {
                assert(rest[i - 1] == frames[i]);
            }
        }
        if k < rest.len() {
            assert(rest[k] == frames[k + 1]);
        }
    }
}

/// The frames counted by `ready_run` carry the numbers `last + 1` onwards,
/// and the frame behind them, if any, does not continue the count.
pub proof fn lemma_ready_run(frames: Seq<InputData>, last: int)
    ensures
        0 <= ready_run(frames, last) <= frames.len(),
        forall|i: int| 0 <= i < ready_run(frames, last) ==> frames[i].sequence == last + 1 + i,
        ready_run(frames, last) < frames.len() ==> frames[ready_run(frames, last)].sequence != last
            + 1 + ready_run(frames, last),
    decreases frames.len(),
{
    if frames.len() > 0 && frames[0].sequence == last + 1 {
        let rest = frames.skip(1);
        lemma_ready_run(rest, last + 1);
        let k = ready_run(rest, last + 1);
        assert forall|i: int| 0 <= i < k + 1 implies frames[i].sequence == last + 1 + i by {
            if i > 0 {
                assert(rest[i - 1] == frames[i]);
            }
        }
        if k < rest.len() {
            assert(rest[k] == frames[k + 1]);
        }
    }
}

/// What an input queue holds, as plain values.
pub struct InputBufferView {
    pub frames: Seq<InputData>,
    pub last_processed_sequence: u32,
    pub max_buffer_size: usize,
}

/// Per-ship queue of input frames, ordered by sequence number and bounded
/// in length.
#[derive(Debug, Clone)]
pub struct InputBuffer {
    pub buffer: VecDeque<InputData>,
    pub last_processed_sequence: u32,
    pub max_buffer_size: usize,
}

impl View for InputBuffer {
    type V = InputBufferView;

    open spec fn view(&self) -> InputBufferView {
        InputBufferView {
            frames: self.buffer@,
            last_processed_sequence: self.last_processed_sequence,
            max_buffer_size: self.max_buffer_size,
        }
    }
}

impl InputBufferView {
    /// The queue holds no more frames than its capacity.
    pub open spec fn within_capacity(self) -> bool {
        self.frames.len() <= self.max_buffer_size
    }

    /// The queue after `input` has entered it.
    pub open spec fn with_input(self, input: InputData) -> InputBufferView {
        InputBufferView {
            frames: keep_newest(
                self.frames.insert(insert_position(self.frames, input.sequence), input),
                self.max_buffer_size as int,
            ),
            ..self
        }
    }

    /// Whether the head frame is the one that follows the last processed.
    pub open spec fn head_ready(self) -> bool {
        self.frames.len() > 0 && self.frames[0].sequence == self.last_processed_sequence + 1
    }

    /// The queue after its head has been handed out.
    pub open spec fn without_head(self) -> InputBufferView {
        InputBufferView {
            frames: self.frames.skip(1),
            last_processed_sequence: self.frames[0].sequence,
            ..self
        }
    }

    /// The queue after every readable frame has been consumed and the
    /// newest of them put back as the single pending frame.
    pub open spec fn latest_kept(self) -> InputBufferView {
        let run = ready_run(self.frames, self.last_processed_sequence as int);
        if run == 0 {
            self
        } else {
            InputBufferView {
                frames: seq![self.frames[run - 1]],
                last_processed_sequence: self.frames[run - 1].sequence,
                ..self
            }
        }
    }

    /// The frame that movement and weapons act on: the newest in the queue.
    pub open spec fn pending(self) -> Option<InputData> {
        if self.frames.len() > 0 {
            Some(self.frames.last())
        } else {
            None
        }
    }
}

impl Default for InputBuffer {
    fn default() -> (r: Self)
        ensures
            r@.frames == Seq::<InputData>::empty(),
            r@.last_processed_sequence == 0,
            r@.max_buffer_size == INPUT_BUFFER_CAPACITY,
    {
        InputBuffer {
            buffer: VecDeque::new(),
            last_processed_sequence: 0,
            max_buffer_size: INPUT_BUFFER_CAPACITY,
        }
    }
}

impl InputBuffer {
    /// Enters `input` in sequence order, then drops frames from the head
    /// until the queue fits its capacity.
    pub fn add_input(&mut self, input: InputData)
        ensures
            final(self)@ == old(self)@.with_input(input),
            final(self)@.within_capacity(),
            ordered(old(self)@.frames) ==> ordered(final(self)@.frames),
    {
        let ghost before = self.buffer@;
        let mut insert_pos: usize = self.buffer.len();
        assert(before.subrange(0, before.len() as int) == before);
        while insert_pos > 0 && self.buffer[insert_pos - 1].sequence >= input.sequence
            invariant
                insert_pos <= self.buffer@.len(),
                self.buffer@ == before,
                insert_position(before, input.sequence) == insert_position(
                    before.subrange(0, insert_pos as int),
                    input.sequence,
                ),
            decreases insert_pos,
        {
            proof {
                let head = before.subrange(0, insert_pos as int);
                assert(head.last() == before[insert_pos - 1]);
                assert(head.drop_last() == before.subrange(0, insert_pos - 1));
            }
            insert_pos -= 1;
        }
        proof {
            let head = before.subrange(0, insert_pos as int);
            if insert_pos > 0 {
                assert(head.last() == before[insert_pos - 1]);
            }
            assert(insert_position(before, input.sequence) == insert_pos);
        }
        self.buffer.insert(insert_pos, input);
        let ghost entered = self.buffer@;
        while self.buffer.len() > self.max_buffer_size
            invariant
                self.max_buffer_size == old(self).max_buffer_size,
                self.last_processed_sequence == old(self).last_processed_sequence,
                self.buffer@.len() <= entered.len(),
                self.buffer@ == entered.subrange(
                    entered.len() - self.buffer@.len(),
                    entered.len() as int,
                ),
                self.buffer@.len() >= self.max_buffer_size || self.buffer@.len() == entered.len(),
            decreases self.buffer@.len(),
        {
            let ghost held = self.buffer@;
            self.buffer.pop_front();
            assert(self.buffer@ == entered.subrange(
                entered.len() - self.buffer@.len(),
                entered.len() as int,
            ));
        }
        proof {
            assert(entered.subrange(0, entered.len() as int) == entered);
            assert(final(self)@.frames == keep_newest(entered, self.max_buffer_size as int));
            if ordered(before) {
                lemma_insert_keeps_order(before, input);
            }
        }
    }

    /// Hands out the head frame if it is the one that follows the last
    /// processed; otherwise leaves the queue as it is.
    pub fn get_next_input(&mut self) -> (next: Option<InputData>)
        ensures
            old(self)@.head_ready() ==> next == Some(old(self)@.frames[0]) && final(self)@ == old(
                self,
            )@.without_head(),
            !old(self)@.head_ready() ==> next.is_none() && final(self)@ == old(self)@,
            final(self)@.last_processed_sequence >= old(self)@.last_processed_sequence,
            final(self)@.frames.len() <= old(self)@.frames.len(),
            old(self)@.within_capacity() ==> final(self)@.within_capacity(),
    {
        if self.buffer.len() > 0 {
            let head = self.buffer[0];
            if head.sequence > 0 && head.sequence - 1 == self.last_processed_sequence {
                self.last_processed_sequence = head.sequence;
                let taken = self.buffer.pop_front();
                assert(self.buffer@ == old(self).buffer@.skip(1));
                return taken;
            }
        }
        None
    }

    /// Drops every frame at the head whose number is below `min_sequence`.
    pub fn clear_old_inputs(&mut self, min_sequence: u32)
        ensures
            final(self)@.frames == old(self)@.frames.skip(
                stale_prefix_len(old(self)@.frames, min_sequence),
            ),
            final(self)@.last_processed_sequence == old(self)@.last_processed_sequence,
            final(self)@.max_buffer_size == old(self)@.max_buffer_size,
            final(self)@.frames.len() <= old(self)@.frames.len(),
            old(self)@.within_capacity() ==> final(self)@.within_capacity(),
    {
        let ghost before = self.buffer@;
        proof {
            assert(before.skip(0) == before);
            lemma_stale_prefix(before, min_sequence);
        }
        while self.buffer.len() > 0 && self.buffer[0].sequence < min_sequence
            invariant
                self.last_processed_sequence == old(self).last_processed_sequence,
                self.max_buffer_size == old(self).max_buffer_size,
                self.buffer@.len() <= before.len(),
                self.buffer@ == before.skip(before.len() - self.buffer@.len()),
                stale_prefix_len(before, min_sequence) == (before.len() - self.buffer@.len())
                    + stale_prefix_len(self.buffer@, min_sequence),
            decreases self.buffer@.len(),
        {
            let ghost held = self.buffer@;
            self.buffer.pop_front();
            assert(self.buffer@ == held.skip(1));
            assert(self.buffer@ == before.skip(before.len() - self.buffer@.len()));
        }
    }

    /// Consumes every readable frame, keeps the newest as the single
    /// pending frame, and tells how many older ones were passed over.
    /// A queue with nothing readable is left as it is.
    pub fn keep_latest(&mut self) -> (discarded: usize)
        ensures
            final(self)@ == old(self)@.latest_kept(),
            discarded == if ready_run(old(self)@.frames, old(self)@.last_processed_sequence as int)
                == 0 {
                0
            } else {
                ready_run(old(self)@.frames, old(self)@.last_processed_sequence as int) - 1
            },
            final(self)@.last_processed_sequence >= old(self)@.last_processed_sequence,
            final(self)@.frames.len() <= old(self)@.frames.len(),
            old(self)@.within_capacity() ==> final(self)@.within_capacity(),
    {
        let ghost before = self@;
        let mut latest: Option<InputData> = None;
        let mut discarded: usize = 0;
        let mut consumed: usize = 0;
        proof {
            assert(before.frames.skip(0) == before.frames);
        }
        loop
            invariant_except_break
                self@.max_buffer_size == before.max_buffer_size,
                consumed <= before.frames.len(),
                self@.frames == before.frames.skip(consumed as int),
                self@.last_processed_sequence == before.last_processed_sequence + consumed,
                ready_run(before.frames, before.last_processed_sequence as int) == consumed
                    + ready_run(self@.frames, self@.last_processed_sequence as int),
                consumed == 0 ==> latest.is_none() && discarded == 0,
                consumed > 0 ==> latest == Some(before.frames[consumed - 1]) && discarded
                    == consumed - 1,
            ensures
                self@.max_buffer_size == before.max_buffer_size,
                consumed == ready_run(before.frames, before.last_processed_sequence as int),
                consumed <= before.frames.len(),
                self@.frames == before.frames.skip(consumed as int),
                self@.last_processed_sequence == before.last_processed_sequence + consumed,
                consumed == 0 ==> latest.is_none() && discarded == 0,
                consumed > 0 ==> latest == Some(before.frames[consumed - 1]) && discarded
                    == consumed - 1,
            decreases self@.frames.len(),
        {
            let ghost held = self@;
            match self.get_next_input() {
                Some(input) => {
                    if latest.is_some() {
                        discarded += 1;
                    }
                    latest = Some(input);
                    consumed += 1;
                    proof {
                        assert(held.frames.skip(1) == before.frames.skip(consumed as int));
                    }
                },
                None => {
                    break ;
                },
            }
        }
        if let Some(input) = latest {
            self.buffer.clear();
            self.buffer.push_back(input);
            proof {
                assert(self.buffer@ == seq![input]);
                lemma_ready_run(before.frames, before.last_processed_sequence as int);
                assert(self@ == before.latest_kept());
            }
        }
        discarded
    }

    /// The pending frame, if there is one: the newest in the queue.
    pub fn pending(&self) -> (frame: Option<InputData>)
        ensures
            frame == self@.pending(),
    {
        let n = self.buffer.len();
        if n > 0 {
            Some(self.buffer[n - 1])
        } else {
            None
        }
    }

    /// Hands out the pending frame and empties the queue, so that no
    /// frame is acted on twice.
    pub fn take_pending(&mut self) -> (frame: Option<InputData>)
        ensures
            frame == old(self)@.pending(),
            final(self)@.frames == Seq::<InputData>::empty(),
            final(self)@.last_processed_sequence == old(self)@.last_processed_sequence,
            final(self)@.max_buffer_size == old(self)@.max_buffer_size,
    {
        let frame = self.pending();
        self.buffer.clear();
        frame
    }
}

} // verus!
