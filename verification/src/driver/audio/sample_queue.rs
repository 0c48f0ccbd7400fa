use vstd::prelude::*;

verus! {

pub const SAMPLE_RATE: u32 = 44100;
pub const MAX_SAMPLES: usize = 32768;

/// A ring buffer of audio samples, interleaved left and right.
pub struct SampleQueue {
    buffer: [u8; MAX_SAMPLES],
    tail: u16,
    length: u16,
}

/// The buffer position of the `k`-th queued sample when the queue starts at `tail`.
pub open spec fn ring_index(tail: int, k: int) -> int {
    if tail + k < MAX_SAMPLES { tail + k } else { tail + k - MAX_SAMPLES }
}

impl View for SampleQueue {
    type V = Seq<u8>;

    /// The queued samples, oldest first.
    closed spec fn view(&self) -> Seq<u8> {
        Seq::new(self.length as nat, |k: int| self.buffer@[ring_index(self.tail as int, k)])
    }
}

impl SampleQueue {
    pub closed spec fn wf(&self) -> bool {
        &&& self.tail < MAX_SAMPLES
        &&& self.length <= MAX_SAMPLES
        &&& self.buffer@.len() == MAX_SAMPLES
    }

    pub fn new() -> (q: Self)
        ensures
            q.wf(),
            q@ == Seq::<u8>::empty(),
    {
        let q = Self { buffer: [0u8; MAX_SAMPLES], tail: 0, length: 0 };
        assert(q@ =~= Seq::<u8>::empty());
        q
    }

    /// Appends a sample when there is room; returns whether it was appended.
    fn push(&mut self, sample: u8) -> (pushed: bool)
        requires
            old(self).wf(),
        ensures
            final(self).wf(),
            pushed == (old(self)@.len() < MAX_SAMPLES),
            pushed ==> final(self)@ == old(self)@.push(sample),
            !pushed ==> final(self)@ == old(self)@,
    {
        if self.length == MAX_SAMPLES as u16 {
            return false;
        }
        let ghost old_self = *self;

        let head = (self.tail + self.length) % MAX_SAMPLES as u16;
        assert(head == ring_index(self.tail as int, self.length as int));
        self.buffer[head as usize] = sample;
        self.length = self.length + 1;
        assert(self@ =~= old_self@.push(sample));

        true
    }

    /// Removes and returns the oldest sample, if any.
    pub fn pop(&mut self) -> (sample: Option<u8>)
        requires
            old(self).wf(),
        ensures
            final(self).wf(),
            old(self)@.len() == 0 ==> sample is None && final(self)@ == old(self)@,
            old(self)@.len() > 0 ==> sample == Some(old(self)@[0]) && final(self)@ == old(self)@.drop_first(),
    {
        if self.length == 0 {
            return None;
        }
        let ghost old_self = *self;

        let sample = self.buffer[self.tail as usize];
        assert(MAX_SAMPLES as u16 == 32768u16);
        assert(old_self.tail + 1 < MAX_SAMPLES ==> (old_self.tail + 1) % 32768 == old_self.tail + 1);

        self.tail = (self.tail + 1) % MAX_SAMPLES as u16;
        self.length = self.length - 1;
        assert(self.tail == (if old_self.tail + 1 < MAX_SAMPLES { old_self.tail + 1 } else { 0 }));
        assert forall|k: int| 0 <= k < self@.len() implies #[trigger] self@[k] == old_self@.drop_first()[k] by {
            assert(ring_index(self.tail as int, k) == ring_index(old_self.tail as int, k + 1));
        }
        assert(self@ =~= old_self@.drop_first());

        Some(sample)
    }

    /// Pushes a two-channel audio sample, making sure not to drop any samples when there is no
    /// space in the queue: a pair that does not fit whole is refused and nothing is stored.
    pub fn push_sample(&mut self, left: u8, right: u8) -> (accepted: bool)
        requires
            old(self).wf(),
        ensures
            final(self).wf(),
            (final(self)@, accepted) == push_sample_spec(old(self)@, left, right),
    {
        if self.length as usize + 2 > MAX_SAMPLES {
            return false;
        }
        self.push(left);
        self.push(right);
        true
    }
}

/// What `push_sample` does to the queued samples `q`: the pair goes in, left then right, when
/// both fit, and the result is true; otherwise nothing changes and the result is false.
pub open spec fn push_sample_spec(q: Seq<u8>, left: u8, right: u8) -> (Seq<u8>, bool) {
    if q.len() + 2 <= MAX_SAMPLES {
        (q.push(left).push(right), true)
    } else {
        (q, false)
    }
}

} // verus!
