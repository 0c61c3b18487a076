//! Block resampler: turns an irregular stream of buffers into buffers of one
//! fixed length at one sample rate.
//!
//! The resampler holds the decisions only. Whoever drives it asks `poll`
//! first; on `Step::NeedInput` it pulls one item from its source, converts
//! a buffer at another rate to the target rate, and hands the item to `feed`.
use vstd::prelude::*;
use crate::buffer::{AudioBuffer, AudioBufferOptions, SampleRate, silence};

verus! {

/// One item pulled from the input source.
pub enum Pulled {
    /// A buffer, already at the target sample rate.
    Data(AudioBuffer),
    /// The source has no more items.
    Exhausted,
    /// The source reported an error; its payload stays with the caller.
    Failed,
}

/// What the resampler asks of its driver.
pub enum Step {
    /// A buffer of exactly the target length is ready.
    Emit(AudioBuffer),
    /// Pull one more item and `feed` it.
    NeedInput,
    /// The output has ended.
    Done,
    /// The input failed; the output has ended.
    Failed,
    /// The fed buffer had another sample rate or channel count than the
    /// stream, or the frames held would not fit in memory; the output has ended.
    Rejected,
}

enum Phase {
    Open,
    Ended,
    Broken,
}

/// Sample rate converter and buffer chunk splitter.
pub struct Resampler {
    /// desired sample rate
    sample_rate: SampleRate,
    /// desired sample length
    sample_len: usize,
    /// frames fed but not yet emitted
    buffer: Option<AudioBuffer>,
    /// channel count of the stream, fixed by its first buffer
    channels: Option<usize>,
    phase: Phase,
    /// every sample accepted, channel by channel
    consumed: Ghost<Seq<Seq<u32>>>,
    /// every sample emitted, channel by channel, without zero padding
    emitted: Ghost<Seq<Seq<u32>>>,
}

/// Channel by channel, `b` appended to `a`; a channel missing from `a` counts as empty.
pub open spec fn join(a: Seq<Seq<u32>>, b: Seq<Seq<u32>>) -> Seq<Seq<u32>> {
    Seq::new(b.len(), |c: int| if c < a.len() { a[c] + b[c] } else { b[c] })
}

/// `n` empty channels.
pub open spec fn empties(n: nat) -> Seq<Seq<u32>> {
    Seq::new(n, |c: int| Seq::<u32>::empty())
}

/// The first `n` frames of each channel.
pub open spec fn take_each(a: Seq<Seq<u32>>, n: nat) -> Seq<Seq<u32>> {
    Seq::new(a.len(), |c: int| a[c].take(n as int))
}

/// Each channel without its first `n` frames.
pub open spec fn skip_each(a: Seq<Seq<u32>>, n: nat) -> Seq<Seq<u32>> {
    Seq::new(a.len(), |c: int| a[c].skip(n as int))
}

/// Each channel followed by `n` silent samples.
pub open spec fn pad_each(a: Seq<Seq<u32>>, n: nat) -> Seq<Seq<u32>> {
    Seq::new(a.len(), |c: int| a[c] + silence(n))
}

impl Resampler {
    /// The length of every emitted buffer.
    pub closed spec fn target_len(&self) -> nat {
        self.sample_len as nat
    }

    /// The sample rate of every emitted buffer.
    pub closed spec fn target_rate(&self) -> SampleRate {
        self.sample_rate
    }

    /// Channel count of the stream, once its first buffer has been fed.
    pub closed spec fn stream_channels(&self) -> Option<usize> {
        self.channels
    }

    /// Frames fed and not yet emitted, channel by channel.
    pub closed spec fn held(&self) -> Seq<Seq<u32>> {
        match self.buffer {
            Some(b) => b@,
            None => match self.channels {
                Some(n) => empties(n as nat),
                None => Seq::empty(),
            },
        }
    }

    /// Number of frames held.
    pub closed spec fn held_frames(&self) -> nat {
        match self.buffer {
            Some(b) => b.frames(),
            None => 0,
        }
    }

    /// Frames are held, possibly none.
    pub closed spec fn holds(&self) -> bool {
        self.buffer is Some
    }

    /// A block of the target length can be emitted from what is held.
    pub open spec fn has_block(&self) -> bool {
        self.holds() && self.held_frames() >= self.target_len()
    }

    /// `d` fits the stream: same rate and channel count, and the frames held fit in memory.
    pub open spec fn accepts(&self, d: &AudioBuffer) -> bool {
        &&& d.rate() == self.target_rate()
        &&& (self.stream_channels() is Some ==> self.stream_channels()->0 == d@.len())
        &&& self.held_frames() + d.frames() <= usize::MAX
    }

    /// Output may still come.
    pub closed spec fn is_open(&self) -> bool {
        self.phase is Open
    }

    /// The output ended after a failed or rejected input.
    pub closed spec fn is_broken(&self) -> bool {
        self.phase is Broken
    }

    /// Every sample accepted so far, channel by channel.
    pub closed spec fn consumed(&self) -> Seq<Seq<u32>> {
        self.consumed@
    }

    /// Every sample emitted so far, channel by channel, zero padding left out.
    pub closed spec fn emitted(&self) -> Seq<Seq<u32>> {
        self.emitted@
    }

    pub closed spec fn wf(&self) -> bool {
        &&& match self.buffer {
            Some(b) => {
                &&& b.wf()
                &&& b.rate() == self.sample_rate
                &&& self.channels is Some
                &&& self.channels->0 == b@.len()
                &&& self.phase is Open
            },
            None => true,
        }
        &&& self.channels is None ==> {
            &&& self.consumed@ == Seq::<Seq<u32>>::empty()
            &&& self.emitted@ == Seq::<Seq<u32>>::empty()
        }
        &&& self.channels is Some && !(self.phase is Broken) ==> {
            &&& self.consumed@.len() == self.channels->0
            &&& self.emitted@.len() == self.channels->0
            &&& forall|c: int| 0 <= c < self.channels->0 ==>
                (#[trigger] self.consumed@[c]) == self.emitted@[c] + self.held()[c]
        }
    }

    /// A resampler that emits buffers of `sample_len` frames at `sample_rate`.
    pub fn new(sample_rate: SampleRate, sample_len: usize) -> (r: Resampler)
        ensures
            r.wf(),
            r.is_open(),
            r.target_rate() == sample_rate,
            r.target_len() == sample_len,
            !r.is_broken(),
            r.stream_channels() is None,
            !r.holds(),
            r.held() == Seq::<Seq<u32>>::empty(),
            r.held_frames() == 0,
            r.consumed() == Seq::<Seq<u32>>::empty(),
            r.emitted() == Seq::<Seq<u32>>::empty(),
    {
        Resampler {
            sample_rate,
            sample_len,
            buffer: None,
            channels: None,
            phase: Phase::Open,
            consumed: Ghost(Seq::empty()),
            emitted: Ghost(Seq::empty()),
        }
    }

    /// Emits the first `sample_len` held frames and keeps the rest.
    fn take_block(&mut self) -> (r: Step)
        requires
            old(self).wf(),
            old(self).is_open(),
            old(self).buffer is Some,
            old(self).held_frames() >= old(self).target_len(),
        ensures
            final(self).wf(),
            final(self).is_open(),
            final(self).sample_rate == old(self).sample_rate,
            final(self).sample_len == old(self).sample_len,
            final(self).channels == old(self).channels,
            final(self).consumed() == old(self).consumed(),
            final(self).emitted() == join(old(self).emitted(), take_each(old(self).held(), old(self).target_len())),
            final(self).held() == skip_each(old(self).held(), old(self).target_len()),
            final(self).holds() <==> old(self).held_frames() > old(self).target_len(),
            final(self).held_frames() == old(self).held_frames() - old(self).target_len(),
            r is Emit,
            r->Emit_0.wf(),
            r->Emit_0@ == take_each(old(self).held(), old(self).target_len()),
            r->Emit_0.frames() == old(self).target_len(),
            r->Emit_0.rate() == old(self).target_rate(),
    {
        let ghost before = self.held();
        let ghost n = before.len();
        let ghost len = self.sample_len as nat;
        let mut b = self.buffer.take().unwrap();
        if b.length() == self.sample_len {
            assert(take_each(before, len) =~= before) by {
                assert forall|c: int| 0 <= c < n implies #[trigger] before[c].take(len as int) == before[c] by {
                    assert(before[c].take(len as int) =~= before[c]);
                }
            }
            proof {
                self.emitted = Ghost(join(self.emitted@, take_each(before, len)));
            }
            assert(self.held() =~= skip_each(before, len)) by {
                assert forall|c: int| 0 <= c < n implies #[trigger] before[c].skip(len as int) == Seq::<u32>::empty() by {
                    assert(before[c].skip(len as int) =~= Seq::<u32>::empty());
                }
            }
            assert forall|c: int| 0 <= c < n implies (#[trigger] self.consumed@[c]) == self.emitted@[c] + self.held()[c] by {
                assert(self.emitted@[c] + self.held()[c] =~= self.emitted@[c]);
            }
            Step::Emit(b)
        } else {
            let rest = b.split_off(self.sample_len);
            assert(b@ =~= take_each(before, len));
            assert(rest@ =~= skip_each(before, len));
            self.buffer = Some(rest);
            proof {
                self.emitted = Ghost(join(self.emitted@, take_each(before, len)));
            }
            assert forall|c: int| 0 <= c < n implies (#[trigger] self.consumed@[c]) == self.emitted@[c] + self.held()[c] by {
                assert(before[c] =~= before[c].take(len as int) + before[c].skip(len as int));
                assert(self.emitted@[c] + self.held()[c] =~= old(self).emitted@[c] + before[c]);
            }
            Step::Emit(b)
        }
    }

    /// Emits a block if one is held; otherwise asks for input, or reports that the output has ended.
    pub fn poll(&mut self) -> (r: Step)
        requires
            old(self).wf(),
        ensures
            final(self).wf(),
            final(self).target_len() == old(self).target_len(),
            final(self).target_rate() == old(self).target_rate(),
            final(self).stream_channels() == old(self).stream_channels(),
            final(self).consumed() == old(self).consumed(),
            !old(self).is_open() ==> r is Done && *final(self) == *old(self),
            old(self).is_open() && !old(self).has_block() ==> r is NeedInput && *final(self) == *old(self),
            old(self).is_open() && old(self).has_block() ==> {
                &&& r is Emit
                &&& r->Emit_0.wf()
                &&& r->Emit_0@ == take_each(old(self).held(), old(self).target_len())
                &&& r->Emit_0.frames() == old(self).target_len()
                &&& r->Emit_0.rate() == old(self).target_rate()
                &&& final(self).is_open()
                &&& final(self).held() == skip_each(old(self).held(), old(self).target_len())
                &&& (final(self).holds() <==> old(self).held_frames() > old(self).target_len())
                &&& final(self).held_frames() == old(self).held_frames() - old(self).target_len()
                &&& final(self).emitted() == join(old(self).emitted(), take_each(old(self).held(), old(self).target_len()))
            },
    {
        if !matches!(self.phase, Phase::Open) {
            return Step::Done;
        }
        let ready = match &self.buffer {
            Some(b) => b.length() >= self.sample_len,
            None => false,
        };
        if ready {
            self.take_block()
        } else {
            Step::NeedInput
        }
    }

    /// Takes one pulled item and answers with the next step.
    pub fn feed(&mut self, pulled: Pulled) -> (r: Step)
        requires
            old(self).wf(),
            pulled is Data ==> pulled->Data_0.wf(),
        ensures
            final(self).wf(),
            final(self).target_len() == old(self).target_len(),
            final(self).target_rate() == old(self).target_rate(),
            !old(self).is_open() ==> r is Done && *final(self) == *old(self),
            old(self).is_open() && pulled is Failed ==> r is Failed && final(self).is_broken() && !final(self).holds(),
            old(self).is_open() && pulled is Data && !old(self).accepts(&pulled->Data_0) ==> {
                &&& r is Rejected
                &&& final(self).is_broken()
                &&& !final(self).holds()
            },
            old(self).is_open() && pulled is Data && old(self).accepts(&pulled->Data_0) ==> {
                let d = pulled->Data_0;
                let joined = join(old(self).held(), d@);
                let len = old(self).target_len();
                &&& final(self).is_open()
                &&& final(self).stream_channels() == Some(d@.len() as usize)
                &&& final(self).consumed() == join(old(self).consumed(), d@)
                &&& if old(self).held_frames() + d.frames() >= len {
                    &&& r is Emit
                    &&& r->Emit_0.wf()
                    &&& r->Emit_0@ == take_each(joined, len)
                    &&& r->Emit_0.frames() == len
                    &&& r->Emit_0.rate() == old(self).target_rate()
                    &&& final(self).held() == skip_each(joined, len)
                    &&& (final(self).holds() <==> old(self).held_frames() + d.frames() > len)
                    &&& final(self).held_frames() == old(self).held_frames() + d.frames() - len
                    &&& final(self).emitted() == join(old(self).emitted(), take_each(joined, len))
                } else {
                    &&& r is NeedInput
                    &&& final(self).holds()
                    &&& final(self).held() == joined
                    &&& final(self).held_frames() == old(self).held_frames() + d.frames()
                    &&& final(self).emitted() == join(old(self).emitted(), empties(d@.len()))
                }
            },
            old(self).is_open() && pulled is Exhausted && old(self).has_block() ==> {
                &&& r is Emit
                &&& r->Emit_0.wf()
                &&& r->Emit_0@ == take_each(old(self).held(), old(self).target_len())
                &&& r->Emit_0.frames() == old(self).target_len()
                &&& r->Emit_0.rate() == old(self).target_rate()
                &&& final(self).is_open()
                &&& final(self).held() == skip_each(old(self).held(), old(self).target_len())
                &&& (final(self).holds() <==> old(self).held_frames() > old(self).target_len())
                &&& final(self).held_frames() == old(self).held_frames() - old(self).target_len()
                &&& final(self).consumed() == old(self).consumed()
                &&& final(self).emitted() == join(old(self).emitted(), take_each(old(self).held(), old(self).target_len()))
            },
            old(self).is_open() && pulled is Exhausted && old(self).held_frames() > 0 && !old(self).has_block() ==> {
                &&& r is Emit
                &&& r->Emit_0.wf()
                &&& r->Emit_0@ == pad_each(old(self).held(), (old(self).target_len() - old(self).held_frames()) as nat)
                &&& r->Emit_0.frames() == old(self).target_len()
                &&& r->Emit_0.rate() == old(self).target_rate()
                &&& !final(self).is_open()
                &&& !final(self).is_broken()
                &&& !final(self).holds()
                &&& final(self).consumed() == old(self).consumed()
                &&& final(self).emitted() == join(old(self).emitted(), old(self).held())
            },
            old(self).is_open() && pulled is Exhausted && old(self).held_frames() == 0 && !old(self).has_block() ==> {
                &&& r is Done
                &&& !final(self).is_open()
                &&& !final(self).is_broken()
                &&& final(self).consumed() == old(self).consumed()
                &&& final(self).emitted() == old(self).emitted()
            },
    {
        if !matches!(self.phase, Phase::Open) {
            return Step::Done;
        }
        match pulled {
            Pulled::Failed => {
                self.buffer = None;
                self.phase = Phase::Broken;
                Step::Failed
            },
            Pulled::Data(d) => {
                let held_len: usize = match &self.buffer {
                    Some(b) => b.length(),
                    None => 0,
                };
                let fits_channels = match self.channels {
                    Some(n) => n == d.number_of_channels(),
                    None => true,
                };
                if d.sample_rate() != self.sample_rate || !fits_channels || d.length() > usize::MAX - held_len {
                    self.buffer = None;
                    self.phase = Phase::Broken;
                    return Step::Rejected;
                }
                let ghost before = self.held();
                let ghost n = d@.len();
                let total = held_len + d.length();
                let nch = d.number_of_channels();
                match self.buffer.take() {
                    None => {
                        assert(join(before, d@) =~= d@) by {
                            assert forall|c: int| 0 <= c < n && c < before.len() implies #[trigger] before[c] + d@[c] == d@[c] by {
                                assert(before[c] + d@[c] =~= d@[c]);
                            }
                        }
                        self.buffer = Some(d);
                    },
                    Some(mut b) => {
                        b.extend(&d);
                        assert(b@ =~= join(before, d@));
                        self.buffer = Some(b);
                    },
                }
                self.channels = Some(nch);
                proof {
                    let old_consumed = self.consumed@;
                    self.consumed = Ghost(join(old_consumed, d@));
                    if old(self).channels is None {
                        assert(self.emitted@.len() == 0);
                        self.emitted = Ghost(empties(n));
                        assert forall|c: int| 0 <= c < n implies (#[trigger] self.consumed@[c]) == self.emitted@[c] + self.held()[c] by {
                            assert(self.emitted@[c] + self.held()[c] =~= self.held()[c]);
                        }
                    } else {
                        assert forall|c: int| 0 <= c < n implies (#[trigger] self.consumed@[c]) == self.emitted@[c] + self.held()[c] by {
                            assert(old_consumed[c] == old(self).emitted@[c] + before[c]);
                            assert(self.emitted@[c] + self.held()[c] =~= old(self).emitted@[c] + (before[c] + d@[c]));
                        }
                    }
                }
                assert(self.held() == join(before, d@));
                if total >= self.sample_len {
                    let ghost mid = self.emitted@;
                    let r = self.take_block();
                    proof {
                        if old(self).channels is None {
                            let t = take_each(join(before, d@), self.sample_len as nat);
                            assert forall|c: int| 0 <= c < n implies #[trigger] join(mid, t)[c] == join(old(self).emitted@, t)[c] by {
                                assert(Seq::<u32>::empty() + t[c] =~= t[c]);
                            }
                            assert(join(mid, take_each(join(before, d@), self.sample_len as nat)) =~= join(old(self).emitted@, take_each(join(before, d@), self.sample_len as nat)));
                            self.emitted = Ghost(join(old(self).emitted@, take_each(join(before, d@), self.sample_len as nat)));
                        } else {
                            assert(mid == old(self).emitted@);
                        }
                    }
                    r
                } else {
                    proof {
                        if old(self).channels is None {
                            assert(self.emitted@ =~= join(old(self).emitted@, empties(n)));
                        } else {
                            assert forall|c: int| 0 <= c < n implies #[trigger] join(old(self).emitted@, empties(n))[c] == self.emitted@[c] by {
                                assert(old(self).emitted@[c] + Seq::<u32>::empty() =~= old(self).emitted@[c]);
                            }
                            assert(self.emitted@ =~= join(old(self).emitted@, empties(n)));
                        }
                    }
                    Step::NeedInput
                }
            },
            Pulled::Exhausted => {
                let (holding, ready) = match &self.buffer {
                    Some(b) => (b.length() > 0, b.length() >= self.sample_len),
                    None => (false, false),
                };
                if ready {
                    self.take_block()
                } else if holding {
                    let ghost before = self.held();
                    let mut b = self.buffer.take().unwrap();
                    let ghost hf = b.frames();
                    let pad = AudioBuffer::new(AudioBufferOptions {
                        number_of_channels: b.number_of_channels(),
                        length: self.sample_len - b.length(),
                        sample_rate: self.sample_rate,
                    });
                    b.extend(&pad);
                    assert(b@ =~= pad_each(before, (self.sample_len - hf) as nat));
                    proof {
                        self.emitted = Ghost(join(self.emitted@, before));
                        assert forall|c: int| 0 <= c < before.len() implies (#[trigger] self.consumed@[c]) == self.emitted@[c] + self.held()[c] by {
                            assert(self.emitted@[c] + self.held()[c] =~= self.emitted@[c]);
                        }
                    }
                    self.phase = Phase::Ended;
                    Step::Emit(b)
                } else {
                    proof {
                        if self.channels is Some {
                            let n = self.channels->0;
                            assert forall|c: int| 0 <= c < n implies (#[trigger] self.consumed@[c]) == self.emitted@[c] + empties(n as nat)[c] by {
                                assert(self.held()[c].len() == 0);
                                assert(self.held()[c] =~= empties(n as nat)[c]);
                            }
                        }
                    }
                    self.buffer = None;
                    self.phase = Phase::Ended;
                    Step::Done
                }
            },
        }
    }
}

/// Samples are neither lost, reordered nor invented: unless an input failed
/// or was rejected, the samples emitted so far (zero padding left out)
/// followed by those still held are, channel by channel, exactly the samples
/// accepted so far.
pub proof fn lemma_samples_conserved(r: &Resampler)
    requires
        r.wf(),
        !r.is_broken(),
    ensures
        r.emitted().len() == r.consumed().len(),
        r.held().len() == r.consumed().len(),
        forall|c: int| 0 <= c < r.consumed().len() ==> (#[trigger] r.consumed()[c]) == r.emitted()[c] + r.held()[c],
{
}

/// A whole run: once the output has ended without a failed or rejected
/// input, nothing is held back, and the samples emitted over the run (zero
/// padding left out) are, channel by channel, exactly the samples accepted.
pub proof fn lemma_ended_run_emits_everything(r: &Resampler)
    requires
        r.wf(),
        !r.is_open(),
        !r.is_broken(),
    ensures
        !r.holds(),
        r.held_frames() == 0,
        r.emitted() == r.consumed(),
{
    if r.channels is Some {
        assert forall|c: int| 0 <= c < r.consumed().len() implies #[trigger] r.emitted()[c] == r.consumed()[c] by {
            assert(r.emitted()[c] + r.held()[c] =~= r.emitted()[c]);
        }
        assert(r.emitted() =~= r.consumed());
    }
}

} // verus!
