//! Multi-channel sample buffers.
//!
//! A sample is held as the bit pattern of an IEEE-754 single-precision value
//! (`f32::to_bits`), so buffers move, join and split samples exactly; the bit
//! pattern `0` is silence (`+0.0`).
use vstd::prelude::*;

verus! {

/// Sample rate in frames per second.
#[derive(Clone, Copy, Debug, PartialEq, Eq, Structural)]
pub struct SampleRate(pub u32);

/// The samples of one channel.
pub struct ChannelData {
    pub(crate) data: Vec<u32>,
}

impl View for ChannelData {
    type V = Seq<u32>;

    closed spec fn view(&self) -> Seq<u32> {
        self.data@
    }
}

impl ChannelData {
    /// Wraps the given samples.
    pub fn new(data: Vec<u32>) -> (r: ChannelData)
        ensures
            r@ == data@,
    {
        ChannelData { data }
    }

    /// Number of samples.
    pub fn len(&self) -> (r: usize)
        ensures
            r == self@.len(),
    {
        self.data.len()
    }

    /// The samples, in order.
    pub fn as_slice(&self) -> (r: &[u32])
        ensures
            r@ == self@,
    {
        self.data.as_slice()
    }
}

/// What a silent buffer is made of.
pub struct AudioBufferOptions {
    pub number_of_channels: usize,
    pub length: usize,
    pub sample_rate: SampleRate,
}

/// A sample buffer: channels of equal length, tagged with a sample rate.
pub struct AudioBuffer {
    channels: Vec<ChannelData>,
    length: usize,
    sample_rate: SampleRate,
}

/// A channel of `n` silent samples.
pub open spec fn silence(n: nat) -> Seq<u32> {
    Seq::new(n, |j: int| 0u32)
}

impl View for AudioBuffer {
    type V = Seq<Seq<u32>>;

    /// The samples, channel by channel.
    closed spec fn view(&self) -> Seq<Seq<u32>> {
        self.channels@.map_values(|c: ChannelData| c@)
    }
}

impl AudioBuffer {
    /// Number of frames.
    pub closed spec fn frames(&self) -> nat {
        self.length as nat
    }

    /// The sample-rate tag.
    pub closed spec fn rate(&self) -> SampleRate {
        self.sample_rate
    }

    /// Every channel holds exactly `frames()` samples.
    pub open spec fn wf(&self) -> bool {
        forall|i: int| 0 <= i < self@.len() ==> (#[trigger] self@[i]).len() == self.frames()
    }

    /// A silent buffer with the given shape.
    pub fn new(options: AudioBufferOptions) -> (r: AudioBuffer)
        ensures
            r.wf(),
            r@ == Seq::new(options.number_of_channels as nat, |i: int| silence(options.length as nat)),
            r.frames() == options.length,
            r.rate() == options.sample_rate,
    {
        let mut channels: Vec<ChannelData> = Vec::new();
        let mut i: usize = 0;
        while i < options.number_of_channels
            invariant
                i <= options.number_of_channels,
                channels@.len() == i,
                forall|k: int| 0 <= k < i ==> (#[trigger] channels@[k])@ == silence(options.length as nat),
            decreases options.number_of_channels - i,
        {
            let mut data: Vec<u32> = Vec::new();
            let mut j: usize = 0;
            while j < options.length
                invariant
                    j <= options.length,
                    data@ == silence(j as nat),
                decreases options.length - j,
            {
                data.push(0u32);
                j = j + 1;
                assert(data@ =~= silence(j as nat));
            }
            channels.push(ChannelData { data });
            i = i + 1;
        }
        let r = AudioBuffer { channels, length: options.length, sample_rate: options.sample_rate };
        assert(r@ =~= Seq::new(options.number_of_channels as nat, |i: int| silence(options.length as nat)));
        r
    }

    /// Builds a buffer from channels that all hold the same number of samples.
    pub fn from_channels(channels: Vec<ChannelData>, sample_rate: SampleRate) -> (r: AudioBuffer)
        requires
            forall|i: int| 0 <= i < channels@.len() ==> (#[trigger] channels@[i])@.len() == channels@[0]@.len(),
        ensures
            r.wf(),
            r@ == channels@.map_values(|c: ChannelData| c@),
            r.frames() == (if channels@.len() == 0 { 0 } else { channels@[0]@.len() }),
            r.rate() == sample_rate,
    {
        let length: usize = if channels.len() == 0 { 0 } else { channels[0].len() };
        AudioBuffer { channels, length, sample_rate }
    }

    /// Number of frames.
    pub fn length(&self) -> (r: usize)
        ensures
            r == self.frames(),
    {
        self.length
    }

    /// Number of channels.
    pub fn number_of_channels(&self) -> (r: usize)
        ensures
            r == self@.len(),
    {
        self.channels.len()
    }

    /// The sample-rate tag.
    pub fn sample_rate(&self) -> (r: SampleRate)
        ensures
            r == self.rate(),
    {
        self.sample_rate
    }

    /// The samples of channel `index`.
    pub fn channel_data(&self, index: usize) -> (r: &ChannelData)
        requires
            index < self@.len(),
        ensures
            r@ == self@[index as int],
    {
        &self.channels[index]
    }

    /// Appends the frames of `other` after those of `self`, channel by channel.
    pub fn extend(&mut self, other: &AudioBuffer)
        requires
            old(self).wf(),
            other.wf(),
            old(self)@.len() == other@.len(),
            old(self).frames() + other.frames() <= usize::MAX,
        ensures
            final(self).wf(),
            final(self)@.len() == old(self)@.len(),
            forall|i: int| 0 <= i < old(self)@.len() ==> (#[trigger] final(self)@[i]) == old(self)@[i] + other@[i],
            final(self).frames() == old(self).frames() + other.frames(),
            final(self).rate() == old(self).rate(),
    {
        let ghost before = self@;
        let n = self.channels.len();
        let mut joined: Vec<ChannelData> = Vec::new();
        let mut i: usize = 0;
        while i < n
            invariant
                i <= n,
                n == before.len(),
                n == other@.len(),
                other.wf(),
                self.length == old(self).length,
                self.sample_rate == old(self).sample_rate,
                self.channels@.len() == n - i,
                forall|k: int| 0 <= k < n - i ==> (#[trigger] self.channels@[k])@ == before[k + i],
                joined@.len() == i,
                forall|k: int| 0 <= k < i ==> (#[trigger] joined@[k])@ == before[k] + other@[k],
            decreases n - i,
        {
            let mut c = self.channels.remove(0);
            let mut tail = other.channels[i].data.clone();
            assert(tail@ =~= other@[i as int]);
            c.data.append(&mut tail);
            joined.push(c);
            i = i + 1;
        }
        self.channels = joined;
        self.length = self.length + other.length;
        assert(self@ =~= Seq::new(n as nat, |k: int| before[k] + other@[k]));
    }

    /// Splits the buffer at frame `at`: `self` keeps the frames before it and
    /// the frames from `at` on are returned.
    pub fn split_off(&mut self, at: usize) -> (r: AudioBuffer)
        requires
            old(self).wf(),
            at <= old(self).frames(),
        ensures
            final(self).wf(),
            r.wf(),
            final(self)@.len() == old(self)@.len(),
            r@.len() == old(self)@.len(),
            forall|i: int| 0 <= i < old(self)@.len() ==> (#[trigger] final(self)@[i]) == old(self)@[i].take(at as int),
            forall|i: int| 0 <= i < old(self)@.len() ==> (#[trigger] r@[i]) == old(self)@[i].skip(at as int),
            final(self).frames() == at,
            r.frames() == old(self).frames() - at,
            final(self).rate() == old(self).rate(),
            r.rate() == old(self).rate(),
    {
        let ghost before = self@;
        let n = self.channels.len();
        let mut front: Vec<ChannelData> = Vec::new();
        let mut back: Vec<ChannelData> = Vec::new();
        let mut i: usize = 0;
        while i < n
            invariant
                i <= n,
                n == before.len(),
                at <= self.length,
                self.length == old(self).length,
                self.sample_rate == old(self).sample_rate,
                forall|k: int| 0 <= k < n ==> (#[trigger] before[k]).len() == self.length,
                self.channels@.len() == n - i,
                forall|k: int| 0 <= k < n - i ==> (#[trigger] self.channels@[k])@ == before[k + i],
                front@.len() == i,
                back@.len() == i,
                forall|k: int| 0 <= k < i ==> (#[trigger] front@[k])@ == before[k].take(at as int),
                forall|k: int| 0 <= k < i ==> (#[trigger] back@[k])@ == before[k].skip(at as int),
            decreases n - i,
        {
            let mut c = self.channels.remove(0);
            let tail = c.data.split_off(at);
            assert(tail@ =~= before[i as int].skip(at as int));
            back.push(ChannelData { data: tail });
            front.push(c);
            i = i + 1;
        }
        let rest = self.length - at;
        self.channels = front;
        self.length = at;
        let r = AudioBuffer { channels: back, length: rest, sample_rate: self.sample_rate };
        assert(self@ =~= Seq::new(n as nat, |k: int| before[k].take(at as int)));
        assert(r@ =~= Seq::new(n as nat, |k: int| before[k].skip(at as int)));
        r
    }

    /// A copy of the samples, tagged with `sample_rate`.
    pub fn copy_with_rate(&self, sample_rate: SampleRate) -> (r: AudioBuffer)
        requires
            self.wf(),
        ensures
            r.wf(),
            r@ == self@,
            r.frames() == self.frames(),
            r.rate() == sample_rate,
    {
        let n = self.channels.len();
        let mut channels: Vec<ChannelData> = Vec::new();
        let mut i: usize = 0;
        while i < n
            invariant
                i <= n,
                n == self@.len(),
                channels@.len() == i,
                forall|k: int| 0 <= k < i ==> (#[trigger] channels@[k])@ == self@[k],
            decreases n - i,
        {
            let data = self.channels[i].data.clone();
            assert(data@ =~= self@[i as int]);
            channels.push(ChannelData { data });
            i = i + 1;
        }
        let r = AudioBuffer { channels, length: self.length, sample_rate };
        assert(r@ =~= self@);
        r
    }

    /// Whether every channel holds exactly `length()` samples.
    pub fn is_consistent(&self) -> (r: bool)
        ensures
            r == self.wf(),
    {
        let mut i: usize = 0;
        while i < self.channels.len()
            invariant
                i <= self@.len(),
                forall|k: int| 0 <= k < i ==> (#[trigger] self@[k]).len() == self.frames(),
            decreases self@.len() - i,
        {
            if self.channels[i].len() != self.length {
                assert(self@[i as int].len() != self.frames());
                return false;
            }
            i = i + 1;
        }
        true
    }
}

} // verus!
