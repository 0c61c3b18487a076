//! Destination bridge: ships each rendered block from the render thread to a
//! consumer on another thread.
//!
//! A channel of capacity one carries the blocks. Before each send the render
//! side takes out a block that was not consumed yet and hands over the new
//! one without blocking, so a slow consumer misses blocks instead of stalling
//! rendering. Several streams of one node race for the same slot: each block
//! is offered once.
use vstd::prelude::*;
use crossbeam_channel::{Receiver, Sender};
use crate::buffer::{AudioBuffer, SampleRate};
use crate::config::{ChannelConfig, ChannelConfigOptions};

verus! {

#[verifier::external_type_specification]
#[verifier::external_body]
#[verifier::reject_recursive_types(T)]
pub struct ExSender<T>(Sender<T>);

#[verifier::external_type_specification]
#[verifier::external_body]
#[verifier::reject_recursive_types(T)]
pub struct ExReceiver<T>(Receiver<T>);

/// The render side of a destination channel: its sending end and one
/// receiving end, through which the render thread clears the slot.
#[verifier::external_body]
pub struct Slot {
    send: Sender<AudioBuffer>,
    recv: Receiver<AudioBuffer>,
}

/// Every buffer offered to the slot's channel so far, with its rate tag.
pub uninterp spec fn slot_offered(s: Slot) -> Seq<(Seq<Seq<u32>>, SampleRate)>;

/// How many times the render thread has cleared the slot.
pub uninterp spec fn slot_drains(s: Slot) -> nat;

/// The receiving end that the slot holds.
pub uninterp spec fn slot_receiver(s: Slot) -> Receiver<AudioBuffer>;

/// The bound the receiver's channel was made with.
pub uninterp spec fn channel_capacity(r: Receiver<AudioBuffer>) -> nat;

/// Relies on crossbeam_channel::bounded: a new channel that holds at most
/// one item; nothing has been offered to it or cleared from it yet.
#[verifier::external_body]
fn slot_channel() -> (r: Slot)
    ensures
        slot_offered(r) == Seq::<(Seq<Seq<u32>>, SampleRate)>::empty(),
        slot_drains(r) == 0,
        channel_capacity(slot_receiver(r)) == 1,
{
    let (send, recv) = crossbeam_channel::bounded(1);
    Slot { send, recv }
}

/// The receiving end that the slot holds; a field read, no outside call.
#[verifier::external_body]
fn slot_receiver_ref(s: &Slot) -> (r: &Receiver<AudioBuffer>)
    ensures
        *r == slot_receiver(*s),
{
    &s.recv
}

/// Relies on Receiver::clone: another handle on the same channel.
#[verifier::external_body]
fn another_receiver(recv: &Receiver<AudioBuffer>) -> (r: Receiver<AudioBuffer>)
    ensures
        r == *recv,
{
    recv.clone()
}

/// Relies on Receiver::try_recv: takes the pending item out of the channel,
/// if there is one, without blocking.
#[verifier::external_body]
fn discard_pending(slot: &mut Slot)
    ensures
        slot_drains(*final(slot)) == slot_drains(*old(slot)) + 1,
        slot_offered(*final(slot)) == slot_offered(*old(slot)),
        slot_receiver(*final(slot)) == slot_receiver(*old(slot)),
{
    let _ = slot.recv.try_recv();
}

/// Relies on Sender::try_send: offers `buffer` to the channel without
/// blocking; `false` when the slot is full or every receiving end is gone.
#[verifier::external_body]
fn offer(slot: &mut Slot, buffer: AudioBuffer) -> (sent: bool)
    ensures
        slot_offered(*final(slot)) == slot_offered(*old(slot)).push((buffer@, buffer.rate())),
        slot_drains(*final(slot)) == slot_drains(*old(slot)),
        slot_receiver(*final(slot)) == slot_receiver(*old(slot)),
{
    slot.send.try_send(buffer).is_ok()
}

/// Relies on Receiver::recv: waits for the next item; `None` once the
/// channel is empty and its sending end is gone.
#[verifier::external_body]
fn receive(recv: &Receiver<AudioBuffer>) -> Option<AudioBuffer> {
    recv.recv().ok()
}

/// Why a stream item is not a buffer.
#[derive(Clone, Copy, Debug, PartialEq, Eq, Structural)]
pub enum StreamError {
    /// The render side of the channel is gone.
    Disconnected,
}

impl StreamError {
    /// A short description of the error.
    pub fn message(&self) -> (r: String)
        ensures
            r@ == "receiving on a closed channel"@,
    {
        match self {
            StreamError::Disconnected => String::from_str("receiving on a closed channel"),
        }
    }
}

/// The caller-facing end of an audio stream destination: a node with one
/// input and no output whose rendered input can be read as a stream.
pub struct MediaStreamAudioDestinationNode {
    channel_config: ChannelConfig,
    receiver: Receiver<AudioBuffer>,
}

/// The render-thread end of an audio stream destination.
pub struct DestinationRenderer {
    slot: Slot,
}

/// A stream of the buffers rendered into a destination node.
pub struct AudioDestinationNodeStream {
    receiver: Receiver<AudioBuffer>,
}

impl MediaStreamAudioDestinationNode {
    /// A new destination node and the renderer that feeds it.
    pub fn new(options: ChannelConfigOptions) -> (r: (MediaStreamAudioDestinationNode, DestinationRenderer))
        ensures
            r.0.config().count() == options.count,
            r.0.config().mode() == options.mode,
            r.0.config().interpretation() == options.interpretation,
            r.0.source() == r.1.source(),
            channel_capacity(r.0.source()) == 1,
            r.1.shipped() == Seq::<(Seq<Seq<u32>>, SampleRate)>::empty(),
            r.1.drains() == 0,
    {
        let slot = slot_channel();
        let receiver = another_receiver(slot_receiver_ref(&slot));
        let node = MediaStreamAudioDestinationNode { channel_config: ChannelConfig::from_options(options), receiver };
        let render = DestinationRenderer { slot };
        (node, render)
    }

    /// The channel the node's streams read from.
    pub closed spec fn source(&self) -> Receiver<AudioBuffer> {
        self.receiver
    }

    /// The channel settings of the node's input.
    pub closed spec fn config(&self) -> ChannelConfig {
        self.channel_config
    }

    /// The channel settings of the node's input.
    pub fn channel_config(&self) -> (r: &ChannelConfig)
        ensures
            *r == self.config(),
    {
        &self.channel_config
    }

    /// The node reads one input.
    pub fn number_of_inputs(&self) -> (r: usize)
        ensures
            r == 1,
    {
        1
    }

    /// The node feeds no other node.
    pub fn number_of_outputs(&self) -> (r: usize)
        ensures
            r == 0,
    {
        0
    }

    /// A stream of the rendered buffers. Streams taken from one node share one
    /// slot: polled concurrently, each buffer reaches only one of them.
    pub fn stream(&self) -> (r: AudioDestinationNodeStream)
        ensures
            r.source() == self.source(),
    {
        AudioDestinationNodeStream { receiver: another_receiver(&self.receiver) }
    }
}

impl DestinationRenderer {
    /// The buffers offered to the channel so far, with their rate tags.
    pub closed spec fn shipped(&self) -> Seq<(Seq<Seq<u32>>, SampleRate)> {
        slot_offered(self.slot)
    }

    /// How many times a pending buffer was taken out of the channel.
    pub closed spec fn drains(&self) -> nat {
        slot_drains(self.slot)
    }

    /// The channel the renderer feeds.
    pub closed spec fn source(&self) -> Receiver<AudioBuffer> {
        slot_receiver(self.slot)
    }

    /// Renders one block: the samples of the single input, tagged with
    /// `sample_rate`, replace whatever the consumer has not taken yet. The
    /// node has no output of its own, so it never asks to be kept alive.
    pub fn process(&mut self, inputs: &[AudioBuffer], sample_rate: SampleRate) -> (r: bool)
        requires
            inputs@.len() >= 1,
            inputs@[0].wf(),
        ensures
            r == false,
            final(self).drains() == old(self).drains() + 1,
            final(self).shipped() == old(self).shipped().push((inputs@[0]@, sample_rate)),
            final(self).source() == old(self).source(),
    {
        let input = &inputs[0];
        let buffer = input.copy_with_rate(sample_rate);
        discard_pending(&mut self.slot);
        let _ = offer(&mut self.slot, buffer);
        false
    }
}

impl AudioDestinationNodeStream {
    /// The channel the stream reads from.
    pub closed spec fn source(&self) -> Receiver<AudioBuffer> {
        self.receiver
    }

    /// Waits for the next rendered buffer. The stream never ends: once the
    /// render side is gone each item is `StreamError::Disconnected`.
    pub fn next(&mut self) -> (r: Option<Result<AudioBuffer, StreamError>>)
        ensures
            r is Some,
            r->0 is Err ==> r->0->Err_0 == StreamError::Disconnected,
    {
        match receive(&self.receiver) {
            Some(buf) => Some(Ok(buf)),
            None => Some(Err(StreamError::Disconnected)),
        }
    }
}

} // verus!
