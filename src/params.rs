//! Read-only access to the resolved parameter values of one block, given to
//! processing units on the render thread.
use vstd::prelude::*;
use intmap::IntMap;
use crate::buffer::AudioBuffer;

verus! {

#[verifier::external_type_specification]
#[verifier::external_body]
#[verifier::reject_recursive_types(V)]
pub struct ExIntMap<V>(IntMap<V>);

/// The nodes that a node registry holds, by index.
pub uninterp spec fn registry_nodes(m: IntMap<Node>) -> Map<u64, Node>;

/// Relies on IntMap::get: the node stored under `key`, if there is one.
#[verifier::external_body]
fn registry_get(nodes: &IntMap<Node>, key: u64) -> (r: Option<&Node>)
    ensures
        r is Some <==> registry_nodes(*nodes).contains_key(key),
        r is Some ==> *r->0 == registry_nodes(*nodes)[key],
{
    nodes.get(key)
}

/// Index of a node in the registry.
#[derive(Clone, Copy, Debug, PartialEq, Eq, Structural)]
pub struct NodeIndex(pub u64);

/// Handle of an automation parameter; a parameter is a node of the registry
/// whose output buffer holds its resolved values.
#[derive(Clone, Copy, Debug, PartialEq, Eq, Structural)]
pub struct AudioParamId(pub u64);

impl AudioParamId {
    /// The registry index of the parameter's node.
    pub fn node_index(&self) -> (r: NodeIndex)
        ensures
            r.0 == self.0,
    {
        NodeIndex(self.0)
    }
}

/// Number of frames in one block.
pub const BUFFER_SIZE: usize = 128;

/// A registry entry: a node and the output it rendered in the current block.
pub struct Node {
    buffer: AudioBuffer,
}

impl Node {
    /// The output of a node is exactly one block long.
    #[verifier::type_invariant]
    spec fn block_sized(&self) -> bool {
        &&& self.buffer.wf()
        &&& self.buffer.frames() == BUFFER_SIZE
    }

    /// The rendered output of the node.
    pub closed spec fn output(&self) -> AudioBuffer {
        self.buffer
    }

    /// A node whose current output is `buffer`.
    pub fn new(buffer: AudioBuffer) -> (r: Node)
        requires
            buffer.wf(),
            buffer.frames() == BUFFER_SIZE,
        ensures
            r.output() == buffer,
    {
        Node { buffer }
    }

    /// The rendered output of the node.
    pub fn get_buffer(&self) -> (r: &AudioBuffer)
        ensures
            *r == self.output(),
            r.wf(),
            r.frames() == BUFFER_SIZE,
    {
        proof {
            use_type_invariant(self);
        }
        &self.buffer
    }
}

/// Accessor for the current values of automation parameters.
pub struct AudioParamValues<'a> {
    nodes: &'a IntMap<Node>,
}

impl<'a> AudioParamValues<'a> {
    /// The registry the values are read from.
    pub closed spec fn nodes(&self) -> Map<u64, Node> {
        registry_nodes(*self.nodes)
    }

    /// A view over the nodes of `nodes`.
    pub fn from(nodes: &'a IntMap<Node>) -> (r: AudioParamValues<'a>)
        ensures
            r.nodes() == registry_nodes(*nodes),
    {
        AudioParamValues { nodes }
    }

    /// The whole output buffer of the parameter's node.
    pub fn get_raw(&self, index: &AudioParamId) -> (r: &AudioBuffer)
        requires
            self.nodes().contains_key(index.0),
        ensures
            *r == self.nodes()[index.0].output(),
            r.wf(),
            r.frames() == BUFFER_SIZE,
    {
        let index = index.node_index();
        registry_get(self.nodes, index.0).unwrap().get_buffer()
    }

    /// The values of the parameter for the current block, one per frame. A
    /// parameter resolved once per block holds its value repeated.
    pub fn get(&self, index: &AudioParamId) -> (r: &[u32])
        requires
            self.nodes().contains_key(index.0),
            self.nodes()[index.0].output()@.len() >= 1,
        ensures
            r@ == self.nodes()[index.0].output()@[0],
            r@.len() == BUFFER_SIZE,
    {
        self.get_raw(index).channel_data(0).as_slice()
    }

    /// The values of the parameter for the current block, or `None` when the
    /// registry holds no such node or its output has no channel.
    pub fn try_get(&self, index: &AudioParamId) -> (r: Option<&[u32]>)
        ensures
            r is Some <==> (self.nodes().contains_key(index.0) && self.nodes()[index.0].output()@.len() >= 1),
            r is Some ==> r->0@ == self.nodes()[index.0].output()@[0],
            r is Some ==> r->0@.len() == BUFFER_SIZE,
    {
        match registry_get(self.nodes, index.0) {
            Some(node) => {
                let buffer = node.get_buffer();
                if buffer.number_of_channels() >= 1 {
                    Some(buffer.channel_data(0).as_slice())
                } else {
                    None
                }
            },
            None => None,
        }
    }
}

} // verus!
