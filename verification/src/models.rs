//! Data model of the audio-routing topology: nodes, their ports, and the
//! links between ports, together with the device records that the serving
//! layer hands out.
//!
//! Volume levels are carried as integers counting thousandths of full
//! volume (1000 = 100%), so that the model stays exact.
//!
//! Each executable type has a mathematical view (`PortV`, `NodeV`, ...) over
//! which all contracts in this crate are stated.

use vstd::prelude::*;

verus! {

#[derive(Clone, Copy, Debug, PartialEq, Eq, Structural)]
pub enum NodeType {
    Device,
    Application,
    Filter,
}

#[derive(Clone, Copy, Debug, PartialEq, Eq, Structural)]
pub enum PortDirection {
    Input,
    Output,
}

#[derive(Clone, Copy, Debug, PartialEq, Eq, Structural)]
pub enum DeviceType {
    Sink,
    Source,
}

#[derive(Clone, Copy, Debug, PartialEq, Eq, Structural)]
pub enum DeviceState {
    Running,
    Suspended,
    Idle,
}

/// A directional connection point belonging to a node.
#[derive(Debug, PartialEq, Eq)]
pub struct Port {
    pub id: u32,
    pub node_id: u32,
    pub name: String,
    pub direction: PortDirection,
}

/// The mathematical value of a [`Port`].
#[verifier::ext_equal]
pub ghost struct PortV {
    pub id: u32,
    pub node_id: u32,
    pub name: Seq<char>,
    pub direction: PortDirection,
}

impl View for Port {
    type V = PortV;

    open spec fn view(&self) -> PortV {
        PortV { id: self.id, node_id: self.node_id, name: self.name@, direction: self.direction }
    }
}

impl DeepView for Port {
    type V = PortV;

    open spec fn deep_view(&self) -> PortV {
        self.view()
    }
}

impl Port {
    /// An explicit copy whose view equals the original's.
    pub fn dup(&self) -> (r: Port)
        ensures
            r@ == self@,
    {
        Port {
            id: self.id,
            node_id: self.node_id,
            name: self.name.clone(),
            direction: self.direction,
        }
    }
}

/// An audio endpoint or processing unit, with the ports attached to it so
/// far, in order of attachment.
#[derive(Debug, PartialEq, Eq)]
pub struct Node {
    pub id: u32,
    pub name: String,
    pub node_type: NodeType,
    pub ports: Vec<Port>,
}

/// The mathematical value of a [`Node`].
#[verifier::ext_equal]
pub ghost struct NodeV {
    pub id: u32,
    pub name: Seq<char>,
    pub node_type: NodeType,
    pub ports: Seq<PortV>,
}

impl View for Node {
    type V = NodeV;

    open spec fn view(&self) -> NodeV {
        NodeV {
            id: self.id,
            name: self.name@,
            node_type: self.node_type,
            ports: self.ports.deep_view(),
        }
    }
}

impl DeepView for Node {
    type V = NodeV;

    open spec fn deep_view(&self) -> NodeV {
        self.view()
    }
}

/// Copies every port of a vector; the copy's deep view equals the
/// original's.
pub fn dup_ports(ports: &Vec<Port>) -> (r: Vec<Port>)
    ensures
        r.deep_view() == ports.deep_view(),
{
    let mut r: Vec<Port> = Vec::new();
    let n = ports.len();
    for i in 0..n
        invariant
            n == ports.len(),
            r@.len() == i,
            forall|j: int| 0 <= j < i as int ==> r.deep_view()[j] == #[trigger] ports.deep_view()[j],
    {
        r.push(ports[i].dup());
    }
    assert(r.deep_view() =~= ports.deep_view());
    r
}

impl Node {
    /// An explicit copy whose view equals the original's.
    pub fn dup(&self) -> (r: Node)
        ensures
            r@ == self@,
    {
        Node {
            id: self.id,
            name: self.name.clone(),
            node_type: self.node_type,
            ports: dup_ports(&self.ports),
        }
    }
}

/// A connection between an output port and an input port, stored exactly as
/// announced; endpoints are not validated against known nodes or ports.
#[derive(Clone, Copy, Debug, PartialEq, Eq, Structural)]
pub struct Link {
    pub id: u32,
    pub output_node: u32,
    pub output_port: u32,
    pub input_node: u32,
    pub input_port: u32,
}

/// A request to link an output port to an input port, by ids.
#[derive(Clone, Copy, Debug, PartialEq, Eq, Structural)]
pub struct CreateLinkRequest {
    pub output_node: u32,
    pub output_port: u32,
    pub input_node: u32,
    pub input_port: u32,
}

/// A request to delete the link with this id.
#[derive(Clone, Copy, Debug, PartialEq, Eq, Structural)]
pub struct DeleteLinkRequest {
    pub link_id: u32,
}

/// The full routing graph: nodes with their attached ports, and an
/// independent list of links.
#[derive(Debug, PartialEq, Eq)]
pub struct AudioGraph {
    pub nodes: Vec<Node>,
    pub links: Vec<Link>,
}

/// The mathematical value of an [`AudioGraph`].
#[verifier::ext_equal]
pub ghost struct AudioGraphV {
    pub nodes: Seq<NodeV>,
    pub links: Seq<Link>,
}

impl View for AudioGraph {
    type V = AudioGraphV;

    open spec fn view(&self) -> AudioGraphV {
        AudioGraphV { nodes: self.nodes.deep_view(), links: self.links@ }
    }
}

/// One playback or capture channel of a device; `volume` counts thousandths
/// of full volume.
#[derive(Debug, PartialEq, Eq)]
pub struct Channel {
    pub index: u32,
    pub name: String,
    pub volume: u32,
}

/// The mathematical value of a [`Channel`].
#[verifier::ext_equal]
pub ghost struct ChannelV {
    pub index: u32,
    pub name: Seq<char>,
    pub volume: u32,
}

impl View for Channel {
    type V = ChannelV;

    open spec fn view(&self) -> ChannelV {
        ChannelV { index: self.index, name: self.name@, volume: self.volume }
    }
}

impl DeepView for Channel {
    type V = ChannelV;

    open spec fn deep_view(&self) -> ChannelV {
        self.view()
    }
}

impl Channel {
    /// An explicit copy whose view equals the original's.
    pub fn dup(&self) -> (r: Channel)
        ensures
            r@ == self@,
    {
        Channel { index: self.index, name: self.name.clone(), volume: self.volume }
    }
}

/// A device as reported by the audio subsystem; volumes count thousandths
/// of full volume.
#[derive(Debug, PartialEq, Eq)]
pub struct AudioDevice {
    pub id: u32,
    pub name: String,
    pub description: String,
    pub device_type: DeviceType,
    pub state: DeviceState,
    pub channels: Vec<Channel>,
    pub muted: bool,
    pub base_volume: u32,
}

/// The mathematical value of an [`AudioDevice`].
#[verifier::ext_equal]
pub ghost struct AudioDeviceV {
    pub id: u32,
    pub name: Seq<char>,
    pub description: Seq<char>,
    pub device_type: DeviceType,
    pub state: DeviceState,
    pub channels: Seq<ChannelV>,
    pub muted: bool,
    pub base_volume: u32,
}

impl View for AudioDevice {
    type V = AudioDeviceV;

    open spec fn view(&self) -> AudioDeviceV {
        AudioDeviceV {
            id: self.id,
            name: self.name@,
            description: self.description@,
            device_type: self.device_type,
            state: self.state,
            channels: self.channels.deep_view(),
            muted: self.muted,
            base_volume: self.base_volume,
        }
    }
}

impl DeepView for AudioDevice {
    type V = AudioDeviceV;

    open spec fn deep_view(&self) -> AudioDeviceV {
        self.view()
    }
}

/// Copies every channel of a vector; the copy's deep view equals the
/// original's.
pub fn dup_channels(channels: &Vec<Channel>) -> (r: Vec<Channel>)
    ensures
        r.deep_view() == channels.deep_view(),
{
    let mut r: Vec<Channel> = Vec::new();
    let n = channels.len();
    for i in 0..n
        invariant
            n == channels.len(),
            r@.len() == i,
            forall|j: int| 0 <= j < i as int ==> r.deep_view()[j] == #[trigger] channels.deep_view()[j],
    {
        r.push(channels[i].dup());
    }
    assert(r.deep_view() =~= channels.deep_view());
    r
}

impl AudioDevice {
    /// An explicit copy whose view equals the original's.
    pub fn dup(&self) -> (r: AudioDevice)
        ensures
            r@ == self@,
    {
        AudioDevice {
            id: self.id,
            name: self.name.clone(),
            description: self.description.clone(),
            device_type: self.device_type,
            state: self.state,
            channels: dup_channels(&self.channels),
            muted: self.muted,
            base_volume: self.base_volume,
        }
    }
}

/// An application stream attached to a sink; `volume` counts thousandths of
/// full volume.
#[derive(Debug, PartialEq, Eq)]
pub struct Stream {
    pub id: u32,
    pub application_name: String,
    pub sink_id: u32,
    pub volume: u32,
    pub muted: bool,
}

/// The mathematical value of a [`Stream`].
#[verifier::ext_equal]
pub ghost struct StreamV {
    pub id: u32,
    pub application_name: Seq<char>,
    pub sink_id: u32,
    pub volume: u32,
    pub muted: bool,
}

impl View for Stream {
    type V = StreamV;

    open spec fn view(&self) -> StreamV {
        StreamV {
            id: self.id,
            application_name: self.application_name@,
            sink_id: self.sink_id,
            volume: self.volume,
            muted: self.muted,
        }
    }
}

} // verus!
