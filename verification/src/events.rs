//! The typed traffic across the subsystem boundary, and the engine's two
//! decision procedures over it.
//!
//! Inbound, a [`PwEvent`] describes one subsystem notification;
//! [`apply_event`] — the body of the event application loop — applies it to
//! the topology cache and publishes exactly one matching notification, in
//! application order. Outbound, a [`PwCommand`] names one imperative call;
//! [`command_action`] renders it into the exact program invocation to
//! perform, together with the confirmation event a successful volume change
//! feeds back into the event flow.
//!
//! Volume levels count thousandths of full volume.

use vstd::prelude::*;

use crate::broadcast::{spec_send, BroadcasterV, EventBroadcaster, ServerEvent, ServerEventV};
use crate::manager::{
    spec_add_link, spec_add_node, spec_add_port, spec_remove_link, spec_remove_node,
    spec_remove_port, GraphManager, GraphStateV,
};
use crate::models::{AudioDevice, AudioDeviceV, Link, Node, NodeType, NodeV, Port, PortV};
use crate::strings::{
    all_digits, check_all_digits, dec_digits, dec_value, digit_val, find_char_from, has_substring,
    index_of_char, parse_u32, str_contains, u32_to_string,
};

verus! {

/// An imperative call for the audio subsystem. `SetVolume` carries the
/// caller's timestamp through to the confirmation event, if one was given.
#[derive(Clone, Copy, Debug, PartialEq, Eq, Structural)]
pub enum PwCommand {
    SetVolume(u32, u32, Option<u64>),
    SetMute(u32, bool),
    CreateLink(u32, u32, u32, u32),
    DeleteLink(u32),
}

/// One topology or volume notification from the audio subsystem.
#[derive(Debug, PartialEq)]
pub enum PwEvent {
    DeviceAdded(AudioDevice),
    DeviceRemoved(u32),
    VolumeChanged(u32, u32, Option<u64>),
    PortAdded(Port),
    PortRemoved(u32),
    LinkAdded(Link),
    LinkRemoved(u32),
}

/// The mathematical value of a [`PwEvent`].
#[verifier::ext_equal]
pub ghost enum PwEventV {
    DeviceAdded(AudioDeviceV),
    DeviceRemoved(u32),
    VolumeChanged(u32, u32, Option<u64>),
    PortAdded(PortV),
    PortRemoved(u32),
    LinkAdded(Link),
    LinkRemoved(u32),
}

impl View for PwEvent {
    type V = PwEventV;

    open spec fn view(&self) -> PwEventV {
        match self {
            PwEvent::DeviceAdded(d) => PwEventV::DeviceAdded(d@),
            PwEvent::DeviceRemoved(id) => PwEventV::DeviceRemoved(*id),
            PwEvent::VolumeChanged(id, level, ts) => PwEventV::VolumeChanged(*id, *level, *ts),
            PwEvent::PortAdded(p) => PwEventV::PortAdded(p@),
            PwEvent::PortRemoved(id) => PwEventV::PortRemoved(*id),
            PwEvent::LinkAdded(l) => PwEventV::LinkAdded(*l),
            PwEvent::LinkRemoved(id) => PwEventV::LinkRemoved(*id),
        }
    }
}

impl DeepView for PwEvent {
    type V = PwEventV;

    open spec fn deep_view(&self) -> PwEventV {
        self.view()
    }
}

/// The node record a device announcement inserts: the device's id and name,
/// categorized as a device, with no ports of its own (ports are announced
/// separately and may already be waiting in the orphan buffer).
pub open spec fn node_of_device(d: AudioDeviceV) -> NodeV {
    NodeV { id: d.id, name: d.name, node_type: NodeType::Device, ports: Seq::empty() }
}

/// The cache mutation each event performs. A volume change touches no
/// topology; every removal is total, a no-op on unknown ids.
pub open spec fn spec_apply_event(g: GraphStateV, e: PwEventV) -> GraphStateV {
    match e {
        PwEventV::DeviceAdded(d) => spec_add_node(g, node_of_device(d)),
        PwEventV::DeviceRemoved(id) => spec_remove_node(g, id),
        PwEventV::VolumeChanged(_, _, _) => g,
        PwEventV::PortAdded(p) => spec_add_port(g, p),
        PwEventV::PortRemoved(id) => spec_remove_port(g, id),
        PwEventV::LinkAdded(l) => spec_add_link(g, l),
        PwEventV::LinkRemoved(id) => spec_remove_link(g, id),
    }
}

/// The notification published for each event, carrying the event's own
/// payload through unchanged.
pub open spec fn notification_of(e: PwEventV) -> ServerEventV {
    match e {
        PwEventV::DeviceAdded(d) => ServerEventV::DeviceAdded(d),
        PwEventV::DeviceRemoved(id) => ServerEventV::DeviceRemoved(id),
        PwEventV::VolumeChanged(id, level, ts) => ServerEventV::VolumeChanged {
            id,
            volume: level,
            timestamp: ts,
        },
        PwEventV::PortAdded(p) => ServerEventV::PortAdded(p),
        PwEventV::PortRemoved(id) => ServerEventV::PortRemoved(id),
        PwEventV::LinkAdded(l) => ServerEventV::LinkAdded(l),
        PwEventV::LinkRemoved(id) => ServerEventV::LinkRemoved(id),
    }
}

/// The notifications for a sequence of events, one each, in order.
pub open spec fn notifications_of(events: Seq<PwEventV>) -> Seq<ServerEventV> {
    events.map_values(|e: PwEventV| notification_of(e))
}

/// The combined effect of running the event application loop over a
/// sequence of events, oldest first: the cache and the broadcaster after
/// every event has been applied by [`apply_event`].
pub open spec fn spec_apply_events(g: GraphStateV, b: BroadcasterV, events: Seq<PwEventV>) -> (
    GraphStateV,
    BroadcasterV,
)
    decreases events.len(),
{
    if events.len() == 0 {
        (g, b)
    } else {
        let prev = spec_apply_events(g, b, events.drop_last());
        (
            spec_apply_event(prev.0, events.last()),
            spec_send(prev.1, notification_of(events.last())),
        )
    }
}

/// Ordering across the loop: for any sequence of events, the loop publishes
/// exactly one notification per event, appended to the send history in the
/// order the events were received — no reordering, batching or coalescing.
pub proof fn lemma_event_loop_order(g: GraphStateV, b: BroadcasterV, events: Seq<PwEventV>)
    ensures
        spec_apply_events(g, b, events).1.history == b.history + notifications_of(events),
        spec_apply_events(g, b, events).1.capacity == b.capacity,
    decreases events.len(),
{
    if events.len() == 0 {
        assert(notifications_of(events) =~= Seq::<ServerEventV>::empty());
        assert(b.history + notifications_of(events) =~= b.history);
    } else {
        lemma_event_loop_order(g, b, events.drop_last());
        assert(notifications_of(events) =~= notifications_of(events.drop_last()).push(
            notification_of(events.last()),
        ));
        assert(b.history + notifications_of(events) =~= (b.history + notifications_of(
            events.drop_last(),
        )).push(notification_of(events.last())));
    }
}

/// One step of the event application loop: applies the event's mutation to
/// the cache, then publishes exactly the matching notification. Called for
/// events in receipt order, it publishes notifications in that same order,
/// one per event.
pub fn apply_event(graph: &mut GraphManager, broadcaster: &mut EventBroadcaster, event: PwEvent)
    requires
        old(broadcaster).wf(),
    ensures
        final(broadcaster).wf(),
        final(graph)@ == spec_apply_event(old(graph)@, event@),
        final(broadcaster)@ == spec_send(old(broadcaster)@, notification_of(event@)),
{
    match event {
        PwEvent::DeviceAdded(device) => {
            let node = Node {
                id: device.id,
                name: device.name.clone(),
                node_type: NodeType::Device,
                ports: Vec::new(),
            };
            proof {
                assert(node@.ports =~= Seq::<PortV>::empty());
                assert(node@ == node_of_device(device@));
            }
            graph.add_node(node);
            broadcaster.send(ServerEvent::DeviceAdded(device));
        },
        PwEvent::DeviceRemoved(id) => {
            graph.remove_node(id);
            broadcaster.send(ServerEvent::DeviceRemoved(id));
        },
        PwEvent::VolumeChanged(id, level, timestamp) => {
            broadcaster.send(ServerEvent::VolumeChanged { id, volume: level, timestamp });
        },
        PwEvent::PortAdded(port) => {
            graph.add_port(port.dup());
            broadcaster.send(ServerEvent::PortAdded(port));
        },
        PwEvent::PortRemoved(id) => {
            graph.remove_port(id);
            broadcaster.send(ServerEvent::PortRemoved(id));
        },
        PwEvent::LinkAdded(link) => {
            graph.add_link(link);
            broadcaster.send(ServerEvent::LinkAdded(link));
        },
        PwEvent::LinkRemoved(id) => {
            graph.remove_link(id);
            broadcaster.send(ServerEvent::LinkRemoved(id));
        },
    }
}

/// A removal notification for an id whose kind the subsystem does not
/// repeat: it fans out as one removal event of every kind, which is safe
/// because removals are no-ops on unknown ids.
pub fn removal_events(id: u32) -> (r: Vec<PwEvent>)
    ensures
        r.deep_view() == seq![
            PwEventV::DeviceRemoved(id),
            PwEventV::PortRemoved(id),
            PwEventV::LinkRemoved(id),
        ],
{
    let mut r: Vec<PwEvent> = Vec::new();
    r.push(PwEvent::DeviceRemoved(id));
    r.push(PwEvent::PortRemoved(id));
    r.push(PwEvent::LinkRemoved(id));
    proof {
        assert(r.deep_view() =~= seq![
            PwEventV::DeviceRemoved(id),
            PwEventV::PortRemoved(id),
            PwEventV::LinkRemoved(id),
        ]);
    }
    r
}

/// One rendered subsystem call: the program to run and its arguments, and
/// the event to feed back into the event flow if the call succeeds.
#[derive(Debug, PartialEq)]
pub struct CmdAction {
    pub program: String,
    pub args: Vec<String>,
    pub confirmation: Option<PwEvent>,
}

/// The mathematical value of a [`CmdAction`].
#[verifier::ext_equal]
pub ghost struct CmdActionV {
    pub program: Seq<char>,
    pub args: Seq<Seq<char>>,
    pub confirmation: Option<PwEventV>,
}

impl View for CmdAction {
    type V = CmdActionV;

    open spec fn view(&self) -> CmdActionV {
        CmdActionV {
            program: self.program@,
            args: self.args.deep_view(),
            confirmation: match self.confirmation {
                Some(e) => Some(e@),
                None => None,
            },
        }
    }
}

/// The exact invocation each command renders to. A volume level in
/// thousandths becomes a whole percentage (truncating); only a volume
/// change asks for a confirmation event, which carries the level and the
/// caller's timestamp back.
pub open spec fn spec_command_action(cmd: PwCommand) -> CmdActionV {
    match cmd {
        PwCommand::SetVolume(id, level, ts) => CmdActionV {
            program: "wpctl"@,
            args: seq![
                "set-volume"@,
                dec_digits(id as nat),
                dec_digits((level / 10) as nat) + "%"@,
            ],
            confirmation: Some(PwEventV::VolumeChanged(id, level, ts)),
        },
        PwCommand::SetMute(id, muted) => CmdActionV {
            program: "wpctl"@,
            args: seq!["set-mute"@, dec_digits(id as nat), if muted { "1"@ } else { "0"@ }],
            confirmation: None,
        },
        PwCommand::CreateLink(_out_node, out_port, _in_node, in_port) => CmdActionV {
            program: "pw-link"@,
            args: seq![dec_digits(out_port as nat), dec_digits(in_port as nat)],
            confirmation: None,
        },
        PwCommand::DeleteLink(link_id) => CmdActionV {
            program: "pw-link"@,
            args: seq!["-d"@, dec_digits(link_id as nat)],
            confirmation: None,
        },
    }
}

/// The thousandths contributed by a fraction's digits: the first three,
/// padded with zeros.
pub open spec fn frac_milli(s: Seq<char>) -> int {
    (if s.len() > 0 {
        100 * digit_val(s[0])
    } else {
        0
    }) + (if s.len() > 1 {
        10 * digit_val(s[1])
    } else {
        0
    }) + (if s.len() > 2 {
        digit_val(s[2])
    } else {
        0
    })
}

/// The volume a decimal token denotes, in thousandths: the integer part
/// times 1000 plus the first three fraction digits. Nothing when the token
/// is not `digits` or `digits.digits`, or when the integer part exceeds
/// what a `u32` count of thousandths can carry.
pub open spec fn volume_token_value(s: Seq<char>) -> Option<u32> {
    let dot = index_of_char(s, '.', 0);
    let ip = s.subrange(0, dot);
    let fp = if dot == s.len() {
        Seq::<char>::empty()
    } else {
        s.subrange(dot + 1, s.len() as int)
    };
    if ip.len() == 0 || !all_digits(ip) || !all_digits(fp) {
        None
    } else if dec_value(ip) > 4294966 {
        None
    } else {
        Some((dec_value(ip) * 1000 + frac_milli(fp)) as u32)
    }
}

/// Parses one volume token of the subsystem's status output, such as the
/// second word of `Volume: 0.75 [MUTED]`, into thousandths of full volume.
pub fn parse_volume_token(s: &str) -> (r: Option<u32>)
    ensures
        r == volume_token_value(s@),
{
    let len = s.unicode_len();
    let dot = find_char_from(s, '.', 0);
    let ip = s.substring_char(0, dot);
    let fp = if dot == len {
        s.substring_char(len, len)
    } else {
        s.substring_char(dot + 1, len)
    };
    proof {
        if dot == len {
            assert(fp@ =~= Seq::<char>::empty());
        }
    }
    if ip.unicode_len() == 0 || !check_all_digits(ip) || !check_all_digits(fp) {
        return None;
    }
    let whole = match parse_u32(ip) {
        Some(v) => v,
        None => {
            proof {
                crate::strings::lemma_dec_value_nonneg(ip@);
            }
            return None;
        },
    };
    if whole > 4294966 {
        return None;
    }
    let flen = fp.unicode_len();
    let d0: u32 = if flen > 0 {
        (fp.get_char(0) as u32) - 48
    } else {
        0
    };
    let d1: u32 = if flen > 1 {
        (fp.get_char(1) as u32) - 48
    } else {
        0
    };
    let d2: u32 = if flen > 2 {
        (fp.get_char(2) as u32) - 48
    } else {
        0
    };
    Some(whole * 1000 + 100 * d0 + 10 * d1 + d2)
}

/// Whether the subsystem's status output reports the node as muted.
pub fn volume_output_muted(s: &str) -> (r: bool)
    ensures
        r == has_substring(s@, "[MUTED]"@),
{
    str_contains(s, "[MUTED]")
}

/// Renders a command into the subsystem call to perform.
pub fn command_action(cmd: &PwCommand) -> (r: CmdAction)
    ensures
        r@ == spec_command_action(*cmd),
{
    match cmd {
        PwCommand::SetVolume(id, level, ts) => {
            let mut args: Vec<String> = Vec::new();
            args.push("set-volume".to_owned());
            args.push(u32_to_string(*id));
            let pct = u32_to_string(*level / 10);
            args.push(pct.concat("%"));
            let r = CmdAction {
                program: "wpctl".to_owned(),
                args,
                confirmation: Some(PwEvent::VolumeChanged(*id, *level, *ts)),
            };
            proof {
                assert(r@.args =~= spec_command_action(*cmd).args);
                assert(r@ =~= spec_command_action(*cmd));
            }
            r
        },
        PwCommand::SetMute(id, muted) => {
            let mut args: Vec<String> = Vec::new();
            args.push("set-mute".to_owned());
            args.push(u32_to_string(*id));
            if *muted {
                args.push("1".to_owned());
            } else {
                args.push("0".to_owned());
            }
            let r = CmdAction { program: "wpctl".to_owned(), args, confirmation: None };
            proof {
                assert(r@.args =~= spec_command_action(*cmd).args);
                assert(r@ =~= spec_command_action(*cmd));
            }
            r
        },
        PwCommand::CreateLink(_out_node, out_port, _in_node, in_port) => {
            let mut args: Vec<String> = Vec::new();
            args.push(u32_to_string(*out_port));
            args.push(u32_to_string(*in_port));
            let r = CmdAction { program: "pw-link".to_owned(), args, confirmation: None };
            proof {
                assert(r@.args =~= spec_command_action(*cmd).args);
                assert(r@ =~= spec_command_action(*cmd));
            }
            r
        },
        PwCommand::DeleteLink(link_id) => {
            let mut args: Vec<String> = Vec::new();
            args.push("-d".to_owned());
            args.push(u32_to_string(*link_id));
            let r = CmdAction { program: "pw-link".to_owned(), args, confirmation: None };
            proof {
                assert(r@.args =~= spec_command_action(*cmd).args);
                assert(r@ =~= spec_command_action(*cmd));
            }
            r
        },
    }
}

} // verus!
