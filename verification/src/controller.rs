//! The device inventory the serving layer reads: one record per device id,
//! replaced wholesale when the subsystem re-announces an id. Starts with a
//! built-in stereo output so the interface has something to show before the
//! first subsystem announcement arrives.

use vstd::prelude::*;

use crate::models::{AudioDevice, AudioDeviceV, Channel, ChannelV, DeviceState, DeviceType};
use crate::seqs::{first_index_where, lemma_filter_push, lemma_first_index_where};

verus! {

/// Keeps the devices whose id differs from `id`.
pub open spec fn device_id_ne(id: u32) -> spec_fn(AudioDeviceV) -> bool {
    |d: AudioDeviceV| d.id != id
}

/// Selects the devices whose id equals `id`.
pub open spec fn device_id_eq(id: u32) -> spec_fn(AudioDeviceV) -> bool {
    |d: AudioDeviceV| d.id == id
}

/// Some device in `devices` has id `id`.
pub open spec fn has_device(devices: Seq<AudioDeviceV>, id: u32) -> bool {
    exists|i: int| 0 <= i < devices.len() && devices[i].id == id
}

/// The built-in stereo output the inventory starts with.
pub open spec fn default_device() -> AudioDeviceV {
    AudioDeviceV {
        id: 1,
        name: "alsa_output.pci-0000_00_1f.3.analog-stereo"@,
        description: "Built-in Audio Analog Stereo"@,
        device_type: DeviceType::Sink,
        state: DeviceState::Running,
        channels: seq![
            ChannelV { index: 0, name: "FL"@, volume: 750 },
            ChannelV { index: 1, name: "FR"@, volume: 750 },
        ],
        muted: false,
        base_volume: 1000,
    }
}

/// The device inventory, in order of first announcement; its view is the
/// sequence of device records. Device ids are unique by construction:
/// adding a device replaces any record with the same id.
pub struct AudioController {
    devices: Vec<AudioDevice>,
}

impl View for AudioController {
    type V = Seq<AudioDeviceV>;

    closed spec fn view(&self) -> Seq<AudioDeviceV> {
        self.devices.deep_view()
    }
}

impl AudioController {
    /// An inventory holding only the built-in output.
    pub fn new() -> (r: AudioController)
        ensures
            r@ == seq![default_device()],
    {
        let mut channels: Vec<Channel> = Vec::new();
        channels.push(Channel { index: 0, name: "FL".to_owned(), volume: 750 });
        channels.push(Channel { index: 1, name: "FR".to_owned(), volume: 750 });
        let device = AudioDevice {
            id: 1,
            name: "alsa_output.pci-0000_00_1f.3.analog-stereo".to_owned(),
            description: "Built-in Audio Analog Stereo".to_owned(),
            device_type: DeviceType::Sink,
            state: DeviceState::Running,
            channels,
            muted: false,
            base_volume: 1000,
        };
        proof {
            assert(device@.channels =~= default_device().channels);
            assert(device@ =~= default_device());
        }
        let mut devices: Vec<AudioDevice> = Vec::new();
        devices.push(device);
        let r = AudioController { devices };
        proof {
            assert(r@ =~= seq![default_device()]);
        }
        r
    }

    /// A copy of every device record, in inventory order.
    pub fn list_devices(&self) -> (r: Vec<AudioDevice>)
        ensures
            r.deep_view() == self@,
    {
        let mut r: Vec<AudioDevice> = Vec::new();
        let n = self.devices.len();
        for i in 0..n
            invariant
                n == self.devices@.len(),
                r@.len() == i,
                forall|j: int|
                    0 <= j < i as int ==> r.deep_view()[j] == #[trigger] self.devices.deep_view()[j],
        {
            r.push(self.devices[i].dup());
        }
        proof {
            assert(r.deep_view() =~= self@);
        }
        r
    }

    /// The first device with this id, if the inventory knows it.
    pub fn get_device(&self, id: u32) -> (r: Option<&AudioDevice>)
        ensures
            match r {
                Some(d) => has_device(self@, id) && d@ == self@[first_index_where(
                    self@,
                    device_id_eq(id),
                )],
                None => !has_device(self@, id),
            },
    {
        let n = self.devices.len();
        for i in 0..n
            invariant
                n == self.devices@.len(),
                forall|j: int| 0 <= j < i as int ==> #[trigger] self.devices.deep_view()[j].id != id,
        {
            if self.devices[i].id == id {
                proof {
                    assert(self.devices.deep_view()[i as int].id == id);
                    lemma_first_index_where(self.devices.deep_view(), device_id_eq(id), i as int);
                }
                return Some(&self.devices[i]);
            }
        }
        None
    }

    /// Records a device, replacing any record with the same id.
    pub fn add_device(&mut self, device: AudioDevice)
        ensures
            final(self)@ == old(self)@.filter(device_id_ne(device.id)).push(device@),
    {
        let ghost dv = self@;
        let ghost pred = device_id_ne(device.id);
        let mut kept: Vec<AudioDevice> = Vec::new();
        let n = self.devices.len();
        for i in 0..n
            invariant
                n == self.devices@.len(),
                dv == self.devices.deep_view(),
                pred == device_id_ne(device.id),
                kept.deep_view() =~= dv.subrange(0, i as int).filter(pred),
        {
            proof {
                assert(dv.subrange(0, i + 1) =~= dv.subrange(0, i as int).push(dv[i as int]));
                lemma_filter_push(dv.subrange(0, i as int), pred, dv[i as int]);
            }
            let ghost prev = kept.deep_view();
            if self.devices[i].id != device.id {
                kept.push(self.devices[i].dup());
                proof {
                    assert(kept.deep_view() =~= prev.push(dv[i as int]));
                }
            }
        }
        proof {
            assert(dv.subrange(0, n as int) =~= dv);
        }
        let ghost prev = kept.deep_view();
        let ghost devv = device@;
        kept.push(device);
        self.devices = kept;
        proof {
            assert(self@ =~= prev.push(devv));
        }
    }

    /// Forgets the device with this id; a no-op if unknown.
    pub fn remove_device(&mut self, id: u32)
        ensures
            final(self)@ == old(self)@.filter(device_id_ne(id)),
    {
        let ghost dv = self@;
        let ghost pred = device_id_ne(id);
        let mut kept: Vec<AudioDevice> = Vec::new();
        let n = self.devices.len();
        for i in 0..n
            invariant
                n == self.devices@.len(),
                dv == self.devices.deep_view(),
                pred == device_id_ne(id),
                kept.deep_view() =~= dv.subrange(0, i as int).filter(pred),
        {
            proof {
                assert(dv.subrange(0, i + 1) =~= dv.subrange(0, i as int).push(dv[i as int]));
                lemma_filter_push(dv.subrange(0, i as int), pred, dv[i as int]);
            }
            let ghost prev = kept.deep_view();
            if self.devices[i].id != id {
                kept.push(self.devices[i].dup());
                proof {
                    assert(kept.deep_view() =~= prev.push(dv[i as int]));
                }
            }
        }
        proof {
            assert(dv.subrange(0, n as int) =~= dv);
        }
        self.devices = kept;
    }
}

} // verus!
