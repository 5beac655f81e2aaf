//! What the listener reads of the device registry: the known devices, their product ids and the
//! labels of their side plates.

use vstd::prelude::*;

use crate::text::{decimal, show_u64};

verus! {

/// One known device.
pub struct DeviceDef {
    pub vendor_id: u16,
    /// The product ids of all modes of the device.
    pub product_ids: Vec<u16>,
    /// The family whose framing the device speaks.
    pub dialect: String,
    /// Whether the device has a DPI setting.
    pub dpi: bool,
    /// The labels of the side plates, by hardware strap code.
    pub side_plates: Vec<(u8, String)>,
}

/// The known devices, in order.
pub struct Registry {
    pub devices: Vec<DeviceDef>,
}

/// `d` lists the product id.
pub open spec fn has_pid(d: DeviceDef, pid: u16) -> bool {
    d.product_ids@.contains(pid)
}

/// The first device that lists the product id, from index `from` on.
pub open spec fn def_from(devices: Seq<DeviceDef>, pid: u16, from: nat) -> Option<nat>
    decreases devices.len() - from,
{
    if from >= devices.len() {
        None
    } else if has_pid(devices[from as int], pid) {
        Some(from)
    } else {
        def_from(devices, pid, from + 1)
    }
}

/// The label of a strap code, from index `from` of the plate table on.
pub open spec fn plate_from(plates: Seq<(u8, String)>, id: u8, from: nat) -> Option<Seq<char>>
    decreases plates.len() - from,
{
    if from >= plates.len() {
        None
    } else if plates[from as int].0 == id {
        Some(plates[from as int].1@)
    } else {
        plate_from(plates, id, from + 1)
    }
}

/// What a strap code is called: "detached" for none, the device's own label where it has one, and
/// "plate N" otherwise.
pub open spec fn plate_name(devices: Seq<DeviceDef>, pid: u16, id: u8) -> Seq<char> {
    if id == 0 {
        "detached"@
    } else {
        let known = match def_from(devices, pid, 0) {
            Some(i) => plate_from(devices[i as int].side_plates@, id, 0),
            None => None,
        };
        match known {
            Some(label) => label,
            None => "plate "@ + decimal(id as nat),
        }
    }
}

fn lists_pid(pids: &Vec<u16>, pid: u16) -> (r: bool)
    ensures
        r == pids@.contains(pid),
{
    let mut i: usize = 0;
    while i < pids.len()
        invariant
            i <= pids@.len(),
            forall|j: int| 0 <= j < i ==> pids@[j] != pid,
        decreases pids@.len() - i,
    {
        if pids[i] == pid {
            return true;
        }
        i = i + 1;
    }
    false
}

/// Whether a device lists the product id.
pub fn def_has_pid(d: &DeviceDef, pid: u16) -> (r: bool)
    ensures
        r == has_pid(*d, pid),
{
    lists_pid(&d.product_ids, pid)
}

/// The index of the first device that lists the product id.
pub fn def_for_pid(reg: &Registry, pid: u16) -> (r: Option<usize>)
    ensures
        match r {
            Some(i) => def_from(reg.devices@, pid, 0) == Some(i as nat) && i < reg.devices@.len(),
            None => def_from(reg.devices@, pid, 0) is None,
        },
{
    let mut i: usize = 0;
    while i < reg.devices.len()
        invariant
            i <= reg.devices@.len(),
            def_from(reg.devices@, pid, 0) == def_from(reg.devices@, pid, i as nat),
        decreases reg.devices@.len() - i,
    {
        if def_has_pid(&reg.devices[i], pid) {
            return Some(i);
        }
        i = i + 1;
    }
    None
}

fn side_plate_label(plates: &Vec<(u8, String)>, id: u8) -> (r: Option<String>)
    ensures
        match r {
            Some(s) => plate_from(plates@, id, 0) == Some(s@),
            None => plate_from(plates@, id, 0) is None,
        },
{
    let mut i: usize = 0;
    while i < plates.len()
        invariant
            i <= plates@.len(),
            plate_from(plates@, id, 0) == plate_from(plates@, id, i as nat),
        decreases plates@.len() - i,
    {
        if plates[i].0 == id {
            return Some(plates[i].1.clone());
        }
        i = i + 1;
    }
    None
}

/// What a strap code of the device is called.
pub fn plate_label(reg: &Registry, pid: u16, id: u8) -> (r: String)
    ensures
        r@ == plate_name(reg.devices@, pid, id),
{
    if id == 0 {
        return "detached".to_owned();
    }
    let known = match def_for_pid(reg, pid) {
        Some(i) => side_plate_label(&reg.devices[i].side_plates, id),
        None => None,
    };
    match known {
        Some(label) => label,
        None => {
            let mut s = "plate ".to_owned();
            s.append(show_u64(id as u64).as_str());
            s
        },
    }
}

/// The vendor whose mice push their settings.
pub const RAZER_VID: u16 = 0x1532;

/// `pid` belongs to a Razer device with a DPI setting.
pub open spec fn is_dpi_pid(devices: Seq<DeviceDef>, pid: u16) -> bool {
    exists|i: int|
        0 <= i < devices.len() && devices[i].dpi && devices[i].vendor_id == RAZER_VID
            && #[trigger] has_pid(devices[i], pid)
}

/// Whether `pid` belongs to a Razer device with a DPI setting.
pub fn dpi_pid(reg: &Registry, pid: u16) -> (r: bool)
    ensures
        r == is_dpi_pid(reg.devices@, pid),
{
    let mut i: usize = 0;
    while i < reg.devices.len()
        invariant
            i <= reg.devices@.len(),
            forall|j: int|
                0 <= j < i ==> !(reg.devices@[j].dpi && reg.devices@[j].vendor_id == RAZER_VID
                    && #[trigger] has_pid(reg.devices@[j], pid)),
        decreases reg.devices@.len() - i,
    {
        if reg.devices[i].dpi && reg.devices[i].vendor_id == RAZER_VID && def_has_pid(
            &reg.devices[i],
            pid,
        ) {
            proof {
                assert(has_pid(reg.devices@[i as int], pid));
            }
            return true;
        }
        i = i + 1;
    }
    false
}

/// The registry as last read, shared by everything that looks devices up.
pub struct RegistryCell {
    pub current: Option<Registry>,
}

impl RegistryCell {
    /// Nothing read yet.
    pub fn new() -> (r: Self)
        ensures
            r.current is None,
    {
        RegistryCell { current: None }
    }

    /// The registry: the first successful read, which a later one leaves in place.
    pub fn registry(&mut self, loaded: Option<Registry>) -> (r: Option<&Registry>)
        ensures
            match r {
                Some(g) => final(self).current == Some(*g),
                None => final(self).current is None,
            },
            final(self).current == if old(self).current is None {
                loaded
            } else {
                old(self).current
            },
    {
        if self.current.is_none() {
            self.current = loaded;
        }
        self.current.as_ref()
    }

    /// Swaps in a fresh read; a failed one leaves what is there.
    pub fn reload_registry(&mut self, loaded: Option<Registry>)
        ensures
            final(self).current == if loaded is Some {
                loaded
            } else {
                old(self).current
            },
    {
        if loaded.is_some() {
            self.current = loaded;
        }
    }
}

/// Strap code zero is "detached" on every device, and a code that no table lists shows its number.
pub proof fn law_unlisted_plate_shows_its_number(devices: Seq<DeviceDef>, pid: u16, id: u8)
    requires
        id != 0,
        def_from(devices, pid, 0) matches Some(i) ==> plate_from(
            devices[i as int].side_plates@,
            id,
            0,
        ) is None,
    ensures
        plate_name(devices, pid, 0) == "detached"@,
        plate_name(devices, pid, id) == "plate "@ + decimal(id as nat),
{
}

} // verus!
