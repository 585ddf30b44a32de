//! The catalog of input devices that a recorder keeps by itself.
use super::error::OpenError;
use crate::audio_devices::capabilities::{
    input_answered, input_capabilities_for_device, input_describes, ConfigRange,
};
use crate::audio_devices::catalog::{
    find_on_side, found_on_side, is_default_name, largest, largest_count,
    law_largest_count_is_the_largest, names, Found, HostSide, ProbedDevice, ProbedHost,
};
use crate::audio_devices::ids::{backend_of, encode_id, encoded, host_id_to_backend};
use crate::audio_devices::types::{
    DeviceError, DeviceFault, DeviceId, InfoView, InputCapabilities, InputDeviceInfo,
};
use crate::text::same_text;
use vstd::prelude::*;
use vstd::string::*;

pub use crate::audio_devices::capabilities::clamp_default_buffer_size;
pub use crate::audio_devices::ids::decode_id;

verus! {

/// A listed device and the slot of its handle.
pub struct Listed {
    pub info: InfoView,
    pub slot: usize,
}

/// Is a device of this identifier listed?
pub open spec fn is_listed(cat: Seq<Listed>, id: Seq<char>) -> bool {
    exists|i: int| 0 <= i < cat.len() && (#[trigger] cat[i]).info.id == id
}

/// The entry of a device; `None` where it told no name or no configurations.
pub open spec fn entry_of(host: ProbedHost, d: ProbedDevice) -> Option<Listed> {
    match (d.name, d.input_channels) {
        (Some(name), Some(cs)) => Some(
            Listed {
                info: InfoView {
                    id: encoded(host.name@, name@),
                    name: name@,
                    backend: backend_of(host.name@),
                    is_default: names(host.default_input, name@),
                    is_class_compliant_usb: false,
                    max_channels: match largest(cs@) {
                        Some(max) => max,
                        None => 0,
                    },
                },
                slot: d.slot,
            },
        ),
        _ => None,
    }
}

/// The list after the sightings `ds` on `host`: the first sighting of a device
/// stays; one whose configurations could not be had is passed over.
pub open spec fn after_probes(cat: Seq<Listed>, host: ProbedHost, ds: Seq<ProbedDevice>) -> Seq<
    Listed,
>
    decreases ds.len(),
{
    if ds.len() == 0 {
        cat
    } else {
        let before = after_probes(cat, host, ds.drop_last());
        match entry_of(host, ds.last()) {
            None => before,
            Some(e) => if is_listed(before, e.info.id) {
                before
            } else {
                before.push(e)
            },
        }
    }
}

/// The list that all hosts' input probes come to.
pub open spec fn listing(hosts: Seq<ProbedHost>) -> Seq<Listed>
    decreases hosts.len(),
{
    if hosts.len() == 0 {
        Seq::empty()
    } else {
        after_probes(
            listing(hosts.drop_last()),
            hosts.last(),
            hosts.last().input_probes@,
        )
    }
}

/// The list of a catalog.
pub open spec fn listed(infos: Seq<InputDeviceInfo>, slots: Seq<usize>) -> Seq<Listed> {
    Seq::new(infos.len(), |i: int| Listed { info: infos[i]@, slot: slots[i] })
}

/// The input devices of all hosts, one entry each.
pub struct DeviceCatalog {
    infos: Vec<InputDeviceInfo>,
    slots: Vec<usize>,
}

impl View for DeviceCatalog {
    type V = Seq<Listed>;

    closed spec fn view(&self) -> Seq<Listed> {
        listed(self.infos@, self.slots@)
    }
}

/// The index of the device of this identifier.
fn index_of(infos: &Vec<InputDeviceInfo>, id: &str) -> (r: Option<usize>)
    ensures
        match r {
            Some(i) => i < infos@.len() && infos@[i as int].id@ == id@,
            None => forall|k: int| 0 <= k < infos@.len() ==> (#[trigger] infos@[k]).id@ != id@,
        },
{
    let mut i: usize = 0;
    while i < infos.len()
        invariant
            i <= infos@.len(),
            forall|k: int| 0 <= k < i ==> (#[trigger] infos@[k]).id@ != id@,
        decreases infos@.len() - i,
    {
        if same_text(infos[i].id.0.as_str(), id) {
            return Some(i);
        }
        i += 1;
    }
    None
}

/// Takes in the sightings `ds` on `host`.
fn admit_all(
    infos: &mut Vec<InputDeviceInfo>,
    slots: &mut Vec<usize>,
    host: &ProbedHost,
    ds: &Vec<ProbedDevice>,
)
    requires
        old(infos)@.len() == old(slots)@.len(),
    ensures
        final(infos)@.len() == final(slots)@.len(),
        listed(final(infos)@, final(slots)@) == after_probes(
            listed(old(infos)@, old(slots)@),
            *host,
            ds@,
        ),
{
    let mut i: usize = 0;
    proof {
        assert(ds@.take(0) =~= Seq::empty());
    }
    while i < ds.len()
        invariant
            i <= ds@.len(),
            infos@.len() == slots@.len(),
            listed(infos@, slots@) == after_probes(
                listed(old(infos)@, old(slots)@),
                *host,
                ds@.take(i as int),
            ),
        decreases ds@.len() - i,
    {
        let d: &ProbedDevice = &ds[i];
        let ghost before = listed(infos@, slots@);
        proof {
            assert(ds@.take(i + 1).drop_last() =~= ds@.take(i as int));
            assert(ds@.take(i + 1).last() == *d);
        }
        if let Some(name) = &d.name {
            if let Some(cs) = &d.input_channels {
                let id: String = encode_id(host.name.as_str(), name.as_str());
                let at: Option<usize> = index_of(infos, id.as_str());
                proof {
                    if let Some(k) = at {
                        assert(before[k as int].info.id == id@);
                    } else {
                        assert forall|k: int| 0 <= k < before.len() implies (
                        #[trigger] before[k]).info.id != id@ by {
                            assert(infos@[k].id@ != id@);
                        }
                    }
                }
                if at.is_none() {
                    let max_input_channels: u16 = match largest_count(cs.as_slice()) {
                        Some(max) => max,
                        None => 0,
                    };
                    let info = InputDeviceInfo {
                        id: DeviceId(id),
                        name: name.clone(),
                        backend: host_id_to_backend(host.name.as_str()),
                        is_default_input: is_default_name(&host.default_input, name.as_str()),
                        is_class_compliant_usb: false,
                        max_input_channels,
                    };
                    let ghost infos0 = infos@;
                    let ghost slots0 = slots@;
                    proof {
                        let e = Listed { info: info@, slot: d.slot };
                        assert(entry_of(*host, *d) == Some(e));
                        assert(listed(infos0.push(info), slots0.push(d.slot)) =~= before.push(e));
                    }
                    infos.push(info);
                    slots.push(d.slot);
                }
            }
        }
        i += 1;
    }
    proof {
        assert(ds@.take(i as int) =~= ds@);
    }
}

impl DeviceCatalog {
    /// Every device has a slot.
    pub closed spec fn wf(&self) -> bool {
        self.infos@.len() == self.slots@.len()
    }

    /// An empty catalog.
    pub fn new() -> (r: DeviceCatalog)
        ensures
            r.wf(),
            r@ == Seq::<Listed>::empty(),
    {
        let r = DeviceCatalog { infos: Vec::new(), slots: Vec::new() };
        proof {
            assert(r@ =~= Seq::<Listed>::empty());
        }
        r
    }

    /// Replaces the catalog by what the probes saw, and lists it.
    pub fn list_devices(&mut self, hosts: &Vec<ProbedHost>) -> (r: Vec<InputDeviceInfo>)
        ensures
            final(self).wf(),
            final(self)@ == listing(hosts@),
            r@.len() == listing(hosts@).len(),
            forall|i: int| 0 <= i < r@.len() ==> (#[trigger] r@[i])@ == listing(hosts@)[i].info,
    {
        let mut infos: Vec<InputDeviceInfo> = Vec::new();
        let mut slots: Vec<usize> = Vec::new();
        let mut i: usize = 0;
        proof {
            assert(hosts@.take(0) =~= Seq::empty());
            assert(listed(infos@, slots@) =~= Seq::empty());
        }
        while i < hosts.len()
            invariant
                i <= hosts@.len(),
                infos@.len() == slots@.len(),
                listed(infos@, slots@) == listing(hosts@.take(i as int)),
            decreases hosts@.len() - i,
        {
            let host: &ProbedHost = &hosts[i];
            admit_all(&mut infos, &mut slots, host, &host.input_probes);
            proof {
                assert(hosts@.take(i + 1).drop_last() =~= hosts@.take(i as int));
            }
            i += 1;
        }
        proof {
            assert(hosts@.take(i as int) =~= hosts@);
        }
        let mut out: Vec<InputDeviceInfo> = Vec::new();
        let mut k: usize = 0;
        while k < infos.len()
            invariant
                k <= infos@.len(),
                infos@.len() == slots@.len(),
                listed(infos@, slots@) == listing(hosts@),
                out@.len() == k,
                forall|j: int|
                    0 <= j < k ==> (#[trigger] out@[j])@ == listing(hosts@)[j].info,
            decreases infos@.len() - k,
        {
            out.push(infos[k].copied());
            proof {
                assert(listed(infos@, slots@)[k as int].info == infos@[k as int]@);
            }
            k += 1;
        }
        self.infos = infos;
        self.slots = slots;
        out
    }

    /// Finds a device: in the catalog, else by a fresh enumeration of the inputs.
    pub fn find_device(&self, id: &DeviceId, hosts: &Vec<HostSide>) -> (r: Result<
        Found,
        OpenError,
    >)
        requires
            self.wf(),
        ensures
            is_listed(self@, id@) ==> (r matches Ok(Found::Cached(slot)) && exists|i: int|
                0 <= i < self@.len() && (#[trigger] self@[i]).info.id == id@ && self@[i].slot
                    == slot),
            !is_listed(self@, id@) ==> match found_on_side(id@, hosts@) {
                Ok(slot) => r matches Ok(Found::Fresh(s)) && s == slot,
                Err(DeviceFault::DeviceNotFound { id: missing }) => r matches Err(
                    OpenError::DeviceNotFound { id: x },
                ) && x@ == missing,
                Err(DeviceFault::BackendError(m)) => r matches Err(OpenError::BackendError(x))
                    && x@ == m,
            },
    {
        match index_of(&self.infos, id.0.as_str()) {
            Some(i) => {
                proof {
                    assert(self@[i as int].info.id == id@);
                }
                Ok(Found::Cached(self.slots[i]))
            },
            None => {
                proof {
                    assert forall|k: int| 0 <= k < self@.len() implies (
                    #[trigger] self@[k]).info.id != id@ by {
                        assert(self.infos@[k].id@ != id@);
                    }
                }
                match find_on_side(id, hosts) {
                    Ok(slot) => Ok(Found::Fresh(slot)),
                    Err(e) => Err(OpenError::from(e)),
                }
            },
        }
    }

    /// Capabilities of an input device, given what its backend answered where it
    /// was found.
    pub fn device_capabilities(
        &self,
        id: &DeviceId,
        hosts: &Vec<HostSide>,
        supported: Result<Vec<ConfigRange>, String>,
        default_rate: Result<u32, String>,
    ) -> (r: Result<InputCapabilities, OpenError>)
        requires
            self.wf(),
        ensures
            is_listed(self@, id@) ==> answered(supported, default_rate, r),
            !is_listed(self@, id@) ==> match found_on_side(id@, hosts@) {
                Ok(_) => answered(supported, default_rate, r),
                Err(DeviceFault::DeviceNotFound { id: missing }) => r matches Err(
                    OpenError::DeviceNotFound { id: x },
                ) && x@ == missing,
                Err(DeviceFault::BackendError(m)) => r matches Err(OpenError::BackendError(x))
                    && x@ == m,
            },
    {
        match self.find_device(id, hosts) {
            Ok(_) => capabilities_for_device(supported, default_rate),
            Err(e) => Err(e),
        }
    }
}

/// What an input device can do, or why it cannot be opened, given what its
/// backend answered: the configurations, and the default configuration's sample
/// rate.
pub open spec fn answered(
    supported: Result<Vec<ConfigRange>, String>,
    default_rate: Result<u32, String>,
    r: Result<InputCapabilities, OpenError>,
) -> bool {
    match supported {
        Err(e) => r matches Err(OpenError::BackendError(m)) && m@ == "supported_input_configs: "@
            + e@,
        Ok(cs) => if cs@.len() == 0 {
            r matches Err(OpenError::BackendError(m)) && m@
                == "device exposes no supported input configs"@
        } else {
            match default_rate {
                Err(e) => r matches Err(OpenError::BackendError(m)) && m@
                    == "default_input_config: "@ + e@,
                Ok(rate) => r matches Ok(c) && input_describes(c, cs@, rate),
            }
        },
    }
}

/// Capabilities of an input device, from what its backend answered.
pub fn capabilities_for_device(
    supported: Result<Vec<ConfigRange>, String>,
    default_rate: Result<u32, String>,
) -> (r: Result<InputCapabilities, OpenError>)
    ensures
        answered(supported, default_rate, r),
{
    match input_capabilities_for_device(supported, default_rate) {
        Ok(c) => Ok(c),
        Err(e) => Err(OpenError::from(e)),
    }
}

/// What a sighting lists: a device that told its name and its input configurations,
/// under its host's name and its own, with the largest channel count among them and
/// none where there are none; it is the default where the host calls its default input
/// by this name.
pub proof fn law_input_entry_holds_what_was_seen(host: ProbedHost, d: ProbedDevice)
    ensures
        entry_of(host, d) is Some <==> d.name is Some && d.input_channels is Some,
        entry_of(host, d) matches Some(e) ==> {
            let name = d.name->Some_0@;
            let cs = d.input_channels->Some_0@;
            &&& e.slot == d.slot
            &&& e.info.id == host.name@ + ":"@ + name
            &&& e.info.name == name
            &&& e.info.is_default <==> host.default_input is Some && host.default_input->Some_0@
                == name
            &&& !e.info.is_class_compliant_usb
            &&& cs.len() == 0 ==> e.info.max_channels == 0
            &&& cs.len() > 0 ==> cs.contains(e.info.max_channels)
            &&& forall|k: int| 0 <= k < cs.len() ==> #[trigger] cs[k] <= e.info.max_channels
        },
{
    if let Some(cs) = d.input_channels {
        law_largest_count_is_the_largest(cs@);
    }
}

/// The list only grows, and its devices are all different: whatever is seen later, an
/// entry stays where it is, and no identifier comes twice.
pub proof fn law_sightings_only_add(cat: Seq<Listed>, host: ProbedHost, ds: Seq<ProbedDevice>)
    requires
        forall|i: int, j: int|
            0 <= i < j < cat.len() ==> (#[trigger] cat[i]).info.id != (#[trigger] cat[j]).info.id,
    ensures
        cat.is_prefix_of(after_probes(cat, host, ds)),
        forall|i: int, j: int|
            0 <= i < j < after_probes(cat, host, ds).len() ==> (#[trigger] after_probes(
                cat,
                host,
                ds,
            )[i]).info.id != (#[trigger] after_probes(cat, host, ds)[j]).info.id,
    decreases ds.len(),
{
    if ds.len() > 0 {
        law_sightings_only_add(cat, host, ds.drop_last());
    }
}

/// Every sighting that tells a name and configurations is listed, under its identifier,
/// by it or by an earlier one.
pub proof fn law_sighted_inputs_are_listed(
    cat: Seq<Listed>,
    host: ProbedHost,
    ds: Seq<ProbedDevice>,
    j: int,
)
    requires
        0 <= j < ds.len(),
        ds[j].name is Some,
        ds[j].input_channels is Some,
    ensures
        exists|i: int|
            0 <= i < after_probes(cat, host, ds).len() && (#[trigger] after_probes(
                cat,
                host,
                ds,
            )[i]).info.id == host.name@ + ":"@ + ds[j].name->Some_0@,
    decreases ds.len(),
{
    let rest = ds.drop_last();
    let before = after_probes(cat, host, rest);
    let after = after_probes(cat, host, ds);
    let id = host.name@ + ":"@ + ds[j].name->Some_0@;
    if j < ds.len() - 1 {
        assert(rest[j] == ds[j]);
        law_sighted_inputs_are_listed(cat, host, rest, j);
        let i = choose|i: int| 0 <= i < before.len() && (#[trigger] before[i]).info.id == id;
        assert(after[i] == before[i]);
    } else {
        let e = entry_of(host, ds.last())->Some_0;
        assert(e.info.id == id);
        if is_listed(before, id) {
            let i = choose|i: int| 0 <= i < before.len() && (#[trigger] before[i]).info.id == id;
            assert(after[i].info.id == id);
        } else {
            assert(after[before.len() as int] == e);
        }
    }
}

/// Every device that an input pass of any host saw and that told its name and its
/// configurations is listed, and no device is listed twice.
pub proof fn law_recorders_list_every_input_once(hosts: Seq<ProbedHost>, h: int, j: int)
    requires
        0 <= h < hosts.len(),
        0 <= j < hosts[h].input_probes@.len(),
        hosts[h].input_probes@[j].name is Some,
        hosts[h].input_probes@[j].input_channels is Some,
    ensures
        exists|i: int|
            0 <= i < listing(hosts).len() && (#[trigger] listing(hosts)[i]).info.id
                == hosts[h].name@ + ":"@ + hosts[h].input_probes@[j].name->Some_0@,
        forall|a: int, b: int|
            0 <= a < b < listing(hosts).len() ==> (#[trigger] listing(hosts)[a]).info.id != (
            #[trigger] listing(hosts)[b]).info.id,
    decreases hosts.len(),
{
    let rest = hosts.drop_last();
    let host = hosts.last();
    let id = hosts[h].name@ + ":"@ + hosts[h].input_probes@[j].name->Some_0@;
    lemma_listing_distinct(rest);
    lemma_listing_distinct(hosts);
    if h == hosts.len() - 1 {
        law_sighted_inputs_are_listed(listing(rest), host, host.input_probes@, j);
    } else {
        assert(rest[h] == hosts[h]);
        law_recorders_list_every_input_once(rest, h, j);
        law_sightings_only_add(listing(rest), host, host.input_probes@);
        let i = choose|i: int|
            0 <= i < listing(rest).len() && (#[trigger] listing(rest)[i]).info.id == id;
        assert(listing(hosts)[i].info.id == id);
    }
}

/// No device is listed twice.
proof fn lemma_listing_distinct(hosts: Seq<ProbedHost>)
    ensures
        forall|a: int, b: int|
            0 <= a < b < listing(hosts).len() ==> (#[trigger] listing(hosts)[a]).info.id != (
            #[trigger] listing(hosts)[b]).info.id,
    decreases hosts.len(),
{
    if hosts.len() > 0 {
        let rest = hosts.drop_last();
        lemma_listing_distinct(rest);
        law_sightings_only_add(listing(rest), hosts.last(), hosts.last().input_probes@);
    }
}

/// What a recorder answers of a device's capabilities is what the device catalog does:
/// they are known exactly where the backend told configurations and a default rate.
pub proof fn law_recorders_answer_as_the_catalog(
    supported: Result<Vec<ConfigRange>, String>,
    default_rate: Result<u32, String>,
    r: Result<InputCapabilities, OpenError>,
    s: Result<InputCapabilities, DeviceError>,
)
    requires
        answered(supported, default_rate, r),
        input_answered(supported, default_rate, s),
    ensures
        r is Ok <==> s is Ok,
        r is Ok <==> supported is Ok && supported->Ok_0@.len() > 0 && default_rate is Ok,
        r is Err ==> r->Err_0 is BackendError,
        r is Ok ==> input_answered(supported, default_rate, Ok(r->Ok_0)),
{
}

} // verus!
