//! The catalog of output devices that a player keeps by itself.
use crate::audio_devices::capabilities::{
    output_answered, output_capabilities_for_device, ConfigRange,
};
use crate::audio_devices::catalog::{
    find_on_side, found_on_side, is_default_name, largest, largest_count,
    law_largest_count_is_the_largest, names, Found, HostSide, ProbedDevice, ProbedHost,
};
use crate::audio_devices::ids::{backend_of, encode_id, encoded};
use crate::audio_devices::types::{DeviceId, InfoView, OutputCapabilities, OutputDeviceInfo};
use vstd::prelude::*;
use vstd::string::*;

pub use crate::audio_devices::capabilities::output_capabilities_for_device as capabilities_for_device;
pub use crate::audio_devices::ids::{decode_id, host_id_to_backend};
pub use crate::audio_devices::types::DeviceError;

verus! {

/// A listed device and the slot of its handle.
pub struct Listed {
    pub info: InfoView,
    pub slot: usize,
}

/// The entry of a device; `None` where it told no name. One that told no
/// configurations is listed with no channels.
pub open spec fn entry_of(host: ProbedHost, d: ProbedDevice) -> Option<Listed> {
    match d.name {
        None => None,
        Some(name) => Some(
            Listed {
                info: InfoView {
                    id: encoded(host.name@, name@),
                    name: name@,
                    backend: backend_of(host.name@),
                    is_default: names(host.default_output, name@),
                    is_class_compliant_usb: false,
                    max_channels: match d.output_channels {
                        None => 0,
                        Some(cs) => match largest(cs@) {
                            Some(max) => max,
                            None => 0,
                        },
                    },
                },
                slot: d.slot,
            },
        ),
    }
}

/// The list after the sightings `ds` on `host`, each an entry of its own.
pub open spec fn after_probes(cat: Seq<Listed>, host: ProbedHost, ds: Seq<ProbedDevice>) -> Seq<
    Listed,
>
    decreases ds.len(),
{
    if ds.len() == 0 {
        cat
    } else {
        let before = after_probes(cat, host, ds.drop_last());
        match entry_of(host, ds.last()) {
            None => before,
            Some(e) => before.push(e),
        }
    }
}

/// The list that all hosts' output probes come to.
pub open spec fn listing(hosts: Seq<ProbedHost>) -> Seq<Listed>
    decreases hosts.len(),
{
    if hosts.len() == 0 {
        Seq::empty()
    } else {
        after_probes(
            listing(hosts.drop_last()),
            hosts.last(),
            hosts.last().output_probes@,
        )
    }
}

/// The slot of a device: that of its last sighting.
pub open spec fn slot_in(cat: Seq<Listed>, id: Seq<char>) -> Option<usize>
    decreases cat.len(),
{
    if cat.len() == 0 {
        None
    } else if cat.last().info.id == id {
        Some(cat.last().slot)
    } else {
        slot_in(cat.drop_last(), id)
    }
}

/// The list of a catalog.
pub open spec fn listed(infos: Seq<OutputDeviceInfo>, slots: Seq<usize>) -> Seq<Listed> {
    Seq::new(infos.len(), |i: int| Listed { info: infos[i]@, slot: slots[i] })
}

/// The output devices of all hosts.
pub struct DeviceCatalog {
    infos: Vec<OutputDeviceInfo>,
    slots: Vec<usize>,
}

impl View for DeviceCatalog {
    type V = Seq<Listed>;

    closed spec fn view(&self) -> Seq<Listed> {
        listed(self.infos@, self.slots@)
    }
}

/// Takes in the sightings `ds` on `host`.
fn admit_all(
    infos: &mut Vec<OutputDeviceInfo>,
    slots: &mut Vec<usize>,
    host: &ProbedHost,
    ds: &Vec<ProbedDevice>,
)
    requires
        old(infos)@.len() == old(slots)@.len(),
    ensures
        final(infos)@.len() == final(slots)@.len(),
        listed(final(infos)@, final(slots)@) == after_probes(
            listed(old(infos)@, old(slots)@),
            *host,
            ds@,
        ),
{
    let mut i: usize = 0;
    proof {
        assert(ds@.take(0) =~= Seq::empty());
    }
    while i < ds.len()
        invariant
            i <= ds@.len(),
            infos@.len() == slots@.len(),
            listed(infos@, slots@) == after_probes(
                listed(old(infos)@, old(slots)@),
                *host,
                ds@.take(i as int),
            ),
        decreases ds@.len() - i,
    {
        let d: &ProbedDevice = &ds[i];
        let ghost before = listed(infos@, slots@);
        proof {
            assert(ds@.take(i + 1).drop_last() =~= ds@.take(i as int));
            assert(ds@.take(i + 1).last() == *d);
        }
        if let Some(name) = &d.name {
            let max_output_channels: u16 = match &d.output_channels {
                None => 0,
                Some(cs) => match largest_count(cs.as_slice()) {
                    Some(max) => max,
                    None => 0,
                },
            };
            let info = OutputDeviceInfo {
                id: DeviceId(encode_id(host.name.as_str(), name.as_str())),
                name: name.clone(),
                backend: host_id_to_backend(host.name.as_str()),
                is_default_output: is_default_name(&host.default_output, name.as_str()),
                max_output_channels,
            };
            let ghost infos0 = infos@;
            let ghost slots0 = slots@;
            proof {
                let e = Listed { info: info@, slot: d.slot };
                assert(entry_of(*host, *d) == Some(e));
                assert(listed(infos0.push(info), slots0.push(d.slot)) =~= before.push(e));
            }
            infos.push(info);
            slots.push(d.slot);
        }
        i += 1;
    }
    proof {
        assert(ds@.take(i as int) =~= ds@);
    }
}

impl DeviceCatalog {
    /// Every device has a slot.
    pub closed spec fn wf(&self) -> bool {
        self.infos@.len() == self.slots@.len()
    }

    /// An empty catalog.
    pub fn new() -> (r: DeviceCatalog)
        ensures
            r.wf(),
            r@ == Seq::<Listed>::empty(),
    {
        let r = DeviceCatalog { infos: Vec::new(), slots: Vec::new() };
        proof {
            assert(r@ =~= Seq::<Listed>::empty());
        }
        r
    }

    /// Replaces the catalog by what the probes saw, and lists it.
    pub fn list_output_devices(&mut self, hosts: &Vec<ProbedHost>) -> (r: Vec<OutputDeviceInfo>)
        ensures
            final(self).wf(),
            final(self)@ == listing(hosts@),
            r@.len() == listing(hosts@).len(),
            forall|i: int| 0 <= i < r@.len() ==> (#[trigger] r@[i])@ == listing(hosts@)[i].info,
    {
        let mut infos: Vec<OutputDeviceInfo> = Vec::new();
        let mut slots: Vec<usize> = Vec::new();
        let mut i: usize = 0;
        proof {
            assert(hosts@.take(0) =~= Seq::empty());
            assert(listed(infos@, slots@) =~= Seq::empty());
        }
        while i < hosts.len()
            invariant
                i <= hosts@.len(),
                infos@.len() == slots@.len(),
                listed(infos@, slots@) == listing(hosts@.take(i as int)),
            decreases hosts@.len() - i,
        {
            let host: &ProbedHost = &hosts[i];
            admit_all(&mut infos, &mut slots, host, &host.output_probes);
            proof {
                assert(hosts@.take(i + 1).drop_last() =~= hosts@.take(i as int));
            }
            i += 1;
        }
        proof {
            assert(hosts@.take(i as int) =~= hosts@);
        }
        let mut out: Vec<OutputDeviceInfo> = Vec::new();
        let mut k: usize = 0;
        while k < infos.len()
            invariant
                k <= infos@.len(),
                infos@.len() == slots@.len(),
                listed(infos@, slots@) == listing(hosts@),
                out@.len() == k,
                forall|j: int|
                    0 <= j < k ==> (#[trigger] out@[j])@ == listing(hosts@)[j].info,
            decreases infos@.len() - k,
        {
            out.push(infos[k].copied());
            proof {
                assert(listed(infos@, slots@)[k as int].info == infos@[k as int]@);
            }
            k += 1;
        }
        self.infos = infos;
        self.slots = slots;
        out
    }

    /// The slot of a device in the catalog.
    pub fn cached_slot(&self, id: &DeviceId) -> (r: Option<usize>)
        requires
            self.wf(),
        ensures
            r == slot_in(self@, id@),
    {
        let ghost cat = self@;
        let mut i: usize = self.infos.len();
        proof {
            assert(cat.take(i as int) =~= cat);
        }
        while i > 0
            invariant
                i <= self.infos@.len(),
                self.wf(),
                cat == listed(self.infos@, self.slots@),
                slot_in(cat, id@) == slot_in(cat.take(i as int), id@),
            decreases i,
        {
            i -= 1;
            proof {
                assert(cat.take(i + 1).drop_last() =~= cat.take(i as int));
                assert(cat.take(i + 1).last() == cat[i as int]);
            }
            if self.infos[i].id.same(id) {
                return Some(self.slots[i]);
            }
        }
        None
    }

    /// Finds a device: in the catalog, else by a fresh enumeration of the outputs.
    pub fn find_device(&self, id: &DeviceId, hosts: &Vec<HostSide>) -> (r: Result<
        Found,
        DeviceError,
    >)
        requires
            self.wf(),
        ensures
            match slot_in(self@, id@) {
                Some(slot) => r matches Ok(f) && f == Found::Cached(slot),
                None => match found_on_side(id@, hosts@) {
                    Ok(slot) => r matches Ok(f) && f == Found::Fresh(slot),
                    Err(e) => r matches Err(f) && f@ == e,
                },
            },
    {
        match self.cached_slot(id) {
            Some(slot) => Ok(Found::Cached(slot)),
            None => match find_on_side(id, hosts) {
                Ok(slot) => Ok(Found::Fresh(slot)),
                Err(e) => Err(e),
            },
        }
    }

    /// Capabilities of an output device, given what its backend answered where it
    /// was found.
    pub fn output_device_capabilities(
        &self,
        id: &DeviceId,
        hosts: &Vec<HostSide>,
        supported: Result<Vec<ConfigRange>, String>,
        default_rate: Result<u32, String>,
    ) -> (r: Result<OutputCapabilities, DeviceError>)
        requires
            self.wf(),
        ensures
            match slot_in(self@, id@) {
                Some(_) => output_answered(supported, default_rate, r),
                None => match found_on_side(id@, hosts@) {
                    Ok(_) => output_answered(supported, default_rate, r),
                    Err(e) => r matches Err(f) && f@ == e,
                },
            },
    {
        match self.find_device(id, hosts) {
            Ok(_) => output_capabilities_for_device(supported, default_rate),
            Err(e) => Err(e),
        }
    }
}

/// Lists the output devices that the probes saw, without keeping a catalog.
pub fn list_output_devices(hosts: &Vec<ProbedHost>) -> (r: Vec<OutputDeviceInfo>)
    ensures
        r@.len() == listing(hosts@).len(),
        forall|i: int| 0 <= i < r@.len() ==> (#[trigger] r@[i])@ == listing(hosts@)[i].info,
{
    let mut catalog = DeviceCatalog::new();
    catalog.list_output_devices(hosts)
}

/// Capabilities of an output device, looked up by a fresh enumeration.
pub fn output_device_capabilities(
    id: &DeviceId,
    hosts: &Vec<HostSide>,
    supported: Result<Vec<ConfigRange>, String>,
    default_rate: Result<u32, String>,
) -> (r: Result<OutputCapabilities, DeviceError>)
    ensures
        match found_on_side(id@, hosts@) {
            Ok(_) => output_answered(supported, default_rate, r),
            Err(e) => r matches Err(f) && f@ == e,
        },
{
    let catalog = DeviceCatalog::new();
    catalog.output_device_capabilities(id, hosts, supported, default_rate)
}

/// What a sighting lists: a device that told its name, under its host's name and its
/// own, with the largest channel count of its output configurations and none where it
/// told none; it is the default where the host calls its default output by this name.
pub proof fn law_output_entry_holds_what_was_seen(host: ProbedHost, d: ProbedDevice)
    ensures
        entry_of(host, d) is Some <==> d.name is Some,
        entry_of(host, d) matches Some(e) ==> {
            let name = d.name->Some_0@;
            &&& e.slot == d.slot
            &&& e.info.id == host.name@ + ":"@ + name
            &&& e.info.name == name
            &&& e.info.is_default <==> host.default_output is Some && host.default_output->Some_0@
                == name
            &&& !e.info.is_class_compliant_usb
            &&& d.output_channels is None ==> e.info.max_channels == 0
            &&& d.output_channels matches Some(cs) ==> {
                &&& cs@.len() == 0 ==> e.info.max_channels == 0
                &&& cs@.len() > 0 ==> cs@.contains(e.info.max_channels)
                &&& forall|k: int| 0 <= k < cs@.len() ==> #[trigger] cs@[k] <= e.info.max_channels
            }
        },
{
    if let Some(cs) = d.output_channels {
        law_largest_count_is_the_largest(cs@);
    }
}

/// Each sighting that tells a name is an entry of its own, in the order of the
/// sightings.
pub proof fn law_each_sighting_is_an_entry(
    cat: Seq<Listed>,
    host: ProbedHost,
    ds: Seq<ProbedDevice>,
    more: Seq<ProbedDevice>,
    d: ProbedDevice,
)
    ensures
        after_probes(cat, host, ds + more) == after_probes(
            after_probes(cat, host, ds),
            host,
            more,
        ),
        d.name is None ==> after_probes(cat, host, seq![d]) == cat,
        d.name is Some ==> after_probes(cat, host, seq![d]).len() == cat.len() + 1
            && cat.is_prefix_of(after_probes(cat, host, seq![d])) && after_probes(
            cat,
            host,
            seq![d],
        ).last().slot == d.slot,
    decreases more.len(),
{
    assert(seq![d].drop_last() =~= Seq::empty());
    assert(after_probes(cat, host, Seq::<ProbedDevice>::empty()) == cat);
    if more.len() == 0 {
        assert(ds + more =~= ds);
    } else {
        law_each_sighting_is_an_entry(cat, host, ds, more.drop_last(), d);
        assert((ds + more).drop_last() =~= ds + more.drop_last());
        assert((ds + more).last() == more.last());
    }
}

/// The slot of a device is that of its last entry; a device without an entry has none.
pub proof fn law_last_sighting_has_the_slot(cat: Seq<Listed>, id: Seq<char>, i: int)
    requires
        -1 <= i < cat.len(),
        forall|k: int| i < k < cat.len() ==> (#[trigger] cat[k]).info.id != id,
    ensures
        i >= 0 && cat[i].info.id == id ==> slot_in(cat, id) == Some(cat[i].slot),
        i < 0 ==> slot_in(cat, id) is None,
    decreases cat.len(),
{
    if cat.len() > 0 && i < cat.len() - 1 {
        assert(cat[cat.len() - 1].info.id != id);
        assert forall|k: int| i < k < cat.drop_last().len() implies (
        #[trigger] cat.drop_last()[k]).info.id != id by {
            assert(cat.drop_last()[k] == cat[k]);
        }
        law_last_sighting_has_the_slot(cat.drop_last(), id, i);
    }
}

/// Sightings leave the entries before them.
proof fn lemma_probes_keep(cat: Seq<Listed>, host: ProbedHost, ds: Seq<ProbedDevice>)
    ensures
        cat.is_prefix_of(after_probes(cat, host, ds)),
    decreases ds.len(),
{
    if ds.len() > 0 {
        lemma_probes_keep(cat, host, ds.drop_last());
    }
}

/// A sighting is among the entries.
proof fn lemma_probe_enters(cat: Seq<Listed>, host: ProbedHost, ds: Seq<ProbedDevice>, j: int)
    requires
        0 <= j < ds.len(),
        ds[j].name is Some,
    ensures
        after_probes(cat, host, ds).contains(entry_of(host, ds[j])->Some_0),
    decreases ds.len(),
{
    let rest = ds.drop_last();
    let before = after_probes(cat, host, rest);
    let after = after_probes(cat, host, ds);
    let e = entry_of(host, ds[j])->Some_0;
    if j == ds.len() - 1 {
        assert(after == before.push(e));
        assert(after[before.len() as int] == e);
    } else {
        assert(rest[j] == ds[j]);
        lemma_probe_enters(cat, host, rest, j);
        let k = choose|k: int| 0 <= k < before.len() && before[k] == e;
        assert(after[k] == e);
    }
}

/// Every device that an output pass of any host saw and that told its name is listed, as
/// that pass saw it.
pub proof fn law_sighted_outputs_are_listed(hosts: Seq<ProbedHost>, h: int, j: int)
    requires
        0 <= h < hosts.len(),
        0 <= j < hosts[h].output_probes@.len(),
        hosts[h].output_probes@[j].name is Some,
    ensures
        listing(hosts).contains(entry_of(hosts[h], hosts[h].output_probes@[j])->Some_0),
    decreases hosts.len(),
{
    let rest = hosts.drop_last();
    let host = hosts.last();
    if h == hosts.len() - 1 {
        lemma_probe_enters(listing(rest), host, host.output_probes@, j);
    } else {
        assert(rest[h] == hosts[h]);
        law_sighted_outputs_are_listed(rest, h, j);
        lemma_probes_keep(listing(rest), host, host.output_probes@);
        let e = entry_of(hosts[h], hosts[h].output_probes@[j])->Some_0;
        let k = choose|k: int| 0 <= k < listing(rest).len() && listing(rest)[k] == e;
        assert(listing(hosts)[k] == e);
    }
}

} // verus!
