//! The catalog of devices: one entry per device, however often and in whichever
//! direction it was seen.
//!
//! A host is probed several times, because any single probe can miss a device
//! that is busy at that moment. The catalog is the union of what the probes saw,
//! by identifier; the handle of the first probe that saw a device is the one
//! that is kept. Handles stay with whoever probes; the catalog knows them by
//! slot number.
use super::capabilities::{
    input_answered, input_capabilities_for_device, output_answered,
    output_capabilities_for_device, ConfigRange,
};
use super::ids::{
    backend_of, decode_id, encode_id, encoded, host_id_to_backend, law_id_round_trips,
};
use super::types::{
    DeviceError, DeviceFault, DeviceId, InfoView, InputCapabilities, InputDeviceInfo,
    OutputCapabilities, OutputDeviceInfo,
};
use crate::text::{first_at, same_text};
use vstd::prelude::*;
use vstd::string::*;

verus! {

/// How often each direction of a host is probed.
pub const ENUMERATION_PASSES: u32 = 3;

/// How long to wait between two passes.
pub const ENUMERATION_PASS_GAP_MS: u64 = 100;

/// A device as one probe saw it.
pub struct ProbedDevice {
    /// Its name, where it could be had.
    pub name: Option<String>,
    /// The channel counts of its output configurations; `None` where the query
    /// failed.
    pub output_channels: Option<Vec<u16>>,
    /// The channel counts of its input configurations; `None` where the query
    /// failed.
    pub input_channels: Option<Vec<u16>>,
    /// The number under which the prober keeps its handle.
    pub slot: usize,
}

/// A host and all that its probes saw, pass after pass.
pub struct ProbedHost {
    pub name: String,
    pub default_output: Option<String>,
    pub default_input: Option<String>,
    /// Devices seen by the output passes.
    pub output_probes: Vec<ProbedDevice>,
    /// Devices seen by the input passes.
    pub input_probes: Vec<ProbedDevice>,
}

/// The largest of the counts; `None` where there is none.
pub open spec fn largest(s: Seq<u16>) -> Option<u16>
    decreases s.len(),
{
    if s.len() == 0 {
        None
    } else {
        match largest(s.drop_last()) {
            None => Some(s.last()),
            Some(m) => Some(
                if s.last() > m {
                    s.last()
                } else {
                    m
                },
            ),
        }
    }
}

/// Does `name` name the default device?
pub open spec fn names(default_name: Option<String>, name: Seq<char>) -> bool {
    default_name matches Some(d) && d@ == name
}

/// One direction of a device; `None` where the device does not have it.
pub open spec fn info_of(
    host: Seq<char>,
    name: Seq<char>,
    default_name: Option<String>,
    channels: Option<Vec<u16>>,
) -> Option<InfoView> {
    match channels {
        None => None,
        Some(cs) => match largest(cs@) {
            None => None,
            Some(max) => Some(
                InfoView {
                    id: encoded(host, name),
                    name,
                    backend: backend_of(host),
                    is_default: names(default_name, name),
                    is_class_compliant_usb: false,
                    max_channels: max,
                },
            ),
        },
    }
}

/// A catalog entry, with its texts as sequences.
pub struct EntryView {
    pub id: Seq<char>,
    pub slot: usize,
    pub output: Option<InfoView>,
    pub input: Option<InfoView>,
}

/// The entry of a device that a probe of `host` saw; `None` where it told no
/// name.
pub open spec fn entry_of(host: ProbedHost, d: ProbedDevice) -> Option<EntryView> {
    match d.name {
        None => None,
        Some(name) => Some(
            EntryView {
                id: encoded(host.name@, name@),
                slot: d.slot,
                output: info_of(host.name@, name@, host.default_output, d.output_channels),
                input: info_of(host.name@, name@, host.default_input, d.input_channels),
            },
        ),
    }
}

/// Is a device of this identifier in the catalog?
pub open spec fn has_id(cat: Seq<EntryView>, id: Seq<char>) -> bool {
    exists|i: int| 0 <= i < cat.len() && (#[trigger] cat[i]).id == id
}

/// Are all identifiers different?
pub open spec fn ids_distinct(cat: Seq<EntryView>) -> bool {
    forall|i: int, j: int|
        0 <= i < j < cat.len() ==> (#[trigger] cat[i]).id != (#[trigger] cat[j]).id
}

/// The catalog after one more sighting: the first sighting of a device stays.
pub open spec fn admitted(cat: Seq<EntryView>, e: Option<EntryView>) -> Seq<EntryView> {
    match e {
        None => cat,
        Some(e) => if has_id(cat, e.id) {
            cat
        } else {
            cat.push(e)
        },
    }
}

/// The catalog after the sightings `ds` on `host`.
pub open spec fn after_probes(
    cat: Seq<EntryView>,
    host: ProbedHost,
    ds: Seq<ProbedDevice>,
) -> Seq<EntryView>
    decreases ds.len(),
{
    if ds.len() == 0 {
        cat
    } else {
        admitted(after_probes(cat, host, ds.drop_last()), entry_of(host, ds.last()))
    }
}

/// The catalog after all passes on `host`: outputs first, then inputs.
pub open spec fn after_host(cat: Seq<EntryView>, host: ProbedHost) -> Seq<EntryView> {
    after_probes(after_probes(cat, host, host.output_probes@), host, host.input_probes@)
}

/// The catalog that all hosts' probes come to.
pub open spec fn listing(hosts: Seq<ProbedHost>) -> Seq<EntryView>
    decreases hosts.len(),
{
    if hosts.len() == 0 {
        Seq::empty()
    } else {
        after_host(listing(hosts.drop_last()), hosts.last())
    }
}

/// An entry of the catalog.
pub struct CachedDevice {
    pub id: DeviceId,
    pub slot: usize,
    pub output_info: Option<OutputDeviceInfo>,
    pub input_info: Option<InputDeviceInfo>,
}

impl View for CachedDevice {
    type V = EntryView;

    open spec fn view(&self) -> EntryView {
        EntryView {
            id: self.id@,
            slot: self.slot,
            output: match self.output_info {
                None => None,
                Some(i) => Some(i@),
            },
            input: match self.input_info {
                None => None,
                Some(i) => Some(i@),
            },
        }
    }
}

/// The entries with their texts as sequences.
pub open spec fn entries(ds: Seq<CachedDevice>) -> Seq<EntryView> {
    Seq::new(ds.len(), |i: int| ds[i]@)
}

/// The output sides that entries have, in order.
pub open spec fn outputs(cat: Seq<EntryView>) -> Seq<InfoView>
    decreases cat.len(),
{
    if cat.len() == 0 {
        Seq::empty()
    } else {
        match cat.last().output {
            None => outputs(cat.drop_last()),
            Some(i) => outputs(cat.drop_last()).push(i),
        }
    }
}

/// The input sides that entries have, in order.
pub open spec fn inputs(cat: Seq<EntryView>) -> Seq<InfoView>
    decreases cat.len(),
{
    if cat.len() == 0 {
        Seq::empty()
    } else {
        match cat.last().input {
            None => inputs(cat.drop_last()),
            Some(i) => inputs(cat.drop_last()).push(i),
        }
    }
}

/// Where a device was found: in the catalog, or by a fresh enumeration. Each has
/// its own slot numbers.
#[derive(Debug, Clone, Copy, PartialEq, Eq, Structural)]
pub enum Found {
    Cached(usize),
    Fresh(usize),
}

/// A host as a fresh enumeration lists it.
pub struct HostListing {
    pub name: String,
    /// The error where the host could not be opened.
    pub opened: Result<(), String>,
    /// Names, where known, and slots of its output devices; `None` where listing
    /// them failed.
    pub outputs: Option<Vec<(Option<String>, usize)>>,
    /// The same for its input devices.
    pub inputs: Option<Vec<(Option<String>, usize)>>,
}

/// The largest of the counts.
pub fn largest_count(s: &[u16]) -> (r: Option<u16>)
    ensures
        r == largest(s@),
{
    let mut best: Option<u16> = None;
    let mut i: usize = 0;
    while i < s.len()
        invariant
            i <= s@.len(),
            best == largest(s@.take(i as int)),
        decreases s@.len() - i,
    {
        let x: u16 = s[i];
        best = match best {
            None => Some(x),
            Some(m) => Some(
                if x > m {
                    x
                } else {
                    m
                },
            ),
        };
        proof {
            assert(s@.take(i + 1).drop_last() =~= s@.take(i as int));
        }
        i += 1;
    }
    proof {
        assert(s@.take(i as int) =~= s@);
    }
    best
}

/// Does `name` name the default device?
pub fn is_default_name(default_name: &Option<String>, name: &str) -> (r: bool)
    ensures
        r == names(*default_name, name@),
{
    match default_name {
        None => false,
        Some(d) => same_text(d.as_str(), name),
    }
}

/// The playback side of a device; `None` where it has none.
pub fn build_output_info(
    host: &str,
    name: &str,
    default_output_name: &Option<String>,
    channels: &Option<Vec<u16>>,
) -> (r: Option<OutputDeviceInfo>)
    ensures
        match info_of(host@, name@, *default_output_name, *channels) {
            None => r is None,
            Some(v) => r matches Some(i) && i@ == v,
        },
{
    match channels {
        None => None,
        Some(cs) => match largest_count(cs.as_slice()) {
            None => None,
            Some(max_output_channels) => Some(
                OutputDeviceInfo {
                    id: DeviceId(encode_id(host, name)),
                    name: name.to_owned(),
                    backend: host_id_to_backend(host),
                    is_default_output: is_default_name(default_output_name, name),
                    max_output_channels,
                },
            ),
        },
    }
}

/// The capture side of a device; `None` where it has none.
pub fn build_input_info(
    host: &str,
    name: &str,
    default_input_name: &Option<String>,
    channels: &Option<Vec<u16>>,
) -> (r: Option<InputDeviceInfo>)
    ensures
        match info_of(host@, name@, *default_input_name, *channels) {
            None => r is None,
            Some(v) => r matches Some(i) && i@ == v,
        },
{
    match channels {
        None => None,
        Some(cs) => match largest_count(cs.as_slice()) {
            None => None,
            Some(max_input_channels) => Some(
                InputDeviceInfo {
                    id: DeviceId(encode_id(host, name)),
                    name: name.to_owned(),
                    backend: host_id_to_backend(host),
                    is_default_input: is_default_name(default_input_name, name),
                    is_class_compliant_usb: false,
                    max_input_channels,
                },
            ),
        },
    }
}

/// The devices of all hosts, one entry each.
pub struct DeviceCatalog {
    devices: Vec<CachedDevice>,
}

impl View for DeviceCatalog {
    type V = Seq<EntryView>;

    closed spec fn view(&self) -> Seq<EntryView> {
        entries(self.devices@)
    }
}

/// The slot of the entry with this identifier.
fn slot_of(devices: &Vec<CachedDevice>, id: &str) -> (r: Option<usize>)
    ensures
        r is Some <==> has_id(entries(devices@), id@),
        r matches Some(slot) ==> exists|i: int|
            0 <= i < entries(devices@).len() && (#[trigger] entries(devices@)[i]).id == id@
                && entries(devices@)[i].slot == slot,
{
    let mut i: usize = 0;
    while i < devices.len()
        invariant
            i <= devices@.len(),
            forall|k: int| 0 <= k < i ==> (#[trigger] entries(devices@)[k]).id != id@,
        decreases devices@.len() - i,
    {
        if same_text(devices[i].id.0.as_str(), id) {
            proof {
                assert(entries(devices@)[i as int].id == id@);
            }
            return Some(devices[i].slot);
        }
        proof {
            assert(entries(devices@)[i as int].id != id@);
        }
        i += 1;
    }
    None
}

/// Takes in the sightings `ds` on `host`.
fn admit_all(devices: &mut Vec<CachedDevice>, host: &ProbedHost, ds: &Vec<ProbedDevice>)
    requires
        ids_distinct(entries(old(devices)@)),
    ensures
        ids_distinct(entries(final(devices)@)),
        entries(final(devices)@) == after_probes(entries(old(devices)@), *host, ds@),
{
    let mut i: usize = 0;
    proof {
        assert(ds@.take(0) =~= Seq::empty());
    }
    while i < ds.len()
        invariant
            i <= ds@.len(),
            ids_distinct(entries(devices@)),
            entries(devices@) == after_probes(
                entries(old(devices)@),
                *host,
                ds@.take(i as int),
            ),
        decreases ds@.len() - i,
    {
        let d: &ProbedDevice = &ds[i];
        let ghost before = entries(devices@);
        proof {
            assert(ds@.take(i + 1).drop_last() =~= ds@.take(i as int));
            assert(ds@.take(i + 1).last() == *d);
        }
        if let Some(name) = &d.name {
            let id: String = encode_id(host.name.as_str(), name.as_str());
            if slot_of(devices, id.as_str()).is_none() {
                let output_info: Option<OutputDeviceInfo> = build_output_info(
                    host.name.as_str(),
                    name.as_str(),
                    &host.default_output,
                    &d.output_channels,
                );
                let input_info: Option<InputDeviceInfo> = build_input_info(
                    host.name.as_str(),
                    name.as_str(),
                    &host.default_input,
                    &d.input_channels,
                );
                let entry = CachedDevice { id: DeviceId(id), slot: d.slot, output_info, input_info };
                proof {
                    assert(Some(entry@) == entry_of(*host, *d));
                    assert(entries(devices@.push(entry)) =~= before.push(entry@));
                }
                devices.push(entry);
            }
        }
        i += 1;
    }
    proof {
        assert(ds@.take(i as int) =~= ds@);
    }
}

impl DeviceCatalog {
    /// One entry per device.
    pub open spec fn wf(&self) -> bool {
        ids_distinct(self@)
    }

    /// An empty catalog.
    pub fn new() -> (r: DeviceCatalog)
        ensures
            r.wf(),
            r@ == Seq::<EntryView>::empty(),
    {
        let r = DeviceCatalog { devices: Vec::new() };
        proof {
            assert(r@ =~= Seq::<EntryView>::empty());
        }
        r
    }

    /// Replaces the catalog by what the probes saw. Nothing of what it held
    /// before stays.
    pub fn refresh(&mut self, hosts: &Vec<ProbedHost>)
        ensures
            final(self).wf(),
            final(self)@ == listing(hosts@),
    {
        let mut devices: Vec<CachedDevice> = Vec::new();
        let mut i: usize = 0;
        proof {
            assert(hosts@.take(0) =~= Seq::empty());
            assert(entries(devices@) =~= Seq::empty());
        }
        while i < hosts.len()
            invariant
                i <= hosts@.len(),
                ids_distinct(entries(devices@)),
                entries(devices@) == listing(hosts@.take(i as int)),
            decreases hosts@.len() - i,
        {
            let host: &ProbedHost = &hosts[i];
            admit_all(&mut devices, host, &host.output_probes);
            admit_all(&mut devices, host, &host.input_probes);
            proof {
                assert(hosts@.take(i + 1).drop_last() =~= hosts@.take(i as int));
            }
            i += 1;
        }
        proof {
            assert(hosts@.take(i as int) =~= hosts@);
        }
        self.devices = devices;
    }

    /// Refreshes the catalog and lists its output devices.
    pub fn list_output_devices(&mut self, hosts: &Vec<ProbedHost>) -> (r: Vec<OutputDeviceInfo>)
        ensures
            final(self).wf(),
            final(self)@ == listing(hosts@),
            r@.map_values(|i: OutputDeviceInfo| i@) == outputs(listing(hosts@)),
    {
        self.refresh(hosts);
        let mut out: Vec<OutputDeviceInfo> = Vec::new();
        let mut i: usize = 0;
        let ghost cat = self@;
        proof {
            assert(cat.take(0) =~= Seq::empty());
            assert(out@.map_values(|i: OutputDeviceInfo| i@) =~= Seq::empty());
        }
        while i < self.devices.len()
            invariant
                i <= self.devices@.len(),
                cat == entries(self.devices@),
                out@.map_values(|i: OutputDeviceInfo| i@) == outputs(cat.take(i as int)),
            decreases self.devices@.len() - i,
        {
            let ghost before = out@;
            proof {
                assert(cat.take(i + 1).drop_last() =~= cat.take(i as int));
                assert(cat.take(i + 1).last() == self.devices@[i as int]@);
            }
            if let Some(info) = &self.devices[i].output_info {
                out.push(info.copied());
                proof {
                    assert(out@.map_values(|i: OutputDeviceInfo| i@) =~= before.map_values(
                        |i: OutputDeviceInfo| i@,
                    ).push(info@));
                }
            }
            i += 1;
        }
        proof {
            assert(cat.take(i as int) =~= cat);
        }
        out
    }

    /// Refreshes the catalog and lists its input devices.
    pub fn list_input_devices(&mut self, hosts: &Vec<ProbedHost>) -> (r: Vec<InputDeviceInfo>)
        ensures
            final(self).wf(),
            final(self)@ == listing(hosts@),
            r@.map_values(|i: InputDeviceInfo| i@) == inputs(listing(hosts@)),
    {
        self.refresh(hosts);
        let mut out: Vec<InputDeviceInfo> = Vec::new();
        let mut i: usize = 0;
        let ghost cat = self@;
        proof {
            assert(cat.take(0) =~= Seq::empty());
            assert(out@.map_values(|i: InputDeviceInfo| i@) =~= Seq::empty());
        }
        while i < self.devices.len()
            invariant
                i <= self.devices@.len(),
                cat == entries(self.devices@),
                out@.map_values(|i: InputDeviceInfo| i@) == inputs(cat.take(i as int)),
            decreases self.devices@.len() - i,
        {
            let ghost before = out@;
            proof {
                assert(cat.take(i + 1).drop_last() =~= cat.take(i as int));
                assert(cat.take(i + 1).last() == self.devices@[i as int]@);
            }
            if let Some(info) = &self.devices[i].input_info {
                out.push(info.copied());
                proof {
                    assert(out@.map_values(|i: InputDeviceInfo| i@) =~= before.map_values(
                        |i: InputDeviceInfo| i@,
                    ).push(info@));
                }
            }
            i += 1;
        }
        proof {
            assert(cat.take(i as int) =~= cat);
        }
        out
    }

    /// The slot of a device in the catalog.
    pub fn cached_slot(&self, id: &DeviceId) -> (r: Option<usize>)
        ensures
            r is Some <==> has_id(self@, id@),
            r matches Some(slot) ==> exists|i: int|
                0 <= i < self@.len() && (#[trigger] self@[i]).id == id@ && self@[i].slot == slot,
    {
        let r: Option<usize> = slot_of(&self.devices, id.0.as_str());
        proof {
            if let Some(slot) = r {
                let i = choose|i: int|
                    0 <= i < entries(self.devices@).len() && (#[trigger] entries(
                        self.devices@,
                    )[i]).id == id@ && entries(self.devices@)[i].slot == slot;
                assert(self@[i].id == id@ && self@[i].slot == slot);
            }
        }
        r
    }

    /// Finds a device: in the catalog, else by a fresh enumeration.
    pub fn find_device(&self, id: &DeviceId, hosts: &Vec<HostListing>) -> (r: Result<
        Found,
        DeviceError,
    >)
        ensures
            has_id(self@, id@) ==> (r matches Ok(Found::Cached(slot)) && exists|i: int|
                0 <= i < self@.len() && (#[trigger] self@[i]).id == id@ && self@[i].slot == slot),
            !has_id(self@, id@) ==> match found_in(id@, hosts@) {
                Ok(slot) => r matches Ok(Found::Fresh(s)) && s == slot,
                Err(e) => r matches Err(f) && f@ == e,
            },
    {
        match self.cached_slot(id) {
            Some(slot) => Ok(Found::Cached(slot)),
            None => match find_device_via_enum(id, hosts) {
                Ok(slot) => Ok(Found::Fresh(slot)),
                Err(e) => Err(e),
            },
        }
    }

    /// Capabilities of an output device, given what its backend answered where it was
    /// found.
    pub fn output_capabilities(
        &self,
        id: &DeviceId,
        hosts: &Vec<HostListing>,
        supported: Result<Vec<ConfigRange>, String>,
        default_rate: Result<u32, String>,
    ) -> (r: Result<OutputCapabilities, DeviceError>)
        ensures
            has_id(self@, id@) ==> output_answered(supported, default_rate, r),
            !has_id(self@, id@) ==> match found_in(id@, hosts@) {
                Ok(_) => output_answered(supported, default_rate, r),
                Err(e) => r matches Err(f) && f@ == e,
            },
    {
        match self.find_device(id, hosts) {
            Ok(_) => output_capabilities_for_device(supported, default_rate),
            Err(e) => Err(e),
        }
    }

    /// Capabilities of an input device, given what its backend answered where it was
    /// found.
    pub fn input_capabilities(
        &self,
        id: &DeviceId,
        hosts: &Vec<HostListing>,
        supported: Result<Vec<ConfigRange>, String>,
        default_rate: Result<u32, String>,
    ) -> (r: Result<InputCapabilities, DeviceError>)
        ensures
            has_id(self@, id@) ==> input_answered(supported, default_rate, r),
            !has_id(self@, id@) ==> match found_in(id@, hosts@) {
                Ok(_) => input_answered(supported, default_rate, r),
                Err(e) => r matches Err(f) && f@ == e,
            },
    {
        match self.find_device(id, hosts) {
            Ok(_) => input_capabilities_for_device(supported, default_rate),
            Err(e) => Err(e),
        }
    }
}

/// The slot of the first device called `name`.
pub open spec fn first_named(ds: Seq<(Option<String>, usize)>, name: Seq<char>) -> Option<usize>
    decreases ds.len(),
{
    if ds.len() == 0 {
        None
    } else if ds[0].0 matches Some(n) && n@ == name {
        Some(ds[0].1)
    } else {
        first_named(ds.drop_first(), name)
    }
}

/// The slot of the first device called `name` in a listing that may have failed.
pub open spec fn named_in(ds: Option<Vec<(Option<String>, usize)>>, name: Seq<char>) -> Option<
    usize,
> {
    match ds {
        None => None,
        Some(v) => first_named(v@, name),
    }
}

/// The first host called `name`.
pub open spec fn first_host(hosts: Seq<HostListing>, name: Seq<char>) -> Option<HostListing>
    decreases hosts.len(),
{
    if hosts.len() == 0 {
        None
    } else if hosts[0].name@ == name {
        Some(hosts[0])
    } else {
        first_host(hosts.drop_first(), name)
    }
}

/// What a fresh enumeration finds: the host by the part before the colon, then
/// the device by the part behind it, among the outputs first.
pub open spec fn found_in(id: Seq<char>, hosts: Seq<HostListing>) -> Result<usize, DeviceFault> {
    if !id.contains(':') {
        Err(DeviceFault::DeviceNotFound { id })
    } else {
        let colon = choose|i: int| first_at(id, ':', i);
        let name = id.skip(colon + 1);
        match first_host(hosts, id.take(colon)) {
            None => Err(DeviceFault::DeviceNotFound { id }),
            Some(host) => match host.opened {
                Err(e) => Err(DeviceFault::BackendError(e@)),
                Ok(_) => match named_in(host.outputs, name) {
                    Some(slot) => Ok(slot),
                    None => match named_in(host.inputs, name) {
                        Some(slot) => Ok(slot),
                        None => Err(DeviceFault::DeviceNotFound { id }),
                    },
                },
            },
        }
    }
}

/// The slot of the first device called `name`.
fn slot_of_name(v: &Vec<(Option<String>, usize)>, name: &str) -> (r: Option<usize>)
    ensures
        r == first_named(v@, name@),
{
    let mut i: usize = 0;
    proof {
        assert(v@.skip(0) =~= v@);
    }
    while i < v.len()
        invariant
            i <= v@.len(),
            first_named(v@, name@) == first_named(v@.skip(i as int), name@),
        decreases v@.len() - i,
    {
        proof {
            assert(v@.skip(i as int)[0] == v@[i as int]);
            assert(v@.skip(i as int).drop_first() =~= v@.skip(i + 1));
        }
        if let Some(n) = &v[i].0 {
            if same_text(n.as_str(), name) {
                proof {
                    assert(v@.skip(i as int)[0].0 == Some(*n));
                }
                return Some(v[i].1);
            }
        }
        i += 1;
    }
    None
}

/// The slot of the first device called `name` in a listing that may have failed.
pub fn slot_by_name(ds: &Option<Vec<(Option<String>, usize)>>, name: &str) -> (r: Option<usize>)
    ensures
        r == named_in(*ds, name@),
{
    match ds {
        None => None,
        Some(v) => slot_of_name(v, name),
    }
}

/// The first host called `name`.
pub fn host_by_name<'a>(hosts: &'a Vec<HostListing>, name: &str) -> (r: Option<&'a HostListing>)
    ensures
        match r {
            Some(h) => first_host(hosts@, name@) == Some(*h),
            None => first_host(hosts@, name@) is None,
        },
{
    let mut i: usize = 0;
    proof {
        assert(hosts@.skip(0) =~= hosts@);
    }
    while i < hosts.len()
        invariant
            i <= hosts@.len(),
            first_host(hosts@, name@) == first_host(hosts@.skip(i as int), name@),
        decreases hosts@.len() - i,
    {
        proof {
            assert(hosts@.skip(i as int)[0] == hosts@[i as int]);
            assert(hosts@.skip(i as int).drop_first() =~= hosts@.skip(i + 1));
        }
        if same_text(hosts[i].name.as_str(), name) {
            return Some(&hosts[i]);
        }
        i += 1;
    }
    None
}

/// Finds a device by a fresh enumeration.
pub fn find_device_via_enum(id: &DeviceId, hosts: &Vec<HostListing>) -> (r: Result<
    usize,
    DeviceError,
>)
    ensures
        match found_in(id@, hosts@) {
            Ok(slot) => r matches Ok(s) && s == slot,
            Err(e) => r matches Err(f) && f@ == e,
        },
{
    match decode_id(id.0.as_str()) {
        None => Err(DeviceError::DeviceNotFound { id: id.copied() }),
        Some((host_str, dev_name)) => {
            proof {
                let colon = choose|i: int| first_at(id@, ':', i);
                assert(first_at(id@, ':', host_str@.len() as int));
                assert(colon == host_str@.len());
            }
            match host_by_name(hosts, host_str) {
                None => Err(DeviceError::DeviceNotFound { id: id.copied() }),
                Some(host) => match &host.opened {
                    Err(e) => Err(DeviceError::BackendError(e.clone())),
                    Ok(_) => match slot_by_name(&host.outputs, dev_name) {
                        Some(slot) => Ok(slot),
                        None => match slot_by_name(&host.inputs, dev_name) {
                            Some(slot) => Ok(slot),
                            None => Err(DeviceError::DeviceNotFound { id: id.copied() }),
                        },
                    },
                },
            }
        },
    }
}

/// A host as a fresh enumeration lists one side of it.
pub struct HostSide {
    pub name: String,
    /// The error where the host could not be opened.
    pub opened: Result<(), String>,
    /// Names, where known, and slots of its devices, or the error of listing them.
    pub devices: Result<Vec<(Option<String>, usize)>, String>,
}

/// The first host called `name`.
pub open spec fn first_side(hosts: Seq<HostSide>, name: Seq<char>) -> Option<HostSide>
    decreases hosts.len(),
{
    if hosts.len() == 0 {
        None
    } else if hosts[0].name@ == name {
        Some(hosts[0])
    } else {
        first_side(hosts.drop_first(), name)
    }
}

/// What a fresh enumeration of one side finds.
pub open spec fn found_on_side(id: Seq<char>, hosts: Seq<HostSide>) -> Result<usize, DeviceFault> {
    if !id.contains(':') {
        Err(DeviceFault::DeviceNotFound { id })
    } else {
        let colon = choose|i: int| first_at(id, ':', i);
        match first_side(hosts, id.take(colon)) {
            None => Err(DeviceFault::DeviceNotFound { id }),
            Some(host) => match host.opened {
                Err(e) => Err(DeviceFault::BackendError(e@)),
                Ok(_) => match host.devices {
                    Err(e) => Err(DeviceFault::BackendError(e@)),
                    Ok(ds) => match first_named(ds@, id.skip(colon + 1)) {
                        Some(slot) => Ok(slot),
                        None => Err(DeviceFault::DeviceNotFound { id }),
                    },
                },
            },
        }
    }
}

/// The first host called `name`.
fn side_by_name<'a>(hosts: &'a Vec<HostSide>, name: &str) -> (r: Option<&'a HostSide>)
    ensures
        match r {
            Some(h) => first_side(hosts@, name@) == Some(*h),
            None => first_side(hosts@, name@) is None,
        },
{
    let mut i: usize = 0;
    proof {
        assert(hosts@.skip(0) =~= hosts@);
    }
    while i < hosts.len()
        invariant
            i <= hosts@.len(),
            first_side(hosts@, name@) == first_side(hosts@.skip(i as int), name@),
        decreases hosts@.len() - i,
    {
        proof {
            assert(hosts@.skip(i as int)[0] == hosts@[i as int]);
            assert(hosts@.skip(i as int).drop_first() =~= hosts@.skip(i + 1));
        }
        if same_text(hosts[i].name.as_str(), name) {
            return Some(&hosts[i]);
        }
        i += 1;
    }
    None
}

/// Finds a device by a fresh enumeration of one side.
pub fn find_on_side(id: &DeviceId, hosts: &Vec<HostSide>) -> (r: Result<usize, DeviceError>)
    ensures
        match found_on_side(id@, hosts@) {
            Ok(slot) => r matches Ok(s) && s == slot,
            Err(e) => r matches Err(f) && f@ == e,
        },
{
    match decode_id(id.0.as_str()) {
        None => Err(DeviceError::DeviceNotFound { id: id.copied() }),
        Some((host_str, dev_name)) => {
            proof {
                let colon = choose|i: int| first_at(id@, ':', i);
                assert(first_at(id@, ':', host_str@.len() as int));
                assert(colon == host_str@.len());
            }
            match side_by_name(hosts, host_str) {
                None => Err(DeviceError::DeviceNotFound { id: id.copied() }),
                Some(host) => match &host.opened {
                    Err(e) => Err(DeviceError::BackendError(e.clone())),
                    Ok(_) => match &host.devices {
                        Err(e) => Err(DeviceError::BackendError(e.clone())),
                        Ok(ds) => match slot_of_name(ds, dev_name) {
                            Some(slot) => Ok(slot),
                            None => Err(DeviceError::DeviceNotFound { id: id.copied() }),
                        },
                    },
                },
            }
        },
    }
}

/// The identifier of a device that a probe saw.
pub open spec fn probed_id(host: ProbedHost, d: ProbedDevice, id: Seq<char>) -> bool {
    d.name matches Some(name) && encoded(host.name@, name@) == id
}

/// Did a probe in `ds` see this device?
pub open spec fn seen_in(host: ProbedHost, ds: Seq<ProbedDevice>, id: Seq<char>) -> bool {
    exists|j: int| 0 <= j < ds.len() && probed_id(host, #[trigger] ds[j], id)
}

/// Did any probe see this device, in either direction?
pub open spec fn seen(hosts: Seq<ProbedHost>, id: Seq<char>) -> bool {
    exists|i: int|
        0 <= i < hosts.len() && (seen_in(hosts[i], (#[trigger] hosts[i]).output_probes@, id)
            || seen_in(hosts[i], hosts[i].input_probes@, id))
}

proof fn lemma_probes_union(
    cat: Seq<EntryView>,
    host: ProbedHost,
    ds: Seq<ProbedDevice>,
    id: Seq<char>,
)
    ensures
        has_id(after_probes(cat, host, ds), id) <==> has_id(cat, id) || seen_in(host, ds, id),
    decreases ds.len(),
{
    if ds.len() > 0 {
        let before = after_probes(cat, host, ds.drop_last());
        let after = after_probes(cat, host, ds);
        lemma_probes_union(cat, host, ds.drop_last(), id);
        assert(seen_in(host, ds, id) <==> seen_in(host, ds.drop_last(), id) || probed_id(
            host,
            ds.last(),
            id,
        )) by {
            if seen_in(host, ds.drop_last(), id) {
                let j = choose|j: int|
                    0 <= j < ds.drop_last().len() && probed_id(
                        host,
                        #[trigger] ds.drop_last()[j],
                        id,
                    );
                assert(probed_id(host, ds[j], id));
            }
            if seen_in(host, ds, id) && !probed_id(host, ds.last(), id) {
                let j = choose|j: int| 0 <= j < ds.len() && probed_id(host, #[trigger] ds[j], id);
                assert(probed_id(host, ds.drop_last()[j], id));
            }
            if probed_id(host, ds.last(), id) {
                assert(probed_id(host, ds[ds.len() - 1], id));
            }
        }
        match entry_of(host, ds.last()) {
            None => {},
            Some(e) => {
                if !has_id(before, e.id) {
                    assert(after == before.push(e));
                    assert(after[before.len() as int] == e);
                    if has_id(before, id) {
                        let k = choose|k: int|
                            0 <= k < before.len() && (#[trigger] before[k]).id == id;
                        assert(after[k].id == id);
                    }
                    if has_id(after, id) && e.id != id {
                        let k = choose|k: int|
                            0 <= k < after.len() && (#[trigger] after[k]).id == id;
                        assert(before[k].id == id);
                    }
                }
            },
        }
    }
}

/// The catalog holds exactly the devices that some probe saw, in whichever
/// direction and pass. So a device that was listed can be found, and one that no
/// probe saw is gone.
pub proof fn law_catalog_is_union_of_probes(hosts: Seq<ProbedHost>, id: Seq<char>)
    ensures
        has_id(listing(hosts), id) <==> seen(hosts, id),
    decreases hosts.len(),
{
    if hosts.len() > 0 {
        let rest = hosts.drop_last();
        let host = hosts.last();
        law_catalog_is_union_of_probes(rest, id);
        let mid = after_probes(listing(rest), host, host.output_probes@);
        lemma_probes_union(listing(rest), host, host.output_probes@, id);
        lemma_probes_union(mid, host, host.input_probes@, id);
        if seen(rest, id) {
            let i = choose|i: int|
                0 <= i < rest.len() && (seen_in(rest[i], (#[trigger] rest[i]).output_probes@, id)
                    || seen_in(rest[i], rest[i].input_probes@, id));
            assert(hosts[i] == rest[i]);
        }
        if seen_in(host, host.output_probes@, id) || seen_in(host, host.input_probes@, id) {
            assert(hosts[hosts.len() - 1] == host);
        }
        if seen(hosts, id) {
            let i = choose|i: int|
                0 <= i < hosts.len() && (seen_in(
                    hosts[i],
                    (#[trigger] hosts[i]).output_probes@,
                    id,
                ) || seen_in(hosts[i], hosts[i].input_probes@, id));
            if i < rest.len() {
                assert(rest[i] == hosts[i]);
            }
        }
    }
}

/// Sightings keep identifiers different.
proof fn lemma_probes_distinct(cat: Seq<EntryView>, host: ProbedHost, ds: Seq<ProbedDevice>)
    requires
        ids_distinct(cat),
    ensures
        ids_distinct(after_probes(cat, host, ds)),
    decreases ds.len(),
{
    if ds.len() > 0 {
        lemma_probes_distinct(cat, host, ds.drop_last());
    }
}

/// The catalog holds each device once, in however many passes it was seen.
pub proof fn law_catalog_holds_each_device_once(hosts: Seq<ProbedHost>)
    ensures
        ids_distinct(listing(hosts)),
    decreases hosts.len(),
{
    if hosts.len() > 0 {
        let rest = hosts.drop_last();
        let host = hosts.last();
        law_catalog_holds_each_device_once(rest);
        lemma_probes_distinct(listing(rest), host, host.output_probes@);
        lemma_probes_distinct(
            after_probes(listing(rest), host, host.output_probes@),
            host,
            host.input_probes@,
        );
    }
}

/// The largest count is one of the counts, and none is larger.
pub proof fn law_largest_count_is_the_largest(s: Seq<u16>)
    ensures
        s.len() == 0 <==> largest(s) is None,
        largest(s) matches Some(m) ==> s.contains(m),
        largest(s) matches Some(m) ==> forall|k: int| 0 <= k < s.len() ==> #[trigger] s[k] <= m,
    decreases s.len(),
{
    if s.len() > 0 {
        let rest = s.drop_last();
        law_largest_count_is_the_largest(rest);
        assert(s[s.len() - 1] == s.last());
        if let Some(m) = largest(rest) {
            let k = choose|k: int| 0 <= k < rest.len() && rest[k] == m;
            assert(s[k] == m);
            assert forall|k: int| 0 <= k < s.len() implies #[trigger] s[k] <= largest(s)->Some_0 by {
                if k < rest.len() {
                    assert(rest[k] == s[k]);
                }
            }
        }
    }
}

/// What a sighting says of a device: its name behind its host's and a colon, the slot of
/// its handle, and a side for each direction that has a configuration, with the largest
/// channel count of that direction; it is the default of a direction where the host
/// calls its default there by this name.
pub proof fn law_entry_holds_what_was_seen(host: ProbedHost, d: ProbedDevice)
    ensures
        entry_of(host, d) is Some <==> d.name is Some,
        entry_of(host, d) matches Some(e) ==> {
            let name = d.name->Some_0@;
            &&& e.id == host.name@ + ":"@ + name
            &&& e.slot == d.slot
            &&& e.output is Some <==> d.output_channels is Some
                && d.output_channels->Some_0@.len() > 0
            &&& e.input is Some <==> d.input_channels is Some && d.input_channels->Some_0@.len() > 0
            &&& e.output matches Some(i) ==> {
                &&& i.id == e.id
                &&& i.name == name
                &&& i.is_default <==> host.default_output is Some && host.default_output->Some_0@
                    == name
                &&& !i.is_class_compliant_usb
                &&& d.output_channels->Some_0@.contains(i.max_channels)
                &&& forall|k: int|
                    0 <= k < d.output_channels->Some_0@.len()
                        ==> #[trigger] d.output_channels->Some_0@[k] <= i.max_channels
            }
            &&& e.input matches Some(i) ==> {
                &&& i.id == e.id
                &&& i.name == name
                &&& i.is_default <==> host.default_input is Some && host.default_input->Some_0@
                    == name
                &&& !i.is_class_compliant_usb
                &&& d.input_channels->Some_0@.contains(i.max_channels)
                &&& forall|k: int|
                    0 <= k < d.input_channels->Some_0@.len()
                        ==> #[trigger] d.input_channels->Some_0@[k] <= i.max_channels
            }
        },
{
    if let Some(cs) = d.output_channels {
        law_largest_count_is_the_largest(cs@);
    }
    if let Some(cs) = d.input_channels {
        law_largest_count_is_the_largest(cs@);
    }
}

/// Sightings leave what the catalog holds.
proof fn lemma_probes_keep(cat: Seq<EntryView>, host: ProbedHost, ds: Seq<ProbedDevice>)
    ensures
        cat.is_prefix_of(after_probes(cat, host, ds)),
    decreases ds.len(),
{
    if ds.len() > 0 {
        lemma_probes_keep(cat, host, ds.drop_last());
    }
}

/// The first sighting of a device that the catalog does not hold goes into it.
proof fn lemma_probes_first(
    cat: Seq<EntryView>,
    host: ProbedHost,
    ds: Seq<ProbedDevice>,
    j: int,
    id: Seq<char>,
)
    requires
        !has_id(cat, id),
        0 <= j < ds.len(),
        probed_id(host, ds[j], id),
        forall|k: int| 0 <= k < j ==> !probed_id(host, #[trigger] ds[k], id),
    ensures
        after_probes(cat, host, ds).contains(entry_of(host, ds[j])->Some_0),
    decreases ds.len(),
{
    let rest = ds.drop_last();
    let before = after_probes(cat, host, rest);
    let after = after_probes(cat, host, ds);
    let e = entry_of(host, ds[j])->Some_0;
    if j == ds.len() - 1 {
        lemma_probes_union(cat, host, rest, id);
        if seen_in(host, rest, id) {
            let k = choose|k: int| 0 <= k < rest.len() && probed_id(host, #[trigger] rest[k], id);
            assert(probed_id(host, ds[k], id));
        }
        assert(after == before.push(e));
        assert(after[before.len() as int] == e);
    } else {
        assert(rest[j] == ds[j]);
        assert forall|k: int| 0 <= k < j implies !probed_id(host, #[trigger] rest[k], id) by {
            assert(rest[k] == ds[k]);
        }
        lemma_probes_first(cat, host, rest, j, id);
        let k = choose|k: int| 0 <= k < before.len() && before[k] == e;
        assert(after[k] == e);
    }
}

/// Hosts probed later leave what the catalog holds.
proof fn lemma_listing_keeps(hosts: Seq<ProbedHost>, n: int)
    requires
        0 <= n <= hosts.len(),
    ensures
        listing(hosts.take(n)).is_prefix_of(listing(hosts)),
    decreases hosts.len(),
{
    if n == hosts.len() {
        assert(hosts.take(n) =~= hosts);
    } else {
        let rest = hosts.drop_last();
        let host = hosts.last();
        lemma_listing_keeps(rest, n);
        assert(rest.take(n) =~= hosts.take(n));
        lemma_probes_keep(listing(rest), host, host.output_probes@);
        lemma_probes_keep(
            after_probes(listing(rest), host, host.output_probes@),
            host,
            host.input_probes@,
        );
    }
}

/// A device that no host before `n` saw is not in their catalog.
proof fn lemma_not_seen_before(hosts: Seq<ProbedHost>, n: int, id: Seq<char>)
    requires
        0 <= n <= hosts.len(),
        forall|h: int|
            0 <= h < n ==> !seen_in(hosts[h], (#[trigger] hosts[h]).output_probes@, id) && !seen_in(
                hosts[h],
                hosts[h].input_probes@,
                id,
            ),
    ensures
        !has_id(listing(hosts.take(n)), id),
{
    let part = hosts.take(n);
    law_catalog_is_union_of_probes(part, id);
    if seen(part, id) {
        let h = choose|h: int|
            0 <= h < part.len() && (seen_in(part[h], (#[trigger] part[h]).output_probes@, id)
                || seen_in(part[h], part[h].input_probes@, id));
        assert(hosts[h] == part[h]);
    }
}

/// The catalog holds a device as the first probe saw it: of the hosts the first that saw
/// it, of its passes those over outputs before those over inputs, and of these the first.
/// Here the first is an output pass.
pub proof fn law_first_output_sighting_counts(
    hosts: Seq<ProbedHost>,
    h: int,
    j: int,
    id: Seq<char>,
)
    requires
        0 <= h < hosts.len(),
        0 <= j < hosts[h].output_probes@.len(),
        probed_id(hosts[h], hosts[h].output_probes@[j], id),
        forall|k: int| 0 <= k < j ==> !probed_id(hosts[h], #[trigger] hosts[h].output_probes@[k], id),
        forall|g: int|
            0 <= g < h ==> !seen_in(hosts[g], (#[trigger] hosts[g]).output_probes@, id) && !seen_in(
                hosts[g],
                hosts[g].input_probes@,
                id,
            ),
    ensures
        listing(hosts).contains(entry_of(hosts[h], hosts[h].output_probes@[j])->Some_0),
{
    let host = hosts[h];
    let cat = listing(hosts.take(h));
    let mid = after_probes(cat, host, host.output_probes@);
    let e = entry_of(host, host.output_probes@[j])->Some_0;
    lemma_not_seen_before(hosts, h, id);
    lemma_probes_first(cat, host, host.output_probes@, j, id);
    lemma_probes_keep(mid, host, host.input_probes@);
    assert(hosts.take(h + 1).drop_last() =~= hosts.take(h));
    lemma_listing_keeps(hosts, h + 1);
    let k = choose|k: int| 0 <= k < mid.len() && mid[k] == e;
    assert(listing(hosts.take(h + 1))[k] == e);
    assert(listing(hosts)[k] == e);
}

/// The catalog holds a device as the first probe saw it; here that is an input pass.
pub proof fn law_first_input_sighting_counts(
    hosts: Seq<ProbedHost>,
    h: int,
    j: int,
    id: Seq<char>,
)
    requires
        0 <= h < hosts.len(),
        0 <= j < hosts[h].input_probes@.len(),
        probed_id(hosts[h], hosts[h].input_probes@[j], id),
        forall|k: int| 0 <= k < j ==> !probed_id(hosts[h], #[trigger] hosts[h].input_probes@[k], id),
        !seen_in(hosts[h], hosts[h].output_probes@, id),
        forall|g: int|
            0 <= g < h ==> !seen_in(hosts[g], (#[trigger] hosts[g]).output_probes@, id) && !seen_in(
                hosts[g],
                hosts[g].input_probes@,
                id,
            ),
    ensures
        listing(hosts).contains(entry_of(hosts[h], hosts[h].input_probes@[j])->Some_0),
{
    let host = hosts[h];
    let cat = listing(hosts.take(h));
    let mid = after_probes(cat, host, host.output_probes@);
    let end = after_probes(mid, host, host.input_probes@);
    let e = entry_of(host, host.input_probes@[j])->Some_0;
    lemma_not_seen_before(hosts, h, id);
    lemma_probes_union(cat, host, host.output_probes@, id);
    lemma_probes_first(mid, host, host.input_probes@, j, id);
    assert(hosts.take(h + 1).drop_last() =~= hosts.take(h));
    lemma_listing_keeps(hosts, h + 1);
    let k = choose|k: int| 0 <= k < end.len() && end[k] == e;
    assert(listing(hosts.take(h + 1))[k] == e);
    assert(listing(hosts)[k] == e);
}

/// The output devices are those of the entries that have an output side, in the order
/// of the entries: each entry adds its own, and the lists of two parts follow each other.
pub proof fn law_outputs_are_listed_in_order(a: Seq<EntryView>, b: Seq<EntryView>, e: EntryView)
    ensures
        outputs(a + b) == outputs(a) + outputs(b),
        e.output is None ==> outputs(seq![e]).len() == 0,
        e.output matches Some(i) ==> outputs(seq![e]) == seq![i],
    decreases b.len(),
{
    assert(seq![e].drop_last() =~= Seq::empty());
    assert(outputs(Seq::<EntryView>::empty()) =~= Seq::empty());
    reveal_with_fuel(outputs, 2);
    if b.len() == 0 {
        assert(a + b =~= a);
        assert(outputs(a) + outputs(b) =~= outputs(a));
    } else {
        law_outputs_are_listed_in_order(a, b.drop_last(), e);
        assert((a + b).drop_last() =~= a + b.drop_last());
        assert((a + b).last() == b.last());
        assert(outputs(a + b) =~= outputs(a) + outputs(b));
    }
}

/// The input devices are those of the entries that have an input side, in the order of
/// the entries.
pub proof fn law_inputs_are_listed_in_order(a: Seq<EntryView>, b: Seq<EntryView>, e: EntryView)
    ensures
        inputs(a + b) == inputs(a) + inputs(b),
        e.input is None ==> inputs(seq![e]).len() == 0,
        e.input matches Some(i) ==> inputs(seq![e]) == seq![i],
    decreases b.len(),
{
    assert(seq![e].drop_last() =~= Seq::empty());
    assert(inputs(Seq::<EntryView>::empty()) =~= Seq::empty());
    reveal_with_fuel(inputs, 2);
    if b.len() == 0 {
        assert(a + b =~= a);
        assert(inputs(a) + inputs(b) =~= inputs(a));
    } else {
        law_inputs_are_listed_in_order(a, b.drop_last(), e);
        assert((a + b).drop_last() =~= a + b.drop_last());
        assert((a + b).last() == b.last());
        assert(inputs(a + b) =~= inputs(a) + inputs(b));
    }
}

/// Is the device at `i` called `name`?
pub open spec fn called(ds: Seq<(Option<String>, usize)>, i: int, name: Seq<char>) -> bool {
    ds[i].0 is Some && ds[i].0->Some_0@ == name
}

/// A search by name gives the slot of the first device of that name, and nothing where
/// there is none.
pub proof fn law_search_gives_the_first_of_a_name(
    ds: Seq<(Option<String>, usize)>,
    name: Seq<char>,
    i: int,
)
    requires
        0 <= i <= ds.len(),
        forall|k: int| 0 <= k < i ==> !#[trigger] called(ds, k, name),
    ensures
        i < ds.len() && called(ds, i, name) ==> first_named(ds, name) == Some(ds[i].1),
        i == ds.len() ==> first_named(ds, name) is None,
    decreases ds.len(),
{
    if ds.len() > 0 && i > 0 {
        let rest = ds.drop_first();
        assert(!called(ds, 0, name));
        assert forall|k: int| 0 <= k < i - 1 implies !#[trigger] called(rest, k, name) by {
            assert(!called(ds, k + 1, name));
            assert(rest[k] == ds[k + 1]);
        }
        law_search_gives_the_first_of_a_name(rest, name, i - 1);
        if i < ds.len() && called(ds, i, name) {
            assert(rest[i - 1] == ds[i]);
        }
    }
}

/// The first host of a name.
proof fn lemma_first_host(hosts: Seq<HostListing>, name: Seq<char>, h: int)
    requires
        0 <= h <= hosts.len(),
        forall|k: int| 0 <= k < h ==> (#[trigger] hosts[k]).name@ != name,
    ensures
        h < hosts.len() && hosts[h].name@ == name ==> first_host(hosts, name) == Some(hosts[h]),
        h == hosts.len() ==> first_host(hosts, name) is None,
    decreases hosts.len(),
{
    if hosts.len() > 0 && h > 0 {
        let rest = hosts.drop_first();
        assert(hosts[0].name@ != name);
        assert forall|k: int| 0 <= k < h - 1 implies (#[trigger] rest[k]).name@ != name by {
            assert(rest[k] == hosts[k + 1]);
        }
        lemma_first_host(rest, name, h - 1);
        if h < hosts.len() {
            assert(rest[h - 1] == hosts[h]);
        }
    }
}

/// The first host of a name.
proof fn lemma_first_side(hosts: Seq<HostSide>, name: Seq<char>, h: int)
    requires
        0 <= h <= hosts.len(),
        forall|k: int| 0 <= k < h ==> (#[trigger] hosts[k]).name@ != name,
    ensures
        h < hosts.len() && hosts[h].name@ == name ==> first_side(hosts, name) == Some(hosts[h]),
        h == hosts.len() ==> first_side(hosts, name) is None,
    decreases hosts.len(),
{
    if hosts.len() > 0 && h > 0 {
        let rest = hosts.drop_first();
        assert(hosts[0].name@ != name);
        assert forall|k: int| 0 <= k < h - 1 implies (#[trigger] rest[k]).name@ != name by {
            assert(rest[k] == hosts[k + 1]);
        }
        lemma_first_side(rest, name, h - 1);
        if h < hosts.len() {
            assert(rest[h - 1] == hosts[h]);
        }
    }
}

/// The colon that splits an identifier.
proof fn lemma_colon(host: Seq<char>, name: Seq<char>)
    requires
        !host.contains(':'),
    ensures
        ({
            let id = host + ":"@ + name;
            let colon = choose|i: int| first_at(id, ':', i);
            &&& id.contains(':')
            &&& id.take(colon) == host
            &&& id.skip(colon + 1) == name
        }),
{
    law_id_round_trips(host, name);
    let id = encoded(host, name);
    let colon = choose|i: int| first_at(id, ':', i);
    assert(first_at(id, ':', host.len() as int));
    assert(colon == host.len());
    assert(id.contains(id[colon]));
}

/// A device that the first host of its host's name lists is found at the slot it is
/// listed with: among the outputs first, then among the inputs.
pub proof fn law_listed_device_is_found(
    hosts: Seq<HostListing>,
    h: int,
    name: Seq<char>,
    outs: Seq<(Option<String>, usize)>,
    ins: Seq<(Option<String>, usize)>,
    i: int,
)
    requires
        0 <= h < hosts.len(),
        !hosts[h].name@.contains(':'),
        forall|k: int| 0 <= k < h ==> (#[trigger] hosts[k]).name@ != hosts[h].name@,
        hosts[h].opened is Ok,
        outs == if hosts[h].outputs is Some { hosts[h].outputs->Some_0@ } else { Seq::empty() },
        ins == if hosts[h].inputs is Some { hosts[h].inputs->Some_0@ } else { Seq::empty() },
    ensures
        ({
            let found = found_in(hosts[h].name@ + ":"@ + name, hosts);
            &&& 0 <= i < outs.len() && called(outs, i, name) && (forall|k: int|
                0 <= k < i ==> !#[trigger] called(outs, k, name)) ==> (found matches Ok(s) && s
                == outs[i].1)
            &&& 0 <= i < ins.len() && called(ins, i, name) && (forall|k: int|
                0 <= k < i ==> !#[trigger] called(ins, k, name)) && (forall|k: int|
                0 <= k < outs.len() ==> !#[trigger] called(outs, k, name)) ==> (found matches Ok(s)
                && s == ins[i].1)
            &&& (forall|k: int| 0 <= k < outs.len() ==> !#[trigger] called(outs, k, name)) && (
            forall|k: int| 0 <= k < ins.len() ==> !#[trigger] called(ins, k, name)) ==> (
            found matches Err(DeviceFault::DeviceNotFound { id }) && id == hosts[h].name@ + ":"@
                + name)
        }),
{
    lemma_colon(hosts[h].name@, name);
    lemma_first_host(hosts, hosts[h].name@, h);
    if 0 <= i < outs.len() && (forall|k: int| 0 <= k < i ==> !#[trigger] called(outs, k, name)) {
        law_search_gives_the_first_of_a_name(outs, name, i);
    }
    if forall|k: int| 0 <= k < outs.len() ==> !#[trigger] called(outs, k, name) {
        law_search_gives_the_first_of_a_name(outs, name, outs.len() as int);
        if 0 <= i < ins.len() && (forall|k: int| 0 <= k < i ==> !#[trigger] called(ins, k, name)) {
            law_search_gives_the_first_of_a_name(ins, name, i);
        }
        if forall|k: int| 0 <= k < ins.len() ==> !#[trigger] called(ins, k, name) {
            law_search_gives_the_first_of_a_name(ins, name, ins.len() as int);
        }
    }
}

/// A device whose host is not listed, or whose identifier names no host, is not found.
pub proof fn law_unlisted_host_is_not_found(
    hosts: Seq<HostListing>,
    sides: Seq<HostSide>,
    host: Seq<char>,
    name: Seq<char>,
    id: Seq<char>,
)
    requires
        !id.contains(':') || (id == host + ":"@ + name && !host.contains(':')),
        forall|k: int| 0 <= k < hosts.len() ==> (#[trigger] hosts[k]).name@ != host,
        forall|k: int| 0 <= k < sides.len() ==> (#[trigger] sides[k]).name@ != host,
    ensures
        found_in(id, hosts) matches Err(DeviceFault::DeviceNotFound { id: i }) && i == id,
        found_on_side(id, sides) matches Err(DeviceFault::DeviceNotFound { id: i }) && i == id,
{
    if id.contains(':') {
        lemma_colon(host, name);
        lemma_first_host(hosts, host, hosts.len() as int);
        lemma_first_side(sides, host, sides.len() as int);
    }
}

/// A device that the first host of its host's name lists on one side is found there at
/// the slot it is listed with.
pub proof fn law_listed_device_is_found_on_its_side(
    hosts: Seq<HostSide>,
    h: int,
    name: Seq<char>,
    ds: Seq<(Option<String>, usize)>,
    i: int,
)
    requires
        0 <= h < hosts.len(),
        !hosts[h].name@.contains(':'),
        forall|k: int| 0 <= k < h ==> (#[trigger] hosts[k]).name@ != hosts[h].name@,
        hosts[h].opened is Ok,
        hosts[h].devices is Ok,
        ds == hosts[h].devices->Ok_0@,
        0 <= i <= ds.len(),
        forall|k: int| 0 <= k < i ==> !#[trigger] called(ds, k, name),
        i < ds.len() ==> called(ds, i, name),
    ensures
        ({
            let id = hosts[h].name@ + ":"@ + name;
            let found = found_on_side(id, hosts);
            &&& i < ds.len() ==> (found matches Ok(s) && s == ds[i].1)
            &&& i == ds.len() ==> (found matches Err(DeviceFault::DeviceNotFound { id: x }) && x
                == id)
        }),
{
    lemma_colon(hosts[h].name@, name);
    lemma_first_side(hosts, hosts[h].name@, h);
    law_search_gives_the_first_of_a_name(ds, name, i);
}

/// The entries of a catalog are its devices, in order, with both sides.
pub proof fn law_entries_hold_the_devices(ds: Seq<CachedDevice>, i: int)
    requires
        0 <= i < ds.len(),
    ensures
        entries(ds).len() == ds.len(),
        entries(ds)[i].id == ds[i].id.0@,
        entries(ds)[i].slot == ds[i].slot,
        entries(ds)[i].output is Some <==> ds[i].output_info is Some,
        entries(ds)[i].input is Some <==> ds[i].input_info is Some,
        ds[i].output_info is Some ==> entries(ds)[i].output->Some_0 == ds[i].output_info->Some_0@,
        ds[i].input_info is Some ==> entries(ds)[i].input->Some_0 == ds[i].input_info->Some_0@,
{
}

} // verus!
