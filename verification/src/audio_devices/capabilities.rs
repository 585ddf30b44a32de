//! From the configurations that a device offers to its capabilities.
use super::types::{DeviceError, DeviceFault, InputCapabilities, OutputCapabilities};
use vstd::prelude::*;
use vstd::string::*;

verus! {

/// One configuration that a device offers for one direction.
#[derive(Debug, Clone, Copy, PartialEq, Eq)]
pub struct ConfigRange {
    pub channels: u16,
    pub min_sample_rate: u32,
    pub max_sample_rate: u32,
    /// Smallest and largest buffer, where the device tells.
    pub buffer_size: Option<(u32, u32)>,
    /// Are its samples 32-bit floats?
    pub is_f32: bool,
}

/// The buffer size that is preferred where a device allows it.
pub const PREFERRED_BUFFER_SIZE: u32 = 256;

/// The sample rates that are looked for, in ascending order.
pub open spec fn common_rates() -> Seq<u32> {
    seq![44_100, 48_000, 88_200, 96_000, 176_400, 192_000]
}

/// The lowest sample rate in any configuration; the largest number where there
/// is none.
pub open spec fn lowest_rate(cs: Seq<ConfigRange>) -> u32
    decreases cs.len(),
{
    if cs.len() == 0 {
        u32::MAX
    } else {
        min_u32(lowest_rate(cs.drop_last()), cs.last().min_sample_rate)
    }
}

/// The highest sample rate in any configuration.
pub open spec fn highest_rate(cs: Seq<ConfigRange>) -> u32
    decreases cs.len(),
{
    if cs.len() == 0 {
        0
    } else {
        max_u32(highest_rate(cs.drop_last()), cs.last().max_sample_rate)
    }
}

/// The smallest buffer in any configuration that tells; the largest number where
/// none does.
pub open spec fn smallest_buffer(cs: Seq<ConfigRange>) -> u32
    decreases cs.len(),
{
    if cs.len() == 0 {
        u32::MAX
    } else {
        match cs.last().buffer_size {
            Some((min, max)) => min_u32(smallest_buffer(cs.drop_last()), min),
            None => smallest_buffer(cs.drop_last()),
        }
    }
}

/// The largest buffer in any configuration that tells.
pub open spec fn largest_buffer(cs: Seq<ConfigRange>) -> u32
    decreases cs.len(),
{
    if cs.len() == 0 {
        0
    } else {
        match cs.last().buffer_size {
            Some((min, max)) => max_u32(largest_buffer(cs.drop_last()), max),
            None => largest_buffer(cs.drop_last()),
        }
    }
}

/// Is `rate` in the range of some configuration?
pub open spec fn offers_rate(cs: Seq<ConfigRange>, rate: u32) -> bool {
    exists|i: int|
        0 <= i < cs.len() && (#[trigger] cs[i]).min_sample_rate <= rate <= cs[i].max_sample_rate
}

/// Does some configuration have `channels`?
pub open spec fn offers_channels(cs: Seq<ConfigRange>, channels: u16) -> bool {
    exists|i: int| 0 <= i < cs.len() && (#[trigger] cs[i]).channels == channels
}

/// `channels` are the channel counts that the configurations offer, each once, in
/// ascending order.
pub open spec fn are_channels(cs: Seq<ConfigRange>, channels: Seq<u16>) -> bool {
    &&& forall|i: int, j: int| 0 <= i < j < channels.len() ==> channels[i] < channels[j]
    &&& forall|c: u16| channels.contains(c) <==> offers_channels(cs, c)
}

pub open spec fn min_u32(a: u32, b: u32) -> u32 {
    if b < a {
        b
    } else {
        a
    }
}

pub open spec fn max_u32(a: u32, b: u32) -> u32 {
    if b > a {
        b
    } else {
        a
    }
}

/// A default buffer size within the range of a device: 256, moved up to `min` or
/// down to `max`; 256 where the range is not known.
pub open spec fn default_buffer(min: u32, max: u32) -> u32 {
    if min == 0 && max == 0 {
        PREFERRED_BUFFER_SIZE
    } else {
        min_u32(max_u32(PREFERRED_BUFFER_SIZE, min), max_u32(max, min))
    }
}

/// A default buffer size within the range of a device.
pub fn clamp_default_buffer_size(min: u32, max: u32) -> (r: u32)
    ensures
        r == default_buffer(min, max),
        max > 0 && min <= max ==> min <= r <= max,
{
    if min == 0 && max == 0 {
        return PREFERRED_BUFFER_SIZE;
    }
    let top: u32 = if max > min {
        max
    } else {
        min
    };
    if PREFERRED_BUFFER_SIZE < min {
        min
    } else if PREFERRED_BUFFER_SIZE > top {
        top
    } else {
        PREFERRED_BUFFER_SIZE
    }
}

/// What the configurations of one direction come to.
pub struct Summary {
    pub min_sample_rate: u32,
    pub max_sample_rate: u32,
    pub supported_sample_rates: Vec<u32>,
    pub min_buffer_size: u32,
    pub max_buffer_size: u32,
    pub channels: Vec<u16>,
}

impl Summary {
    /// The summary says what the configurations offer. A device that tells no
    /// buffer size gets the range from zero to zero.
    pub open spec fn describes(&self, cs: Seq<ConfigRange>) -> bool {
        &&& self.min_sample_rate == lowest_rate(cs)
        &&& self.max_sample_rate == highest_rate(cs)
        &&& self.supported_sample_rates@ == common_rates().filter(|r: u32| offers_rate(cs, r))
        &&& self.min_buffer_size == if smallest_buffer(cs) == u32::MAX {
            0
        } else {
            smallest_buffer(cs)
        }
        &&& self.max_buffer_size == largest_buffer(cs)
        &&& are_channels(cs, self.channels@)
    }
}

/// Is `rate` in the range of some configuration?
fn rate_offered(cs: &[ConfigRange], rate: u32) -> (r: bool)
    ensures
        r == offers_rate(cs@, rate),
{
    let mut i: usize = 0;
    while i < cs.len()
        invariant
            i <= cs@.len(),
            forall|k: int|
                0 <= k < i ==> !((#[trigger] cs@[k]).min_sample_rate <= rate
                    <= cs@[k].max_sample_rate),
        decreases cs@.len() - i,
    {
        if cs[i].min_sample_rate <= rate && rate <= cs[i].max_sample_rate {
            return true;
        }
        i += 1;
    }
    false
}

/// The common rates that some configuration offers, in ascending order.
fn offered_rates(cs: &[ConfigRange]) -> (r: Vec<u32>)
    ensures
        r@ == common_rates().filter(|x: u32| offers_rate(cs@, x)),
{
    let rates: [u32; 6] = [44_100, 48_000, 88_200, 96_000, 176_400, 192_000];
    let ghost pred = |x: u32| offers_rate(cs@, x);
    let mut out: Vec<u32> = Vec::new();
    let mut i: usize = 0;
    proof {
        assert(rates@ =~= common_rates());
        reveal(Seq::filter);
        assert(rates@.take(0).filter(pred) =~= Seq::empty());
    }
    while i < 6
        invariant
            i <= 6,
            rates@ == common_rates(),
            rates@.len() == 6,
            pred == (|x: u32| offers_rate(cs@, x)),
            out@ == rates@.take(i as int).filter(pred),
        decreases 6 - i,
    {
        let x: u32 = rates[i];
        proof {
            assert(rates@.take(i + 1).drop_last() =~= rates@.take(i as int));
            reveal(Seq::filter);
        }
        if rate_offered(cs, x) {
            out.push(x);
        }
        i += 1;
    }
    proof {
        assert(rates@.take(6) =~= rates@);
    }
    out
}

/// Puts `c` into its place, unless it is there.
fn insert_channel(v: &mut Vec<u16>, c: u16)
    requires
        forall|i: int, j: int| 0 <= i < j < old(v)@.len() ==> old(v)@[i] < old(v)@[j],
    ensures
        forall|i: int, j: int| 0 <= i < j < final(v)@.len() ==> final(v)@[i] < final(v)@[j],
        forall|x: u16| final(v)@.contains(x) <==> old(v)@.contains(x) || x == c,
{
    let mut i: usize = 0;
    while i < v.len() && v[i] < c
        invariant
            i <= v@.len(),
            v@ == old(v)@,
            forall|k: int| 0 <= k < i ==> #[trigger] v@[k] < c,
        decreases v@.len() - i,
    {
        i += 1;
    }
    let ghost before = v@;
    if i < v.len() && v[i] == c {
        proof {
            assert(before.contains(before[i as int]));
        }
        return;
    }
    v.insert(i, c);
    proof {
        let after = v@;
        assert(after[i as int] == c);
        assert forall|x: u16| after.contains(x) implies before.contains(x) || x == c by {
            let k = choose|k: int| 0 <= k < after.len() && after[k] == x;
            if k < i {
                assert(before[k] == x);
            } else if k > i {
                assert(before[k - 1] == x);
            }
        }
        assert forall|x: u16| before.contains(x) || x == c implies after.contains(x) by {
            if x != c {
                let k = choose|k: int| 0 <= k < before.len() && before[k] == x;
                if k < i {
                    assert(after[k] == x);
                } else {
                    assert(after[k + 1] == x);
                }
            }
        }
    }
}

/// What the configurations come to.
pub fn summarize(cs: &[ConfigRange]) -> (r: Summary)
    ensures
        r.describes(cs@),
{
    let mut min_rate: u32 = u32::MAX;
    let mut max_rate: u32 = 0;
    let mut min_buf: u32 = u32::MAX;
    let mut max_buf: u32 = 0;
    let mut channels: Vec<u16> = Vec::new();
    let mut i: usize = 0;
    while i < cs.len()
        invariant
            i <= cs@.len(),
            min_rate == lowest_rate(cs@.take(i as int)),
            max_rate == highest_rate(cs@.take(i as int)),
            min_buf == smallest_buffer(cs@.take(i as int)),
            max_buf == largest_buffer(cs@.take(i as int)),
            are_channels(cs@.take(i as int), channels@),
        decreases cs@.len() - i,
    {
        let c: ConfigRange = cs[i];
        if c.min_sample_rate < min_rate {
            min_rate = c.min_sample_rate;
        }
        if c.max_sample_rate > max_rate {
            max_rate = c.max_sample_rate;
        }
        if let Some((min, max)) = c.buffer_size {
            if min < min_buf {
                min_buf = min;
            }
            if max > max_buf {
                max_buf = max;
            }
        }
        let ghost before = channels@;
        insert_channel(&mut channels, c.channels);
        proof {
            let old_part = cs@.take(i as int);
            let part = cs@.take(i + 1);
            assert(part.drop_last() =~= old_part);
            assert(part.last() == c);
            assert forall|x: u16| channels@.contains(x) <==> offers_channels(part, x) by {
                if offers_channels(old_part, x) {
                    let k = choose|k: int|
                        0 <= k < old_part.len() && (#[trigger] old_part[k]).channels == x;
                    assert(part[k].channels == x);
                }
                if x == c.channels {
                    assert(part[i as int].channels == x);
                }
                if offers_channels(part, x) && x != c.channels {
                    let k = choose|k: int|
                        0 <= k < part.len() && (#[trigger] part[k]).channels == x;
                    assert(old_part[k].channels == x);
                }
            }
        }
        i += 1;
    }
    proof {
        assert(cs@.take(i as int) =~= cs@);
    }
    Summary {
        min_sample_rate: min_rate,
        max_sample_rate: max_rate,
        supported_sample_rates: offered_rates(cs),
        min_buffer_size: if min_buf == u32::MAX {
            0
        } else {
            min_buf
        },
        max_buffer_size: max_buf,
        channels,
    }
}

/// The capabilities say what the configurations offer, with this default rate
/// and default buffer.
pub open spec fn output_describes(
    c: OutputCapabilities,
    cs: Seq<ConfigRange>,
    default_rate: u32,
) -> bool {
    &&& (Summary {
        min_sample_rate: c.min_sample_rate,
        max_sample_rate: c.max_sample_rate,
        supported_sample_rates: c.supported_sample_rates,
        min_buffer_size: c.min_buffer_size,
        max_buffer_size: c.max_buffer_size,
        channels: c.channels,
    }).describes(cs)
    &&& c.default_sample_rate == default_rate
    &&& c.default_buffer_size == PREFERRED_BUFFER_SIZE
}

/// The capabilities say what the configurations offer, with this default rate
/// and a default buffer within the device's range.
pub open spec fn input_describes(
    c: InputCapabilities,
    cs: Seq<ConfigRange>,
    default_rate: u32,
) -> bool {
    &&& (Summary {
        min_sample_rate: c.min_sample_rate,
        max_sample_rate: c.max_sample_rate,
        supported_sample_rates: c.supported_sample_rates,
        min_buffer_size: c.min_buffer_size,
        max_buffer_size: c.max_buffer_size,
        channels: c.channels,
    }).describes(cs)
    &&& c.default_sample_rate == default_rate
    &&& c.default_buffer_size == default_buffer(c.min_buffer_size, c.max_buffer_size)
}

/// What an output device can do, or why that is not known, given what its backend
/// answered: the configurations, and the default configuration's sample rate.
pub open spec fn output_answered(
    supported: Result<Vec<ConfigRange>, String>,
    default_rate: Result<u32, String>,
    r: Result<OutputCapabilities, DeviceError>,
) -> bool {
    match supported {
        Err(e) => r matches Err(f) && f@ == (DeviceFault::BackendError(
            "supported_output_configs: "@ + e@,
        )),
        Ok(cs) => if cs@.len() == 0 {
            r matches Err(f) && f@ == (DeviceFault::BackendError(
                "device exposes no supported output configs"@,
            ))
        } else {
            match default_rate {
                Err(e) => r matches Err(f) && f@ == (DeviceFault::BackendError(
                    "default_output_config: "@ + e@,
                )),
                Ok(rate) => r matches Ok(c) && output_describes(c, cs@, rate),
            }
        },
    }
}

/// Capabilities of an output device, from what its backend answered: the
/// configurations, and the default configuration's sample rate.
pub fn output_capabilities_for_device(
    supported: Result<Vec<ConfigRange>, String>,
    default_rate: Result<u32, String>,
) -> (r: Result<OutputCapabilities, DeviceError>)
    ensures
        output_answered(supported, default_rate, r),
{
    let cs: Vec<ConfigRange> = match supported {
        Err(e) => {
            return Err(
                DeviceError::BackendError(
                    "supported_output_configs: ".to_owned().concat(e.as_str()),
                ),
            );
        },
        Ok(cs) => cs,
    };
    if cs.len() == 0 {
        return Err(
            DeviceError::BackendError("device exposes no supported output configs".to_owned()),
        );
    }
    match default_rate {
        Err(e) => Err(
            DeviceError::BackendError("default_output_config: ".to_owned().concat(e.as_str())),
        ),
        Ok(rate) => {
            let s: Summary = summarize(cs.as_slice());
            Ok(
                OutputCapabilities {
                    min_sample_rate: s.min_sample_rate,
                    max_sample_rate: s.max_sample_rate,
                    supported_sample_rates: s.supported_sample_rates,
                    min_buffer_size: s.min_buffer_size,
                    max_buffer_size: s.max_buffer_size,
                    channels: s.channels,
                    default_sample_rate: rate,
                    default_buffer_size: PREFERRED_BUFFER_SIZE,
                },
            )
        },
    }
}

/// What an input device can do, or why that is not known, given what its backend
/// answered: the configurations, and the default configuration's sample rate.
pub open spec fn input_answered(
    supported: Result<Vec<ConfigRange>, String>,
    default_rate: Result<u32, String>,
    r: Result<InputCapabilities, DeviceError>,
) -> bool {
    match supported {
        Err(e) => r matches Err(f) && f@ == (DeviceFault::BackendError(
            "supported_input_configs: "@ + e@,
        )),
        Ok(cs) => if cs@.len() == 0 {
            r matches Err(f) && f@ == (DeviceFault::BackendError(
                "device exposes no supported input configs"@,
            ))
        } else {
            match default_rate {
                Err(e) => r matches Err(f) && f@ == (DeviceFault::BackendError(
                    "default_input_config: "@ + e@,
                )),
                Ok(rate) => r matches Ok(c) && input_describes(c, cs@, rate),
            }
        },
    }
}

/// Capabilities of an input device, from what its backend answered.
pub fn input_capabilities_for_device(
    supported: Result<Vec<ConfigRange>, String>,
    default_rate: Result<u32, String>,
) -> (r: Result<InputCapabilities, DeviceError>)
    ensures
        input_answered(supported, default_rate, r),
{
    let cs: Vec<ConfigRange> = match supported {
        Err(e) => {
            return Err(
                DeviceError::BackendError(
                    "supported_input_configs: ".to_owned().concat(e.as_str()),
                ),
            );
        },
        Ok(cs) => cs,
    };
    if cs.len() == 0 {
        return Err(
            DeviceError::BackendError("device exposes no supported input configs".to_owned()),
        );
    }
    match default_rate {
        Err(e) => Err(
            DeviceError::BackendError("default_input_config: ".to_owned().concat(e.as_str())),
        ),
        Ok(rate) => {
            let s: Summary = summarize(cs.as_slice());
            let default_buffer_size: u32 = clamp_default_buffer_size(
                s.min_buffer_size,
                s.max_buffer_size,
            );
            Ok(
                InputCapabilities {
                    min_sample_rate: s.min_sample_rate,
                    max_sample_rate: s.max_sample_rate,
                    supported_sample_rates: s.supported_sample_rates,
                    min_buffer_size: s.min_buffer_size,
                    max_buffer_size: s.max_buffer_size,
                    channels: s.channels,
                    default_sample_rate: rate,
                    default_buffer_size,
                },
            )
        },
    }
}

/// The lowest and the highest rate bound every configuration and are each one's own.
proof fn lemma_rates(cs: Seq<ConfigRange>)
    ensures
        forall|i: int|
            0 <= i < cs.len() ==> lowest_rate(cs) <= (#[trigger] cs[i]).min_sample_rate
                && highest_rate(cs) >= cs[i].max_sample_rate,
        cs.len() > 0 ==> exists|i: int|
            0 <= i < cs.len() && lowest_rate(cs) == (#[trigger] cs[i]).min_sample_rate,
        cs.len() > 0 ==> exists|i: int|
            0 <= i < cs.len() && highest_rate(cs) == (#[trigger] cs[i]).max_sample_rate,
    decreases cs.len(),
{
    if cs.len() > 0 {
        let rest = cs.drop_last();
        lemma_rates(rest);
        let last = cs.len() - 1;
        assert(cs[last] == cs.last());
        assert forall|i: int| 0 <= i < cs.len() implies lowest_rate(cs) <= (
        #[trigger] cs[i]).min_sample_rate && highest_rate(cs) >= cs[i].max_sample_rate by {
            if i < last {
                assert(rest[i] == cs[i]);
            }
        }
        if lowest_rate(cs) != cs[last].min_sample_rate {
            let i = choose|i: int|
                0 <= i < rest.len() && lowest_rate(rest) == (#[trigger] rest[i]).min_sample_rate;
            assert(cs[i] == rest[i]);
        }
        if highest_rate(cs) != cs[last].max_sample_rate {
            let i = choose|i: int|
                0 <= i < rest.len() && highest_rate(rest) == (#[trigger] rest[i]).max_sample_rate;
            assert(cs[i] == rest[i]);
        }
    }
}

/// The smallest and the largest buffer bound every configuration that tells, and are
/// each one's own where they are not where the search began.
proof fn lemma_buffers(cs: Seq<ConfigRange>)
    ensures
        forall|i: int|
            0 <= i < cs.len() ==> ((#[trigger] cs[i]).buffer_size matches Some((min, max))
                ==> smallest_buffer(cs) <= min && largest_buffer(cs) >= max),
        smallest_buffer(cs) != u32::MAX ==> exists|i: int|
            0 <= i < cs.len() && ((#[trigger] cs[i]).buffer_size matches Some((min, max)) && min
                == smallest_buffer(cs)),
        largest_buffer(cs) != 0 ==> exists|i: int|
            0 <= i < cs.len() && ((#[trigger] cs[i]).buffer_size matches Some((min, max)) && max
                == largest_buffer(cs)),
    decreases cs.len(),
{
    if cs.len() > 0 {
        let rest = cs.drop_last();
        lemma_buffers(rest);
        let last = cs.len() - 1;
        assert(cs[last] == cs.last());
        assert forall|i: int| 0 <= i < cs.len() implies ((#[trigger] cs[i]).buffer_size matches Some(
            (min, max),
        ) ==> smallest_buffer(cs) <= min && largest_buffer(cs) >= max) by {
            if i < last {
                assert(rest[i] == cs[i]);
            }
        }
        if smallest_buffer(cs) != u32::MAX && smallest_buffer(cs) == smallest_buffer(rest) {
            let i = choose|i: int|
                0 <= i < rest.len() && ((#[trigger] rest[i]).buffer_size matches Some((min, max))
                    && min == smallest_buffer(rest));
            assert(cs[i] == rest[i]);
        }
        if largest_buffer(cs) != 0 && largest_buffer(cs) == largest_buffer(rest) {
            let i = choose|i: int|
                0 <= i < rest.len() && ((#[trigger] rest[i]).buffer_size matches Some((min, max))
                    && max == largest_buffer(rest));
            assert(cs[i] == rest[i]);
        }
    }
}

/// What is kept of ascending numbers is ascending.
proof fn lemma_filter_ascends(s: Seq<u32>, keep: spec_fn(u32) -> bool)
    requires
        forall|i: int, j: int| 0 <= i < j < s.len() ==> s[i] < s[j],
    ensures
        forall|i: int, j: int|
            0 <= i < j < s.filter(keep).len() ==> s.filter(keep)[i] < s.filter(keep)[j],
    decreases s.len(),
{
    reveal(Seq::filter);
    if s.len() > 0 {
        let rest = s.drop_last();
        lemma_filter_ascends(rest, keep);
        assert forall|i: int| 0 <= i < rest.filter(keep).len() implies #[trigger] rest.filter(
            keep,
        )[i] < s.last() by {
            let x = rest.filter(keep)[i];
            assert(rest.filter(keep).contains(x));
            rest.lemma_filter_contains_rev(keep, x);
            let k = choose|k: int| 0 <= k < rest.len() && rest[k] == x;
            assert(s[k] == x);
            assert(s[s.len() - 1] == s.last());
        }
    }
}

/// The bounds of a summary's sample rates: no configuration begins below the lowest or
/// ends above the highest, and each of the two is some configuration's own.
pub proof fn law_summary_spans_the_rates(cs: Vec<ConfigRange>, s: Summary)
    requires
        cs@.len() > 0,
        s.describes(cs@),
    ensures
        forall|i: int|
            0 <= i < cs@.len() ==> s.min_sample_rate <= (#[trigger] cs@[i]).min_sample_rate,
        exists|i: int|
            0 <= i < cs@.len() && s.min_sample_rate == (#[trigger] cs@[i]).min_sample_rate,
        forall|i: int|
            0 <= i < cs@.len() ==> s.max_sample_rate >= (#[trigger] cs@[i]).max_sample_rate,
        exists|i: int|
            0 <= i < cs@.len() && s.max_sample_rate == (#[trigger] cs@[i]).max_sample_rate,
{
    lemma_rates(cs@);
}

/// The bounds of a summary's buffer sizes: no configuration that tells begins below
/// the smallest or ends above the largest, and each of the two is some configuration's
/// own; where none tells, both are zero.
pub proof fn law_summary_spans_the_buffers(cs: Vec<ConfigRange>, s: Summary)
    requires
        s.describes(cs@),
    ensures
        forall|i: int|
            0 <= i < cs@.len() ==> ((#[trigger] cs@[i]).buffer_size matches Some((min, max))
                ==> s.min_buffer_size <= min && s.max_buffer_size >= max),
        (exists|i: int|
            0 <= i < cs@.len() && ((#[trigger] cs@[i]).buffer_size matches Some((min, max)) && min
                < 0xFFFF_FFFF)) ==> exists|i: int|
            0 <= i < cs@.len() && ((#[trigger] cs@[i]).buffer_size matches Some((min, max)) && min
                == s.min_buffer_size),
        (exists|i: int| 0 <= i < cs@.len() && (#[trigger] cs@[i]).buffer_size is Some) ==> exists|
            i: int,
        |
            0 <= i < cs@.len() && ((#[trigger] cs@[i]).buffer_size matches Some((min, max)) && max
                == s.max_buffer_size),
        (forall|i: int| 0 <= i < cs@.len() ==> (#[trigger] cs@[i]).buffer_size is None)
            ==> s.min_buffer_size == 0 && s.max_buffer_size == 0,
{
    lemma_buffers(cs@);
    if s.max_buffer_size == 0 && exists|i: int|
        0 <= i < cs@.len() && (#[trigger] cs@[i]).buffer_size is Some {
        let i = choose|i: int| 0 <= i < cs@.len() && (#[trigger] cs@[i]).buffer_size is Some;
        assert(cs@[i].buffer_size->Some_0.1 == 0);
    }
}

/// The sample rates of a summary are those of the six common ones that lie in some
/// configuration's range, in ascending order.
pub proof fn law_summary_lists_the_common_rates(cs: Vec<ConfigRange>, s: Summary, rate: u32)
    requires
        s.describes(cs@),
    ensures
        s.supported_sample_rates@.contains(rate) <==> (rate == 44_100 || rate == 48_000 || rate
            == 88_200 || rate == 96_000 || rate == 176_400 || rate == 192_000) && exists|i: int|
            0 <= i < cs@.len() && (#[trigger] cs@[i]).min_sample_rate <= rate
                <= cs@[i].max_sample_rate,
        forall|i: int, j: int|
            0 <= i < j < s.supported_sample_rates@.len() ==> s.supported_sample_rates@[i]
                < s.supported_sample_rates@[j],
{
    let all = common_rates();
    let keep = |r: u32| offers_rate(cs@, r);
    lemma_filter_ascends(all, keep);
    let kept = all.filter(keep);
    if kept.contains(rate) {
        let k = choose|k: int| 0 <= k < kept.len() && kept[k] == rate;
        all.lemma_filter_pred(keep, k);
        all.lemma_filter_contains_rev(keep, rate);
    }
    if all.contains(rate) && keep(rate) {
        let k = choose|k: int| 0 <= k < all.len() && all[k] == rate;
        all.lemma_filter_contains(keep, k);
    }
    assert(all[0] == 44_100 && all[1] == 48_000 && all[2] == 88_200 && all[3] == 96_000 && all[4]
        == 176_400 && all[5] == 192_000);
}

/// The channel counts of a summary are those of the configurations, each once, in
/// ascending order.
pub proof fn law_summary_lists_the_channels(cs: Vec<ConfigRange>, s: Summary, channels: u16)
    requires
        s.describes(cs@),
    ensures
        s.channels@.contains(channels) <==> exists|i: int|
            0 <= i < cs@.len() && (#[trigger] cs@[i]).channels == channels,
        forall|i: int, j: int|
            0 <= i < j < s.channels@.len() ==> s.channels@[i] < s.channels@[j],
{
}

/// An output device that answers has the summary of its configurations, its own
/// default rate, and 256 as its default buffer size.
pub proof fn law_output_capabilities_span_the_configurations(
    cs: Vec<ConfigRange>,
    rate: u32,
    r: Result<OutputCapabilities, DeviceError>,
)
    requires
        cs@.len() > 0,
        output_answered(Ok(cs), Ok(rate), r),
    ensures
        r is Ok,
        r->Ok_0.default_sample_rate == rate,
        r->Ok_0.default_buffer_size == 256,
        forall|i: int|
            0 <= i < cs@.len() ==> r->Ok_0.min_sample_rate <= (#[trigger] cs@[i]).min_sample_rate,
        exists|i: int|
            0 <= i < cs@.len() && r->Ok_0.min_sample_rate == (#[trigger] cs@[i]).min_sample_rate,
        forall|i: int|
            0 <= i < cs@.len() ==> r->Ok_0.max_sample_rate >= (#[trigger] cs@[i]).max_sample_rate,
        exists|i: int|
            0 <= i < cs@.len() && r->Ok_0.max_sample_rate == (#[trigger] cs@[i]).max_sample_rate,
        (Summary {
            min_sample_rate: r->Ok_0.min_sample_rate,
            max_sample_rate: r->Ok_0.max_sample_rate,
            supported_sample_rates: r->Ok_0.supported_sample_rates,
            min_buffer_size: r->Ok_0.min_buffer_size,
            max_buffer_size: r->Ok_0.max_buffer_size,
            channels: r->Ok_0.channels,
        }).describes(cs@),
{
    lemma_rates(cs@);
}

/// An input device that answers has the summary of its configurations, its own default
/// rate, and a default buffer size of 256 as far as its own bounds allow it.
pub proof fn law_input_capabilities_span_the_configurations(
    cs: Vec<ConfigRange>,
    rate: u32,
    r: Result<InputCapabilities, DeviceError>,
)
    requires
        cs@.len() > 0,
        input_answered(Ok(cs), Ok(rate), r),
    ensures
        r is Ok,
        r->Ok_0.default_sample_rate == rate,
        r->Ok_0.min_buffer_size <= 256 <= r->Ok_0.max_buffer_size
            ==> r->Ok_0.default_buffer_size == 256,
        r->Ok_0.min_buffer_size > 256 ==> r->Ok_0.default_buffer_size == r->Ok_0.min_buffer_size,
        0 < r->Ok_0.max_buffer_size < 256 && r->Ok_0.min_buffer_size <= r->Ok_0.max_buffer_size
            ==> r->Ok_0.default_buffer_size == r->Ok_0.max_buffer_size,
        forall|i: int|
            0 <= i < cs@.len() ==> r->Ok_0.min_sample_rate <= (#[trigger] cs@[i]).min_sample_rate,
        exists|i: int|
            0 <= i < cs@.len() && r->Ok_0.min_sample_rate == (#[trigger] cs@[i]).min_sample_rate,
        forall|i: int|
            0 <= i < cs@.len() ==> r->Ok_0.max_sample_rate >= (#[trigger] cs@[i]).max_sample_rate,
        exists|i: int|
            0 <= i < cs@.len() && r->Ok_0.max_sample_rate == (#[trigger] cs@[i]).max_sample_rate,
        (Summary {
            min_sample_rate: r->Ok_0.min_sample_rate,
            max_sample_rate: r->Ok_0.max_sample_rate,
            supported_sample_rates: r->Ok_0.supported_sample_rates,
            min_buffer_size: r->Ok_0.min_buffer_size,
            max_buffer_size: r->Ok_0.max_buffer_size,
            channels: r->Ok_0.channels,
        }).describes(cs@),
{
    lemma_rates(cs@);
}

/// The default buffer size is 256 where a device's range holds it or is not known, and
/// else the end of the range that is nearer; of a range whose bounds are exchanged, the
/// lower bound counts.
pub proof fn law_default_buffer_is_nearest_to_256(min: u32, max: u32)
    ensures
        min == 0 && max == 0 ==> default_buffer(min, max) == 256,
        min <= 256 <= max ==> default_buffer(min, max) == 256,
        min > 256 ==> default_buffer(min, max) == min,
        0 < max < 256 && min <= max ==> default_buffer(min, max) == max,
        max < min <= 256 ==> default_buffer(min, max) == min,
{
}

/// Capabilities are known exactly where the backend told at least one configuration and
/// the rate of the default one; every other answer is the backend's error.
pub proof fn law_capabilities_need_configurations(
    supported: Result<Vec<ConfigRange>, String>,
    default_rate: Result<u32, String>,
    o: Result<OutputCapabilities, DeviceError>,
    i: Result<InputCapabilities, DeviceError>,
)
    ensures
        output_answered(supported, default_rate, o) ==> (o is Ok <==> supported is Ok
            && supported->Ok_0@.len() > 0 && default_rate is Ok) && (o is Err
            ==> o->Err_0 is BackendError),
        input_answered(supported, default_rate, i) ==> (i is Ok <==> supported is Ok
            && supported->Ok_0@.len() > 0 && default_rate is Ok) && (i is Err
            ==> i->Err_0 is BackendError),
{
}

/// What is said where the capabilities of a device are not known: which question its
/// backend did not answer, and why.
pub proof fn law_unknown_capabilities_say_why(
    supported: Result<Vec<ConfigRange>, String>,
    default_rate: Result<u32, String>,
    o: Result<OutputCapabilities, DeviceError>,
    i: Result<InputCapabilities, DeviceError>,
)
    requires
        output_answered(supported, default_rate, o),
        input_answered(supported, default_rate, i),
    ensures
        supported matches Err(e) ==> o->Err_0->BackendError_0@ == "supported_output_configs: "@ + e@
            && i->Err_0->BackendError_0@ == "supported_input_configs: "@ + e@,
        supported is Ok && supported->Ok_0@.len() == 0 ==> o->Err_0->BackendError_0@
            == "device exposes no supported output configs"@ && i->Err_0->BackendError_0@
            == "device exposes no supported input configs"@,
        supported is Ok && supported->Ok_0@.len() > 0 && default_rate is Err
            ==> o->Err_0->BackendError_0@ == "default_output_config: "@ + default_rate->Err_0@
            && i->Err_0->BackendError_0@ == "default_input_config: "@ + default_rate->Err_0@,
{
}

} // verus!
