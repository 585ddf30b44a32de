//! Friendly device names, and the format that the shell records in.
use crate::audio_devices::types::{
    Backend, BackendKind, BufferSize, DeviceId, InputCapabilities, InputDeviceInfo,
    OutputDeviceInfo,
};
use crate::player::handle::has_rate;
use crate::recorder::handle::has_channels;
use crate::recorder::RecordingSpec;
use crate::strings::{pieces, split, texts, trim, trimmed};
use crate::text::{debug_quoted, find_char, first_at, quoted, same_text};
use vstd::prelude::*;
use vstd::string::*;

verus! {

/// Does `pat` stand in `s` at `i`?
pub open spec fn occurs(s: Seq<char>, pat: Seq<char>, i: int) -> bool {
    0 <= i && i + pat.len() <= s.len() && s.subrange(i, i + pat.len()) == pat
}

/// Where `pat` stands last in `s`, at `i` or before; a negative number where it
/// does not.
pub open spec fn last_from(s: Seq<char>, pat: Seq<char>, i: int) -> int
    decreases i + 1,
{
    if i < 0 {
        -1
    } else if occurs(s, pat, i) {
        i
    } else {
        last_from(s, pat, i - 1)
    }
}

/// `s` up to the first `c`, or all of it.
pub open spec fn up_to(s: Seq<char>, c: char) -> Seq<char>
    decreases s.len(),
{
    if s.len() == 0 || s[0] == c {
        Seq::empty()
    } else {
        seq![s[0]] + up_to(s.drop_first(), c)
    }
}

/// The short name of a card, between the first brackets of its header line;
/// `None` where the line is no header.
pub open spec fn short_name(header: Seq<char>) -> Option<Seq<char>> {
    if !header.contains('[') || !header.contains(']') {
        None
    } else {
        let open = up_to(header, '[').len() as int;
        let close = up_to(header, ']').len() as int;
        if close <= open + 1 {
            None
        } else {
            Some(trimmed(header.subrange(open + 1, close)))
        }
    }
}

/// The long name of a card, on the line behind its header: what stands before the
/// last ` at `.
pub open spec fn long_name(detail: Seq<char>) -> Seq<char> {
    let d = trimmed(detail);
    let i = last_from(d, " at "@, d.len() as int);
    if i < 0 {
        d
    } else {
        trimmed(d.take(i))
    }
}

/// The cards in the lines of `/proc/asound/cards` from line `i` on: short and long
/// name, in the order in which they come.
pub open spec fn cards_from(lines: Seq<Seq<char>>, i: int) -> Seq<(Seq<char>, Seq<char>)>
    decreases lines.len() - i,
{
    if i >= lines.len() {
        Seq::empty()
    } else {
        match short_name(lines[i]) {
            None => cards_from(lines, i + 1),
            Some(short) => if i + 1 >= lines.len() {
                Seq::empty()
            } else {
                let long = long_name(lines[i + 1]);
                if short.len() > 0 && long.len() > 0 {
                    seq![(short, long)] + cards_from(lines, i + 2)
                } else {
                    cards_from(lines, i + 2)
                }
            },
        }
    }
}

/// The long name of a card; a later card of the same short name wins.
pub open spec fn card_named(cards: Seq<(Seq<char>, Seq<char>)>, short: Seq<char>) -> Option<
    Seq<char>,
>
    decreases cards.len(),
{
    if cards.len() == 0 {
        None
    } else if cards.last().0 == short {
        Some(cards.last().1)
    } else {
        card_named(cards.drop_last(), short)
    }
}

/// The friendly name of a device of the shape `hw:CARD=X,DEV=Y`: that of card `X`.
/// Names of any other shape have none, such as `default` and those of the plug
/// layer (`dmix:CARD=X,DEV=Y`).
pub open spec fn friendly(name: Seq<char>, cards: Seq<(Seq<char>, Seq<char>)>) -> Option<Seq<char>> {
    let card = up_to(name.skip(8), ',');
    if occurs(name, "hw:CARD="@, 0) && occurs(name, ",DEV="@, 8 + card.len() as int) {
        card_named(cards, card)
    } else {
        None
    }
}

/// A sound card.
#[derive(Debug)]
pub struct CardName {
    pub short: String,
    pub long: String,
}

/// The cards' names as sequences.
pub open spec fn card_texts(cards: Seq<CardName>) -> Seq<(Seq<char>, Seq<char>)> {
    Seq::new(cards.len(), |i: int| (cards[i].short@, cards[i].long@))
}

/// Does `pat` stand in `s` at `i`?
fn occurs_at(s: &str, pat: &str, i: usize) -> (r: bool)
    requires
        i <= s@.len(),
    ensures
        r == occurs(s@, pat@, i as int),
{
    let n: usize = s.unicode_len();
    let m: usize = pat.unicode_len();
    if m > n - i {
        return false;
    }
    same_text(s.substring_char(i, i + m), pat)
}

/// Where `pat` stands last in `s`.
fn find_last(s: &str, pat: &str) -> (r: Option<usize>)
    ensures
        match r {
            Some(i) => last_from(s@, pat@, s@.len() as int) == i && i <= s@.len(),
            None => last_from(s@, pat@, s@.len() as int) < 0,
        },
{
    let n: usize = s.unicode_len();
    let mut i: usize = n;
    loop
        invariant
            i <= n,
            n == s@.len(),
            last_from(s@, pat@, n as int) == last_from(s@, pat@, i as int),
        decreases i,
    {
        if occurs_at(s, pat, i) {
            return Some(i);
        }
        if i == 0 {
            proof {
                assert(last_from(s@, pat@, -1) < 0);
            }
            return None;
        }
        i -= 1;
    }
}

proof fn lemma_up_to(s: Seq<char>, c: char, i: int)
    requires
        first_at(s, c, i) || (i == s.len() && !s.contains(c)),
    ensures
        up_to(s, c) == s.take(i),
    decreases s.len(),
{
    if s.len() == 0 {
        assert(s.take(i) =~= Seq::empty());
    } else if s[0] == c {
        assert(s.contains(s[0]));
        assert(i == 0);
        assert(s.take(0) =~= Seq::empty());
    } else {
        let rest = s.drop_first();
        if first_at(s, c, i) {
            assert(first_at(rest, c, i - 1)) by {
                assert forall|k: int| 0 <= k < i - 1 implies rest[k] != c by {
                    assert(s[k + 1] != c);
                }
            }
        } else {
            assert(!rest.contains(c)) by {
                if rest.contains(c) {
                    let k = choose|k: int| 0 <= k < rest.len() && rest[k] == c;
                    assert(s[k + 1] == c);
                }
            }
        }
        lemma_up_to(rest, c, i - 1);
        assert(seq![s[0]] + rest.take(i - 1) =~= s.take(i));
    }
}

proof fn lemma_up_to_len(s: Seq<char>, c: char)
    ensures
        up_to(s, c).len() <= s.len(),
    decreases s.len(),
{
    if s.len() > 0 && s[0] != c {
        lemma_up_to_len(s.drop_first(), c);
    }
}

/// `s` up to the first `c`, or all of it.
fn head_up_to(s: &str, c: char) -> (r: &str)
    ensures
        r@ == up_to(s@, c),
{
    match find_char(s, c) {
        Some(i) => {
            proof {
                lemma_up_to(s@, c, i as int);
            }
            s.substring_char(0, i)
        },
        None => {
            proof {
                lemma_up_to(s@, c, s@.len() as int);
                assert(s@.take(s@.len() as int) =~= s@);
            }
            s
        },
    }
}

/// The short name of a card from its header line.
fn header_short_name(header: &str) -> (r: Option<&str>)
    ensures
        match short_name(header@) {
            Some(s) => r matches Some(x) && x@ == s,
            None => r is None,
        },
{
    let open: usize = match find_char(header, '[') {
        None => {
            return None;
        },
        Some(i) => i,
    };
    let close: usize = match find_char(header, ']') {
        None => {
            return None;
        },
        Some(i) => i,
    };
    proof {
        lemma_up_to(header@, '[', open as int);
        lemma_up_to(header@, ']', close as int);
        assert(header@.contains(header@[open as int]));
        assert(header@.contains(header@[close as int]));
    }
    if close <= open || close - open <= 1 {
        return None;
    }
    Some(trim(header.substring_char(open + 1, close)))
}

/// The long name of a card from its detail line.
fn detail_long_name(detail: &str) -> (r: &str)
    ensures
        r@ == long_name(detail@),
{
    let d: &str = trim(detail);
    match find_last(d, " at ") {
        None => d,
        Some(i) => trim(d.substring_char(0, i)),
    }
}

/// The cards in the contents of `/proc/asound/cards`.
pub fn read_alsa_card_long_names(contents: &str) -> (r: Vec<CardName>)
    ensures
        card_texts(r@) == cards_from(pieces(contents@, '\n'), 0),
{
    let lines: Vec<String> = split(contents, '\n');
    let ghost all = texts(lines@);
    let mut out: Vec<CardName> = Vec::new();
    let mut i: usize = 0;
    proof {
        assert(card_texts(out@) =~= Seq::empty());
        assert(card_texts(out@) + cards_from(all, 0) =~= cards_from(all, 0));
    }
    while i < lines.len()
        invariant
            i <= lines@.len(),
            all == texts(lines@),
            all == pieces(contents@, '\n'),
            card_texts(out@) + cards_from(all, i as int) == cards_from(all, 0),
        decreases lines@.len() - i,
    {
        proof {
            assert(all[i as int] == lines@[i as int]@);
        }
        match header_short_name(lines[i].as_str()) {
            None => {
                i += 1;
            },
            Some(short) => {
                if i + 1 >= lines.len() {
                    proof {
                        assert(card_texts(out@) + Seq::empty() =~= card_texts(out@));
                    }
                    return out;
                }
                let long: &str = detail_long_name(lines[i + 1].as_str());
                proof {
                    assert(all[i + 1] == lines@[i + 1]@);
                }
                if short.unicode_len() > 0 && long.unicode_len() > 0 {
                    let ghost before = out@;
                    out.push(CardName { short: short.to_owned(), long: long.to_owned() });
                    proof {
                        assert(card_texts(out@) =~= card_texts(before).push((short@, long@)));
                        assert(card_texts(out@) + cards_from(all, i + 2) =~= card_texts(before)
                            + cards_from(all, i as int));
                    }
                }
                i += 2;
            },
        }
    }
    proof {
        assert(card_texts(out@) + Seq::empty() =~= card_texts(out@));
    }
    out
}

/// The friendly name of a device, where its name is of the shape `hw:CARD=X,DEV=Y`
/// and tells a known card.
pub fn alsa_friendly_name(name: &str, cards: &Vec<CardName>) -> (r: Option<String>)
    ensures
        match friendly(name@, card_texts(cards@)) {
            Some(s) => r matches Some(x) && x@ == s,
            None => r is None,
        },
{
    if !occurs_at(name, "hw:CARD=", 0) {
        return None;
    }
    proof {
        reveal_strlit("hw:CARD=");
    }
    let n: usize = name.unicode_len();
    let after: &str = name.substring_char(8, n);
    proof {
        assert(after@ =~= name@.skip(8));
        lemma_up_to_len(after@, ',');
    }
    let card: &str = head_up_to(after, ',');
    if !occurs_at(name, ",DEV=", 8 + card.unicode_len()) {
        return None;
    }
    let ghost all = card_texts(cards@);
    let mut i: usize = cards.len();
    proof {
        assert(all.take(i as int) =~= all);
    }
    while i > 0
        invariant
            i <= cards@.len(),
            all == card_texts(cards@),
            card_named(all, card@) == card_named(all.take(i as int), card@),
            friendly(name@, all) == card_named(all, card@),
        decreases i,
    {
        i -= 1;
        proof {
            assert(all.take(i + 1).drop_last() =~= all.take(i as int));
            assert(all.take(i + 1).last() == (cards@[i as int].short@, cards@[i as int].long@));
        }
        if same_text(cards[i].short.as_str(), card) {
            return Some(cards[i].long.clone());
        }
    }
    None
}

/// How a backend prints for debugging.
pub open spec fn backend_text(b: BackendKind) -> Seq<char> {
    match b {
        BackendKind::Alsa => "Alsa"@,
        BackendKind::PipeWire => "PipeWire"@,
        BackendKind::Jack => "Jack"@,
        BackendKind::CoreAudio => "CoreAudio"@,
        BackendKind::Wasapi => "Wasapi"@,
        BackendKind::Asio => "Asio"@,
        BackendKind::Other(name) => "Other("@ + debug_quoted(name) + ")"@,
    }
}

/// How a backend prints for debugging.
pub fn backend_name(b: &Backend) -> (r: String)
    ensures
        r@ == backend_text(b@),
{
    match b {
        Backend::Alsa => "Alsa".to_owned(),
        Backend::PipeWire => "PipeWire".to_owned(),
        Backend::Jack => "Jack".to_owned(),
        Backend::CoreAudio => "CoreAudio".to_owned(),
        Backend::Wasapi => "Wasapi".to_owned(),
        Backend::Asio => "Asio".to_owned(),
        Backend::Other(name) => {
            let q: String = quoted(name.as_str());
            let mut s: String = "Other(".to_owned();
            s.append(q.as_str());
            s.append(")");
            s
        },
    }
}

/// A device as the shell shows it.
#[derive(Debug)]
pub struct ShownDevice {
    pub device_id: String,
    pub name: String,
    pub friendly_name: Option<String>,
    pub backend: String,
    pub is_default: bool,
    pub max_channels: u16,
}

impl ShownDevice {
    /// It shows a device of this identifier, name and backend.
    pub open spec fn shows(
        &self,
        id: DeviceId,
        name: String,
        backend: Backend,
        cards: Seq<CardName>,
    ) -> bool {
        &&& self.device_id == id.0
        &&& self.name == name
        &&& self.backend@ == backend_text(backend@)
        &&& match friendly(name@, card_texts(cards)) {
            Some(s) => self.friendly_name matches Some(x) && x@ == s,
            None => self.friendly_name is None,
        }
    }
}

/// An output device as the shell shows it.
pub fn shown_output(d: OutputDeviceInfo, cards: &Vec<CardName>) -> (r: ShownDevice)
    ensures
        r.shows(d.id, d.name, d.backend, cards@),
        r.is_default == d.is_default_output,
        r.max_channels == d.max_output_channels,
{
    ShownDevice {
        friendly_name: alsa_friendly_name(d.name.as_str(), cards),
        backend: backend_name(&d.backend),
        device_id: d.id.0,
        name: d.name,
        is_default: d.is_default_output,
        max_channels: d.max_output_channels,
    }
}

/// An input device as the shell shows it.
pub fn shown_input(d: InputDeviceInfo, cards: &Vec<CardName>) -> (r: ShownDevice)
    ensures
        r.shows(d.id, d.name, d.backend, cards@),
        r.is_default == d.is_default_input,
        r.max_channels == d.max_input_channels,
{
    ShownDevice {
        friendly_name: alsa_friendly_name(d.name.as_str(), cards),
        backend: backend_name(&d.backend),
        device_id: d.id.0,
        name: d.name,
        is_default: d.is_default_input,
        max_channels: d.max_input_channels,
    }
}

/// What the shell records on a device: 48 kHz where the device has it, else its
/// default rate; stereo where it has it, else mono.
pub fn recording_spec(id: DeviceId, caps: &InputCapabilities) -> (r: RecordingSpec)
    ensures
        r == (RecordingSpec {
            device_id: id,
            sample_rate: if caps.supported_sample_rates@.contains(48_000) {
                48_000
            } else {
                caps.default_sample_rate
            },
            buffer_size: BufferSize::Default,
            channels: if caps.channels@.contains(2) {
                2
            } else {
                1
            },
        }),
{
    let sample_rate: u32 = if has_rate(&caps.supported_sample_rates, 48_000) {
        48_000
    } else {
        caps.default_sample_rate
    };
    let channels: u16 = if has_channels(&caps.channels, 2) {
        2
    } else {
        1
    };
    RecordingSpec { device_id: id, sample_rate, buffer_size: BufferSize::Default, channels }
}

/// What stands before the first `c` holds no `c`, and `c` or nothing comes behind it.
pub proof fn law_text_before_a_character(s: Seq<char>, c: char)
    ensures
        up_to(s, c).is_prefix_of(s),
        !up_to(s, c).contains(c),
        up_to(s, c).len() < s.len() ==> s[up_to(s, c).len() as int] == c,
    decreases s.len(),
{
    if s.len() > 0 && s[0] != c {
        let rest = s.drop_first();
        law_text_before_a_character(rest, c);
        let head = up_to(s, c);
        assert(head =~= seq![s[0]] + up_to(rest, c));
        assert forall|i: int| 0 <= i < head.len() implies head[i] == s[i] && head[i] != c by {
            if i > 0 {
                assert(head[i] == up_to(rest, c)[i - 1]);
                assert(rest[i - 1] == s[i]);
                assert(up_to(rest, c).contains(up_to(rest, c)[i - 1]));
            }
        }
        assert(head =~= s.take(head.len() as int));
        if head.len() < s.len() {
            assert(rest[up_to(rest, c).len() as int] == s[head.len() as int]);
        }
    }
}

/// The last place of a pattern is a place of it, and none comes behind.
pub proof fn law_last_place_of_a_pattern(s: Seq<char>, pat: Seq<char>, i: int, k: int)
    requires
        -1 <= i,
        0 <= k <= i,
    ensures
        last_from(s, pat, i) <= i,
        last_from(s, pat, i) >= 0 ==> occurs(s, pat, last_from(s, pat, i)),
        occurs(s, pat, k) ==> k <= last_from(s, pat, i),
    decreases i,
{
    if i == 0 {
        assert(last_from(s, pat, -1) == -1);
    } else if !occurs(s, pat, i) {
        if k < i {
            law_last_place_of_a_pattern(s, pat, i - 1, k);
        } else {
            law_last_place_of_a_pattern(s, pat, i - 1, i - 1);
        }
    }
}

/// A card's short name is what stands between the first brackets of its header line,
/// trimmed.
pub proof fn law_short_name_is_in_the_brackets(
    before: Seq<char>,
    name: Seq<char>,
    behind: Seq<char>,
)
    requires
        !before.contains('['),
        !before.contains(']'),
        !name.contains(']'),
        name.len() > 0,
    ensures
        short_name(before + seq!['['] + name + seq![']'] + behind) == Some(trimmed(name)),
{
    let h = before + seq!['['] + name + seq![']'] + behind;
    let open = before.len() as int;
    let close = open + 1 + name.len();
    assert(h[open] == '[');
    assert(h[close] == ']');
    assert(h.contains(h[open]) && h.contains(h[close]));
    assert forall|k: int| 0 <= k < open implies h[k] != '[' && h[k] != ']' by {
        assert(h[k] == before[k]);
        assert(before.contains(before[k]));
    }
    assert forall|k: int| 0 <= k < close implies h[k] != ']' by {
        if k > open {
            assert(h[k] == name[k - open - 1]);
            assert(name.contains(name[k - open - 1]));
        }
    }
    lemma_up_to(h, '[', open);
    lemma_up_to(h, ']', close);
    assert(h.subrange(open + 1, close) =~= name);
}

/// The name of a card is the long name of the last card of its short name; where there
/// is none, there is no name.
pub proof fn law_later_cards_win(cards: Seq<(Seq<char>, Seq<char>)>, short: Seq<char>, i: int)
    requires
        -1 <= i < cards.len(),
        forall|k: int| i < k < cards.len() ==> (#[trigger] cards[k]).0 != short,
    ensures
        i >= 0 && cards[i].0 == short ==> card_named(cards, short) == Some(cards[i].1),
        i < 0 ==> card_named(cards, short) is None,
    decreases cards.len(),
{
    if cards.len() > 0 && i < cards.len() - 1 {
        assert(cards[cards.len() - 1].0 != short);
        assert forall|k: int| i < k < cards.drop_last().len() implies (
        #[trigger] cards.drop_last()[k]).0 != short by {
            assert(cards.drop_last()[k] == cards[k]);
        }
        law_later_cards_win(cards.drop_last(), short, i);
    }
}

/// A device called `hw:CARD=X,DEV=Y` has the name of card `X`; a device whose name
/// begins otherwise has no friendly name.
pub proof fn law_friendly_name_is_the_cards(
    card: Seq<char>,
    device: Seq<char>,
    name: Seq<char>,
    cards: Seq<(Seq<char>, Seq<char>)>,
)
    requires
        !card.contains(','),
    ensures
        friendly("hw:CARD="@ + card + ",DEV="@ + device, cards) == card_named(cards, card),
        !"hw:CARD="@.is_prefix_of(name) ==> friendly(name, cards) is None,
{
    reveal_strlit("hw:CARD=");
    reveal_strlit(",DEV=");
    let n = "hw:CARD="@ + card + ",DEV="@ + device;
    let rest = n.skip(8);
    let m = card.len() as int;
    assert(n.subrange(0, 8) =~= "hw:CARD="@);
    assert(rest[m] == ',');
    assert forall|k: int| 0 <= k < m implies rest[k] != ',' by {
        assert(rest[k] == card[k]);
        assert(card.contains(card[k]));
    }
    lemma_up_to(rest, ',', m);
    assert(rest.take(m) =~= card);
    assert(n.subrange(8 + m, 8 + m + 5) =~= ",DEV="@);
    if occurs(name, "hw:CARD="@, 0) {
        assert(name.subrange(0, 8) =~= name.take(8));
    }
}

/// A card's long name is what stands before the last ` at ` of its detail line, trimmed.
pub proof fn law_long_name_ends_before_at(head: Seq<char>, tail: Seq<char>)
    requires
        trimmed(head + " at "@ + tail) == head + " at "@ + tail,
        forall|k: int| k > head.len() ==> !#[trigger] occurs(head + " at "@ + tail, " at "@, k),
    ensures
        long_name(head + " at "@ + tail) == trimmed(head),
{
    let d = head + " at "@ + tail;
    let at = head.len() as int;
    assert(d.subrange(at, at + " at "@.len()) =~= " at "@);
    assert(occurs(d, " at "@, at));
    let i = last_from(d, " at "@, d.len() as int);
    law_last_place_of_a_pattern(d, " at "@, d.len() as int, at);
    assert(i == at);
    assert(d.take(at) =~= head);
}

/// Without an ` at ` the whole detail line, trimmed, is the long name.
pub proof fn law_long_name_without_at_is_the_line(detail: Seq<char>)
    requires
        forall|k: int| !#[trigger] occurs(trimmed(detail), " at "@, k),
    ensures
        long_name(detail) == trimmed(detail),
{
    let d = trimmed(detail);
    law_last_place_of_a_pattern(d, " at "@, d.len() as int, 0);
}

/// The cards of lines that come in pairs, a header with a bracketed name and a detail
/// line, are one for each pair, in order, by the names that the two lines tell.
pub proof fn law_cards_come_in_pairs(lines: Seq<Seq<char>>, i: int, n: int)
    requires
        0 <= i,
        0 <= n,
        i + 2 * n == lines.len(),
        forall|k: int|
            0 <= k < n ==> (short_name(#[trigger] lines[i + 2 * k]) matches Some(s) && s.len() > 0),
        forall|k: int| 0 <= k < n ==> long_name(#[trigger] lines[i + 2 * k + 1]).len() > 0,
    ensures
        cards_from(lines, i).len() == n,
        forall|k: int|
            0 <= k < n ==> #[trigger] cards_from(lines, i)[k] == (
                short_name(lines[i + 2 * k])->Some_0,
                long_name(lines[i + 2 * k + 1]),
            ),
    decreases n,
{
    if n > 0 {
        assert(short_name(lines[i + 2 * 0]) is Some);
        assert(long_name(lines[i + 2 * 0 + 1]).len() > 0);
        assert forall|k: int| 0 <= k < n - 1 implies (short_name(
            #[trigger] lines[i + 2 + 2 * k],
        ) matches Some(s) && s.len() > 0) by {
            assert(lines[i + 2 + 2 * k] == lines[i + 2 * (k + 1)]);
        }
        assert forall|k: int| 0 <= k < n - 1 implies long_name(
            #[trigger] lines[i + 2 + 2 * k + 1],
        ).len() > 0 by {
            assert(lines[i + 2 + 2 * k + 1] == lines[i + 2 * (k + 1) + 1]);
        }
        law_cards_come_in_pairs(lines, i + 2, n - 1);
        let rest = cards_from(lines, i + 2);
        let all = cards_from(lines, i);
        assert(all == seq![
            (short_name(lines[i])->Some_0, long_name(lines[i + 1])),
        ] + rest);
        assert forall|k: int| 0 <= k < n implies #[trigger] all[k] == (
            short_name(lines[i + 2 * k])->Some_0,
            long_name(lines[i + 2 * k + 1]),
        ) by {
            if k > 0 {
                assert(all[k] == rest[k - 1]);
                assert(i + 2 + 2 * (k - 1) == i + 2 * k);
            }
        }
    }
}

/// Lines that are no headers tell no cards.
pub proof fn law_other_lines_tell_no_cards(lines: Seq<Seq<char>>, i: int)
    requires
        0 <= i,
        forall|k: int| i <= k < lines.len() ==> short_name(#[trigger] lines[k]) is None,
    ensures
        cards_from(lines, i).len() == 0,
    decreases lines.len() - i,
{
    if i < lines.len() {
        law_other_lines_tell_no_cards(lines, i + 1);
    }
}

/// A line without brackets, or with nothing between the first ones, is no header.
pub proof fn law_headers_have_brackets(header: Seq<char>)
    ensures
        !header.contains('[') || !header.contains(']') ==> short_name(header) is None,
{
}

/// What the shell shows of a device: its identifier, its name, its backend, and a
/// friendly name exactly where it has one.
pub proof fn law_shown_device_is_the_device(
    d: ShownDevice,
    id: DeviceId,
    name: String,
    backend: Backend,
    cards: Seq<CardName>,
)
    requires
        d.shows(id, name, backend, cards),
    ensures
        d.device_id@ == id.0@,
        d.name@ == name@,
        d.friendly_name is Some <==> friendly(name@, card_texts(cards)) is Some,
        d.friendly_name is Some ==> d.friendly_name->Some_0@ == friendly(
            name@,
            card_texts(cards),
        )->Some_0,
        backend is Alsa ==> d.backend@ == "Alsa"@,
        backend is PipeWire ==> d.backend@ == "PipeWire"@,
        backend is Jack ==> d.backend@ == "Jack"@,
        backend is CoreAudio ==> d.backend@ == "CoreAudio"@,
        backend is Wasapi ==> d.backend@ == "Wasapi"@,
        backend is Asio ==> d.backend@ == "Asio"@,
{
}

/// Cards keep their order and their names.
pub proof fn law_card_texts_are_in_order(cards: Seq<CardName>, i: int)
    requires
        0 <= i < cards.len(),
    ensures
        card_texts(cards).len() == cards.len(),
        card_texts(cards)[i].0 == cards[i].short@,
        card_texts(cards)[i].1 == cards[i].long@,
{
}

/// A device called `hw:CARD=X` and then something other than `,DEV=` has no friendly
/// name.
pub proof fn law_cards_without_device_have_no_friendly_name(
    card: Seq<char>,
    rest: Seq<char>,
    cards: Seq<(Seq<char>, Seq<char>)>,
)
    requires
        !card.contains(','),
        rest.len() == 0 || rest[0] == ',',
        !",DEV="@.is_prefix_of(rest),
    ensures
        friendly("hw:CARD="@ + card + rest, cards) is None,
{
    reveal_strlit("hw:CARD=");
    reveal_strlit(",DEV=");
    let n = "hw:CARD="@ + card + rest;
    let behind = n.skip(8);
    let m = card.len() as int;
    assert(behind =~= card + rest);
    assert forall|k: int| 0 <= k < m implies behind[k] != ',' by {
        assert(behind[k] == card[k]);
        assert(card.contains(card[k]));
    }
    if rest.len() == 0 {
        assert(!behind.contains(','));
    } else {
        assert(behind[m] == ',');
    }
    lemma_up_to(behind, ',', m);
    if occurs(n, ",DEV="@, 8 + m) {
        assert(rest.take(5) =~= n.subrange(8 + m, 8 + m + 5));
        assert(rest =~= rest.take(5) + rest.skip(5));
    }
}

/// Brackets with nothing between them, or that close before they open, tell no name.
pub proof fn law_empty_brackets_tell_no_name(before: Seq<char>, behind: Seq<char>)
    requires
        !before.contains('['),
        !before.contains(']'),
    ensures
        short_name(before + seq!['[', ']'] + behind) is None,
        short_name(before + seq![']'] + behind) is None,
{
    let h = before + seq!['[', ']'] + behind;
    let n = before.len() as int;
    assert forall|k: int| 0 <= k < n implies h[k] != '[' && h[k] != ']' by {
        assert(h[k] == before[k]);
        assert(before.contains(before[k]));
    }
    assert(h[n] == '[' && h[n + 1] == ']');
    lemma_up_to(h, '[', n);
    lemma_up_to(h, ']', n + 1);
    let g = before + seq![']'] + behind;
    assert forall|k: int| 0 <= k < n implies g[k] != '[' && g[k] != ']' by {
        assert(g[k] == before[k]);
        assert(before.contains(before[k]));
    }
    assert(g[n] == ']');
    lemma_up_to(g, ']', n);
    law_text_before_a_character(g, '[');
    if up_to(g, '[').len() < n && g.contains('[') {
        assert(g[up_to(g, '[').len() as int] == '[');
    }
}

} // verus!
