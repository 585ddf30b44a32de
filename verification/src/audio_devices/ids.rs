//! Device identifiers and host names.
use super::types::{Backend, BackendKind};
use crate::text::{find_char, first_at, same_text};
use vstd::prelude::*;
use vstd::string::*;

verus! {

/// The identifier of device `name` on `host`.
pub open spec fn encoded(host: Seq<char>, name: Seq<char>) -> Seq<char> {
    host + ":"@ + name
}

/// The identifier of device `name` on `host`.
pub fn encode_id(host: &str, name: &str) -> (r: String)
    ensures
        r@ == encoded(host@, name@),
{
    let mut s: String = host.to_owned();
    s.append(":");
    s.append(name);
    s
}

/// Splits an identifier at its first colon into the host's name and the
/// device's.
pub fn decode_id(s: &str) -> (r: Option<(&str, &str)>)
    ensures
        r is Some <==> s@.contains(':'),
        r matches Some((host, name)) ==> {
            &&& first_at(s@, ':', host@.len() as int)
            &&& host@ == s@.take(host@.len() as int)
            &&& name@ == s@.skip(host@.len() as int + 1)
        },
{
    match find_char(s, ':') {
        None => None,
        Some(i) => {
            let n: usize = s.unicode_len();
            proof {
                assert(s@.contains(s@[i as int]));
            }
            Some((s.substring_char(0, i), s.substring_char(i + 1, n)))
        },
    }
}

/// A host's backend: unknown hosts keep their name.
pub open spec fn backend_of(host: Seq<char>) -> BackendKind {
    if host == "ALSA"@ {
        BackendKind::Alsa
    } else if host == "JACK"@ {
        BackendKind::Jack
    } else if host == "CoreAudio"@ {
        BackendKind::CoreAudio
    } else if host == "WASAPI"@ {
        BackendKind::Wasapi
    } else if host == "ASIO"@ {
        BackendKind::Asio
    } else {
        BackendKind::Other(host)
    }
}

/// A host's backend: unknown hosts keep their name.
pub fn host_id_to_backend(host: &str) -> (r: Backend)
    ensures
        r@ == backend_of(host@),
{
    if same_text(host, "ALSA") {
        Backend::Alsa
    } else if same_text(host, "JACK") {
        Backend::Jack
    } else if same_text(host, "CoreAudio") {
        Backend::CoreAudio
    } else if same_text(host, "WASAPI") {
        Backend::Wasapi
    } else if same_text(host, "ASIO") {
        Backend::Asio
    } else {
        Backend::Other(host.to_owned())
    }
}

/// An identifier decodes to the host and device it was made of, whatever the
/// device's name, as long as the host's name has no colon.
pub proof fn law_id_round_trips(host: Seq<char>, name: Seq<char>)
    requires
        !host.contains(':'),
    ensures
        ({
            let s = encoded(host, name);
            &&& s.contains(':')
            &&& first_at(s, ':', host.len() as int)
            &&& s.take(host.len() as int) == host
            &&& s.skip(host.len() as int + 1) == name
        }),
{
    reveal_strlit(":");
    let s = encoded(host, name);
    assert(s[host.len() as int] == ':');
    assert forall|k: int| 0 <= k < host.len() implies s[k] != ':' by {
        assert(s[k] == host[k]);
        assert(host.contains(host[k]));
    }
    assert(s.take(host.len() as int) =~= host);
    assert(s.skip(host.len() as int + 1) =~= name);
}

/// On hosts without a colon in their names, different devices have different
/// identifiers.
pub proof fn law_ids_are_distinct(h1: Seq<char>, n1: Seq<char>, h2: Seq<char>, n2: Seq<char>)
    requires
        !h1.contains(':'),
        !h2.contains(':'),
        encoded(h1, n1) == encoded(h2, n2),
    ensures
        h1 == h2,
        n1 == n2,
{
    law_id_round_trips(h1, n1);
    law_id_round_trips(h2, n2);
    let s = encoded(h1, n1);
    assert(h1.len() == h2.len());
    assert(s.skip(h1.len() as int + 1) == n1);
}

/// Five hosts are known by name, each as its own backend; every other keeps its name.
pub proof fn law_hosts_have_their_backends(host: Seq<char>)
    ensures
        host == "ALSA"@ ==> backend_of(host) is Alsa,
        host == "JACK"@ ==> backend_of(host) is Jack,
        host == "CoreAudio"@ ==> backend_of(host) is CoreAudio,
        host == "WASAPI"@ ==> backend_of(host) is Wasapi,
        host == "ASIO"@ ==> backend_of(host) is Asio,
        host != "ALSA"@ && host != "JACK"@ && host != "CoreAudio"@ && host != "WASAPI"@ && host
            != "ASIO"@ ==> backend_of(host) == BackendKind::Other(host),
{
    reveal_strlit("ALSA");
    reveal_strlit("JACK");
    reveal_strlit("CoreAudio");
    reveal_strlit("WASAPI");
    reveal_strlit("ASIO");
    assert("ALSA"@[0] == 'A' && "ALSA"@[1] == 'L');
    assert("ASIO"@[0] == 'A' && "ASIO"@[1] == 'S');
    assert("JACK"@[0] == 'J');
    assert("CoreAudio"@[0] == 'C');
    assert("WASAPI"@[0] == 'W');
}

} // verus!
