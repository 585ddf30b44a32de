//! What the tool servers have in common: tool errors, and which tools are on.
use crate::strings::{pieces, split, texts, trim, trimmed};
use crate::text::same_text;
use vstd::prelude::*;
use vstd::string::*;

verus! {

/// The kind of a tool error, as the wire protocol knows it.
#[derive(Debug, Clone, Copy, PartialEq, Eq, Structural)]
pub enum ErrorCode {
    InvalidParams,
    InvalidRequest,
    InternalError,
}

/// A refused or failed tool call.
#[derive(Debug)]
pub struct ToolError {
    pub code: ErrorCode,
    pub message: String,
}

impl ToolError {
    /// Is it this error?
    pub open spec fn says(&self, code: ErrorCode, message: Seq<char>) -> bool {
        self.code == code && self.message@ == message
    }

    pub fn invalid_params(message: String) -> (r: ToolError)
        ensures
            r.says(ErrorCode::InvalidParams, message@),
    {
        ToolError { code: ErrorCode::InvalidParams, message }
    }

    pub fn invalid_request(message: String) -> (r: ToolError)
        ensures
            r.says(ErrorCode::InvalidRequest, message@),
    {
        ToolError { code: ErrorCode::InvalidRequest, message }
    }

    pub fn internal_error(message: String) -> (r: ToolError)
        ensures
            r.says(ErrorCode::InternalError, message@),
    {
        ToolError { code: ErrorCode::InternalError, message }
    }
}

/// The names in a list of pieces: trimmed, without empty ones, each once, in the
/// order in which they come first.
pub open spec fn names_in(ps: Seq<Seq<char>>) -> Seq<Seq<char>>
    decreases ps.len(),
{
    if ps.len() == 0 {
        Seq::empty()
    } else {
        let before = names_in(ps.drop_last());
        let name = trimmed(ps.last());
        if name.len() == 0 || before.contains(name) {
            before
        } else {
            before.push(name)
        }
    }
}

/// Is `name` among `names`?
pub fn has_name(names: &Vec<String>, name: &str) -> (r: bool)
    ensures
        r == texts(names@).contains(name@),
{
    let mut i: usize = 0;
    while i < names.len()
        invariant
            i <= names@.len(),
            forall|k: int| 0 <= k < i ==> #[trigger] texts(names@)[k] != name@,
        decreases names@.len() - i,
    {
        if same_text(names[i].as_str(), name) {
            proof {
                assert(texts(names@)[i as int] == name@);
            }
            return true;
        }
        proof {
            assert(texts(names@)[i as int] != name@);
        }
        i += 1;
    }
    false
}

/// The tool names in a comma-separated list; `None` where the list is not there
/// or names nothing, in which case all tools are on.
pub fn parse_tools(raw: Option<&str>) -> (r: Option<Vec<String>>)
    ensures
        match raw {
            None => r is None,
            Some(s) => {
                let names = names_in(pieces(s@, ','));
                if names.len() == 0 {
                    r is None
                } else {
                    r matches Some(v) && texts(v@) == names
                }
            },
        },
{
    let raw: &str = match raw {
        None => {
            return None;
        },
        Some(s) => s,
    };
    let ps: Vec<String> = split(raw, ',');
    let mut out: Vec<String> = Vec::new();
    let mut i: usize = 0;
    let ghost all = texts(ps@);
    proof {
        assert(all.take(0) =~= Seq::empty());
        assert(texts(out@) =~= Seq::empty());
    }
    while i < ps.len()
        invariant
            i <= ps@.len(),
            all == texts(ps@),
            texts(out@) == names_in(all.take(i as int)),
        decreases ps@.len() - i,
    {
        let name: &str = trim(ps[i].as_str());
        proof {
            assert(all.take(i + 1).drop_last() =~= all.take(i as int));
            assert(all.take(i + 1).last() == ps@[i as int]@);
        }
        if name.unicode_len() > 0 && !has_name(&out, name) {
            let ghost before = out@;
            out.push(name.to_owned());
            proof {
                assert(texts(out@) =~= texts(before).push(name@));
            }
        }
        i += 1;
    }
    proof {
        assert(all.take(i as int) =~= all);
    }
    if out.len() == 0 {
        None
    } else {
        Some(out)
    }
}

/// Those of `known` that are in `allowed`, in the order of `known`.
pub open spec fn enabled_of(known: Seq<Seq<char>>, allowed: Seq<Seq<char>>) -> Seq<Seq<char>>
    decreases known.len(),
{
    if known.len() == 0 {
        Seq::empty()
    } else {
        let before = enabled_of(known.drop_last(), allowed);
        if allowed.contains(known.last()) {
            before.push(known.last())
        } else {
            before
        }
    }
}

/// The known tools that are allowed. Names that are not known are ignored.
pub fn enabled_tools(known: &Vec<String>, allowed: &Vec<String>) -> (r: Vec<String>)
    ensures
        texts(r@) == enabled_of(texts(known@), texts(allowed@)),
{
    let mut out: Vec<String> = Vec::new();
    let mut i: usize = 0;
    let ghost all = texts(known@);
    proof {
        assert(all.take(0) =~= Seq::empty());
        assert(texts(out@) =~= Seq::empty());
    }
    while i < known.len()
        invariant
            i <= known@.len(),
            all == texts(known@),
            texts(out@) == enabled_of(all.take(i as int), texts(allowed@)),
        decreases known@.len() - i,
    {
        proof {
            assert(all.take(i + 1).drop_last() =~= all.take(i as int));
            assert(all.take(i + 1).last() == known@[i as int]@);
        }
        if has_name(allowed, known[i].as_str()) {
            let ghost before = out@;
            out.push(known[i].clone());
            proof {
                assert(texts(out@) =~= texts(before).push(known@[i as int]@));
            }
        }
        i += 1;
    }
    proof {
        assert(all.take(i as int) =~= all);
    }
    out
}

/// A tool is on exactly where it is known and allowed.
pub proof fn law_enabled_is_intersection(
    known: Seq<Seq<char>>,
    allowed: Seq<Seq<char>>,
    name: Seq<char>,
)
    ensures
        enabled_of(known, allowed).contains(name) <==> known.contains(name) && allowed.contains(
            name,
        ),
    decreases known.len(),
{
    if known.len() > 0 {
        let before = enabled_of(known.drop_last(), allowed);
        let after = enabled_of(known, allowed);
        law_enabled_is_intersection(known.drop_last(), allowed, name);
        if known.contains(name) && known.last() != name {
            let k = choose|k: int| 0 <= k < known.len() && known[k] == name;
            assert(known.drop_last()[k] == name);
        }
        if known.drop_last().contains(name) {
            let k = choose|k: int|
                0 <= k < known.drop_last().len() && known.drop_last()[k] == name;
            assert(known[k] == name);
        }
        assert(known.contains(known.last())) by {
            assert(known[known.len() - 1] == known.last());
        }
        if before.contains(name) {
            let k = choose|k: int| 0 <= k < before.len() && before[k] == name;
            assert(after[k] == name);
        }
        if allowed.contains(known.last()) {
            assert(after[before.len() as int] == known.last());
        }
        if after.contains(name) && !before.contains(name) {
            let k = choose|k: int| 0 <= k < after.len() && after[k] == name;
            if k < before.len() {
                assert(before[k] == name);
            }
        }
    }
}

/// The names in a list are its pieces, trimmed, but for the empty ones, and no name
/// comes twice.
pub proof fn law_names_are_the_trimmed_pieces(ps: Seq<Seq<char>>, name: Seq<char>)
    ensures
        names_in(ps).contains(name) <==> name.len() > 0 && exists|i: int|
            0 <= i < ps.len() && trimmed(#[trigger] ps[i]) == name,
        forall|i: int, j: int|
            0 <= i < j < names_in(ps).len() ==> names_in(ps)[i] != names_in(ps)[j],
    decreases ps.len(),
{
    if ps.len() > 0 {
        let rest = ps.drop_last();
        let before = names_in(rest);
        let after = names_in(ps);
        law_names_are_the_trimmed_pieces(rest, name);
        assert(ps[ps.len() - 1] == ps.last());
        if exists|i: int| 0 <= i < rest.len() && trimmed(#[trigger] rest[i]) == name {
            let i = choose|i: int| 0 <= i < rest.len() && trimmed(#[trigger] rest[i]) == name;
            assert(ps[i] == rest[i]);
        }
        if exists|i: int| 0 <= i < ps.len() && trimmed(#[trigger] ps[i]) == name {
            let i = choose|i: int| 0 <= i < ps.len() && trimmed(#[trigger] ps[i]) == name;
            if i < rest.len() {
                assert(rest[i] == ps[i]);
            }
        }
        if before.contains(name) {
            let k = choose|k: int| 0 <= k < before.len() && before[k] == name;
            assert(after[k] == name);
        }
        if after.len() > before.len() {
            assert(after[before.len() as int] == trimmed(ps.last()));
            assert forall|i: int, j: int| 0 <= i < j < after.len() implies after[i] != after[j] by {
                if j == before.len() {
                    assert(before[i] == after[i]);
                    assert(before.contains(before[i]));
                }
            }
            if after.contains(name) && !before.contains(name) {
                let k = choose|k: int| 0 <= k < after.len() && after[k] == name;
                if k < before.len() {
                    assert(before[k] == name);
                }
            }
        }
    }
}

/// Names stand in the order in which they come first: more pieces only add names at the
/// end.
pub proof fn law_names_come_in_order(ps: Seq<Seq<char>>, more: Seq<Seq<char>>)
    ensures
        names_in(ps).is_prefix_of(names_in(ps + more)),
    decreases more.len(),
{
    if more.len() == 0 {
        assert(ps + more =~= ps);
    } else {
        law_names_come_in_order(ps, more.drop_last());
        assert((ps + more).drop_last() =~= ps + more.drop_last());
    }
}

/// The tools that are on stand in the order in which they are known.
pub proof fn law_enabled_tools_keep_their_order(
    a: Seq<Seq<char>>,
    b: Seq<Seq<char>>,
    allowed: Seq<Seq<char>>,
)
    ensures
        enabled_of(a + b, allowed) == enabled_of(a, allowed) + enabled_of(b, allowed),
    decreases b.len(),
{
    if b.len() == 0 {
        assert(a + b =~= a);
        assert(enabled_of(a, allowed) + enabled_of(b, allowed) =~= enabled_of(a, allowed));
    } else {
        law_enabled_tools_keep_their_order(a, b.drop_last(), allowed);
        assert((a + b).drop_last() =~= a + b.drop_last());
        assert((a + b).last() == b.last());
        assert(enabled_of(a + b, allowed) =~= enabled_of(a, allowed) + enabled_of(b, allowed));
    }
}

} // verus!
