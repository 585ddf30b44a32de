//! Splitting and trimming text.
use vstd::prelude::*;
use vstd::string::*;

verus! {

/// The texts of a list of strings.
pub open spec fn texts(v: Seq<String>) -> Seq<Seq<char>> {
    Seq::new(v.len(), |i: int| v[i]@)
}

/// The pieces of `s` between separators; one more than there are separators.
pub open spec fn pieces(s: Seq<char>, sep: char) -> Seq<Seq<char>>
    decreases s.len(),
{
    if s.len() == 0 {
        seq![Seq::empty()]
    } else {
        let before = pieces(s.drop_last(), sep);
        if s.last() == sep {
            before.push(Seq::empty())
        } else {
            before.drop_last().push(before.last().push(s.last()))
        }
    }
}

/// Is `c` white space, as Unicode has it?
pub open spec fn is_space(c: char) -> bool {
    ||| 0x09 <= c as u32 <= 0x0D
    ||| c as u32 == 0x20
    ||| c as u32 == 0x85
    ||| c as u32 == 0xA0
    ||| c as u32 == 0x1680
    ||| 0x2000 <= c as u32 <= 0x200A
    ||| c as u32 == 0x2028
    ||| c as u32 == 0x2029
    ||| c as u32 == 0x202F
    ||| c as u32 == 0x205F
    ||| c as u32 == 0x3000
}

/// `s` without white space at its ends.
pub open spec fn trimmed(s: Seq<char>) -> Seq<char>
    decreases s.len(),
{
    if s.len() == 0 {
        s
    } else if is_space(s[0]) {
        trimmed(s.drop_first())
    } else if is_space(s.last()) {
        trimmed(s.drop_last())
    } else {
        s
    }
}

/// The pieces of `s` between separators.
pub fn split(s: &str, sep: char) -> (r: Vec<String>)
    ensures
        texts(r@) == pieces(s@, sep),
{
    let n: usize = s.unicode_len();
    let mut done: Vec<String> = Vec::new();
    let mut current: String = String::new();
    let mut i: usize = 0;
    proof {
        assert(s@.take(0) =~= Seq::empty());
        assert(texts(done@).push(current@) =~= seq![Seq::<char>::empty()]);
    }
    while i < n
        invariant
            i <= n,
            n == s@.len(),
            texts(done@).push(current@) == pieces(s@.take(i as int), sep),
        decreases n - i,
    {
        let ghost before = texts(done@).push(current@);
        proof {
            assert(s@.take(i + 1).drop_last() =~= s@.take(i as int));
            assert(s@.take(i + 1).last() == s@[i as int]);
            assert(before.drop_last() =~= texts(done@));
            assert(before.last() == current@);
        }
        if s.get_char(i) == sep {
            let ghost old_done = done@;
            let ghost finished = current;
            done.push(current);
            current = String::new();
            proof {
                assert(texts(done@) =~= texts(old_done).push(finished@));
                assert(texts(done@).push(current@) =~= before.push(Seq::empty()));
            }
        } else {
            let ghost was = current@;
            current.append(s.substring_char(i, i + 1));
            proof {
                assert(current@ =~= was.push(s@[i as int]));
                assert(texts(done@).push(current@) =~= before.drop_last().push(
                    before.last().push(s@[i as int]),
                ));
            }
        }
        i += 1;
    }
    let ghost old_done = done@;
    let ghost finished = current;
    done.push(current);
    proof {
        assert(texts(done@) =~= texts(old_done).push(finished@));
        assert(s@.take(n as int) =~= s@);
    }
    done
}

/// Is `c` white space?
fn space(c: char) -> (r: bool)
    ensures
        r == is_space(c),
{
    let x: u32 = c as u32;
    (0x09 <= x && x <= 0x0D) || x == 0x20 || x == 0x85 || x == 0xA0 || x == 0x1680 || (0x2000 <= x
        && x <= 0x200A) || x == 0x2028 || x == 0x2029 || x == 0x202F || x == 0x205F || x == 0x3000
}

/// `s` without white space at its ends.
pub fn trim(s: &str) -> (r: &str)
    ensures
        r@ == trimmed(s@),
{
    let n: usize = s.unicode_len();
    let mut lo: usize = 0;
    proof {
        assert(s@.subrange(0, n as int) =~= s@);
    }
    while lo < n && space(s.get_char(lo))
        invariant
            lo <= n,
            n == s@.len(),
            trimmed(s@) == trimmed(s@.subrange(lo as int, n as int)),
        decreases n - lo,
    {
        proof {
            let part = s@.subrange(lo as int, n as int);
            assert(part.drop_first() =~= s@.subrange(lo + 1, n as int));
        }
        lo += 1;
    }
    let mut hi: usize = n;
    while lo < hi && space(s.get_char(hi - 1))
        invariant
            lo <= hi <= n,
            n == s@.len(),
            lo < n ==> !is_space(s@[lo as int]),
            lo == n ==> hi == n,
            lo < n ==> lo < hi,
            trimmed(s@) == trimmed(s@.subrange(lo as int, hi as int)),
        decreases hi - lo,
    {
        proof {
            let part = s@.subrange(lo as int, hi as int);
            assert(part[0] == s@[lo as int]);
            assert(part.drop_last() =~= s@.subrange(lo as int, hi - 1));
            assert(hi - 1 != lo);
        }
        hi -= 1;
    }
    proof {
        let part = s@.subrange(lo as int, hi as int);
        if lo < hi {
            assert(part[0] == s@[lo as int]);
            assert(part.last() == s@[hi - 1]);
        }
    }
    s.substring_char(lo, hi)
}

/// Pieces put together again, with a separator between each two.
pub open spec fn rejoined(ps: Seq<Seq<char>>, sep: char) -> Seq<char>
    decreases ps.len(),
{
    if ps.len() == 0 {
        Seq::empty()
    } else if ps.len() == 1 {
        ps[0]
    } else {
        rejoined(ps.drop_last(), sep).push(sep) + ps.last()
    }
}

/// The pieces of a text, put together with the separator between them, are the text,
/// and no piece holds the separator.
pub proof fn law_pieces_join_back(s: Seq<char>, sep: char)
    ensures
        pieces(s, sep).len() > 0,
        rejoined(pieces(s, sep), sep) == s,
        forall|i: int| 0 <= i < pieces(s, sep).len() ==> !(#[trigger] pieces(s, sep)[i]).contains(sep),
    decreases s.len(),
{
    let ps = pieces(s, sep);
    if s.len() == 0 {
        assert(rejoined(ps, sep) =~= s);
    } else {
        let rest = s.drop_last();
        let before = pieces(rest, sep);
        law_pieces_join_back(rest, sep);
        if s.last() == sep {
            assert(ps.drop_last() =~= before);
            assert(rejoined(ps, sep) =~= s);
            assert forall|i: int| 0 <= i < ps.len() implies !(#[trigger] ps[i]).contains(sep) by {
                if i < before.len() {
                    assert(ps[i] == before[i]);
                }
            }
        } else {
            assert(ps.drop_last() =~= before.drop_last());
            let grown = before.last().push(s.last());
            assert(ps.last() == grown);
            assert(before[before.len() - 1] == before.last());
            if before.len() > 1 {
                assert(rejoined(before, sep) == rejoined(before.drop_last(), sep).push(sep)
                    + before.last());
                assert(rejoined(ps, sep) == rejoined(ps.drop_last(), sep).push(sep) + ps.last());
                assert(rejoined(ps, sep) =~= rejoined(before, sep).push(s.last()));
            } else {
                assert(rejoined(ps, sep) == ps[0]);
            }
            assert(rest.push(s.last()) =~= s);
            assert forall|i: int| 0 <= i < ps.len() implies !(#[trigger] ps[i]).contains(sep) by {
                if i < before.len() - 1 {
                    assert(ps[i] == before[i]);
                } else if grown.contains(sep) {
                    let k = choose|k: int| 0 <= k < grown.len() && grown[k] == sep;
                    assert(before.last()[k] == sep);
                }
            }
        }
    }
}

/// Trimming takes white space off both ends and nothing else: what is left stands in
/// the text, all before and behind it is white space, and it neither begins nor ends
/// with white space.
pub proof fn law_trim_takes_white_space_off(s: Seq<char>) -> (ends: (int, int))
    ensures
        0 <= ends.0 <= ends.1 <= s.len(),
        trimmed(s) == s.subrange(ends.0, ends.1),
        forall|i: int| 0 <= i < ends.0 || ends.1 <= i < s.len() ==> is_space(#[trigger] s[i]),
        ends.0 < ends.1 ==> !is_space(s[ends.0]) && !is_space(s[ends.1 - 1]),
    decreases s.len(),
{
    if s.len() == 0 {
        assert(s.subrange(0, 0) =~= s);
        (0, 0)
    } else if is_space(s[0]) {
        let rest = s.drop_first();
        let e = law_trim_takes_white_space_off(rest);
        assert(rest.subrange(e.0, e.1) =~= s.subrange(e.0 + 1, e.1 + 1));
        assert forall|i: int| 0 <= i < e.0 + 1 || e.1 + 1 <= i < s.len() implies is_space(
            #[trigger] s[i],
        ) by {
            if i > 0 {
                assert(rest[i - 1] == s[i]);
            }
        }
        (e.0 + 1, e.1 + 1)
    } else if is_space(s.last()) {
        let rest = s.drop_last();
        let e = law_trim_takes_white_space_off(rest);
        assert(rest.subrange(e.0, e.1) =~= s.subrange(e.0, e.1));
        assert forall|i: int| 0 <= i < e.0 || e.1 <= i < s.len() implies is_space(
            #[trigger] s[i],
        ) by {
            if i < s.len() - 1 {
                assert(rest[i] == s[i]);
            }
        }
        e
    } else {
        assert(s.subrange(0, s.len() as int) =~= s);
        (0, s.len() as int)
    }
}

/// The white space of ASCII is the blank and the five control characters from the tab
/// to the carriage return; letters, digits and signs are none.
pub proof fn law_ascii_white_space(c: char)
    requires
        c as u32 <= 0x7F,
    ensures
        is_space(c) <==> c == ' ' || ('\t' <= c <= '\r'),
{
}

/// The texts of a list are those of its strings, in order.
pub proof fn law_texts_are_in_order(v: Seq<String>, i: int)
    requires
        0 <= i < v.len(),
    ensures
        texts(v).len() == v.len(),
        texts(v)[i] == v[i]@,
{
}

/// The white space beyond ASCII, as Unicode has it.
pub proof fn law_white_space_beyond_ascii(c: char)
    requires
        c as u32 > 0x7F,
    ensures
        is_space(c) <==> {
            ||| c as u32 == 0x85
            ||| c as u32 == 0xA0
            ||| c as u32 == 0x1680
            ||| 0x2000 <= c as u32 <= 0x200A
            ||| c as u32 == 0x2028
            ||| c as u32 == 0x2029
            ||| c as u32 == 0x202F
            ||| c as u32 == 0x205F
            ||| c as u32 == 0x3000
        },
{
}

} // verus!
