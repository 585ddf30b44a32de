//! Building message text: decimal and hexadecimal numbers, and number lists.
use vstd::prelude::*;
use vstd::string::*;

verus! {

/// The character of a digit, upper case from ten on.
pub open spec fn digit_char(d: int) -> char {
    if d < 10 {
        (48 + d) as char
    } else {
        (55 + d) as char
    }
}

/// The decimal digits of `n`, most significant first, without leading zeros.
pub open spec fn decimal(n: nat) -> Seq<char>
    decreases n,
{
    if n < 10 {
        seq![digit_char(n as int)]
    } else {
        decimal(n / 10).push(digit_char((n % 10) as int))
    }
}

/// The four upper-case hexadecimal digits of `x`.
pub open spec fn hex4(x: u16) -> Seq<char> {
    seq![
        digit_char(x as int / 4096),
        digit_char(x as int / 256 % 16),
        digit_char(x as int / 16 % 16),
        digit_char(x as int % 16),
    ]
}

/// The items of `s` in decimal, separated by a comma and a space.
pub open spec fn joined(s: Seq<u64>) -> Seq<char>
    decreases s.len(),
{
    if s.len() == 0 {
        Seq::empty()
    } else if s.len() == 1 {
        decimal(s[0] as nat)
    } else {
        joined(s.drop_last()) + ", "@ + decimal(s.last() as nat)
    }
}

/// `s` in square brackets, as a slice of integers prints for debugging.
pub open spec fn bracketed(s: Seq<u64>) -> Seq<char> {
    "["@ + joined(s) + "]"@
}

/// The items of a sequence of bytes as numbers.
pub open spec fn byte_items(s: Seq<u8>) -> Seq<u64> {
    Seq::new(s.len(), |i: int| s[i] as u64)
}

/// The items of a sequence of 16-bit numbers.
pub open spec fn u16_items(s: Seq<u16>) -> Seq<u64> {
    Seq::new(s.len(), |i: int| s[i] as u64)
}

/// The items of a sequence of 32-bit numbers.
pub open spec fn u32_items(s: Seq<u32>) -> Seq<u64> {
    Seq::new(s.len(), |i: int| s[i] as u64)
}

/// How std's `Debug` prints a text: in double quotes, with escapes for quotes,
/// backslashes and characters that do not print.
pub uninterp spec fn debug_quoted(s: Seq<char>) -> Seq<char>;

/// `format!` with `{:?}` on a text, named by [`debug_quoted`].
#[verifier::external_body]
pub(crate) fn quoted(s: &str) -> (r: String)
    ensures
        r@ == debug_quoted(s@),
{
    format!("{s:?}")
}

/// The one-character text of a digit.
fn digit_str(d: u8) -> (r: &'static str)
    requires
        d < 16,
    ensures
        r@ == seq![digit_char(d as int)],
{
    proof {
        reveal_strlit("0");
        reveal_strlit("1");
        reveal_strlit("2");
        reveal_strlit("3");
        reveal_strlit("4");
        reveal_strlit("5");
        reveal_strlit("6");
        reveal_strlit("7");
        reveal_strlit("8");
        reveal_strlit("9");
        reveal_strlit("A");
        reveal_strlit("B");
        reveal_strlit("C");
        reveal_strlit("D");
        reveal_strlit("E");
        reveal_strlit("F");
    }
    match d {
        0 => "0",
        1 => "1",
        2 => "2",
        3 => "3",
        4 => "4",
        5 => "5",
        6 => "6",
        7 => "7",
        8 => "8",
        9 => "9",
        10 => "A",
        11 => "B",
        12 => "C",
        13 => "D",
        14 => "E",
        _ => "F",
    }
}

/// Appends the decimal digits of `n`.
pub fn push_decimal(out: &mut String, n: u64)
    ensures
        final(out)@ == old(out)@ + decimal(n as nat),
    decreases n,
{
    if n >= 10 {
        push_decimal(out, n / 10);
    }
    let d: u64 = n % 10;
    out.append(digit_str(d as u8));
    proof {
        assert(out@ =~= old(out)@ + decimal(n as nat));
    }
}

/// Appends the four hexadecimal digits of `x`.
pub fn push_hex4(out: &mut String, x: u16)
    ensures
        final(out)@ == old(out)@ + hex4(x),
{
    let a: u16 = x / 4096;
    let b: u16 = x / 256 % 16;
    let c: u16 = x / 16 % 16;
    let d: u16 = x % 16;
    out.append(digit_str(a as u8));
    out.append(digit_str(b as u8));
    out.append(digit_str(c as u8));
    out.append(digit_str(d as u8));
    proof {
        assert(out@ =~= old(out)@ + hex4(x));
    }
}

/// Appends the bracketed list of `items`.
pub fn push_list(out: &mut String, items: &[u64])
    ensures
        final(out)@ == old(out)@ + bracketed(items@),
{
    out.append("[");
    let mut i: usize = 0;
    while i < items.len()
        invariant
            i <= items@.len(),
            out@ == old(out)@ + "["@ + joined(items@.take(i as int)),
        decreases items@.len() - i,
    {
        if i > 0 {
            out.append(", ");
        }
        push_decimal(out, items[i]);
        proof {
            assert(items@.take(i + 1).drop_last() =~= items@.take(i as int));
            assert(out@ =~= old(out)@ + "["@ + joined(items@.take(i + 1)));
        }
        i += 1;
    }
    out.append("]");
    proof {
        assert(items@.take(i as int) =~= items@);
        assert(out@ =~= old(out)@ + bracketed(items@));
    }
}

/// Appends the bracketed list of `items`, byte by byte.
pub fn push_byte_list(out: &mut String, items: &[u8])
    ensures
        final(out)@ == old(out)@ + bracketed(byte_items(items@)),
{
    let mut wide: Vec<u64> = Vec::new();
    let mut i: usize = 0;
    while i < items.len()
        invariant
            i <= items@.len(),
            wide@ == byte_items(items@).take(i as int),
        decreases items@.len() - i,
    {
        wide.push(items[i] as u64);
        proof {
            assert(wide@ =~= byte_items(items@).take(i + 1));
        }
        i += 1;
    }
    proof {
        assert(wide@ =~= byte_items(items@));
    }
    push_list(out, wide.as_slice());
}

/// Appends the bracketed list of `items`.
pub fn push_u16_list(out: &mut String, items: &[u16])
    ensures
        final(out)@ == old(out)@ + bracketed(u16_items(items@)),
{
    let mut wide: Vec<u64> = Vec::new();
    let mut i: usize = 0;
    while i < items.len()
        invariant
            i <= items@.len(),
            wide@ == u16_items(items@).take(i as int),
        decreases items@.len() - i,
    {
        wide.push(items[i] as u64);
        proof {
            assert(wide@ =~= u16_items(items@).take(i + 1));
        }
        i += 1;
    }
    proof {
        assert(wide@ =~= u16_items(items@));
    }
    push_list(out, wide.as_slice());
}

/// Appends the bracketed list of `items`.
pub fn push_u32_list(out: &mut String, items: &[u32])
    ensures
        final(out)@ == old(out)@ + bracketed(u32_items(items@)),
{
    let mut wide: Vec<u64> = Vec::new();
    let mut i: usize = 0;
    while i < items.len()
        invariant
            i <= items@.len(),
            wide@ == u32_items(items@).take(i as int),
        decreases items@.len() - i,
    {
        wide.push(items[i] as u64);
        proof {
            assert(wide@ =~= u32_items(items@).take(i + 1));
        }
        i += 1;
    }
    proof {
        assert(wide@ =~= u32_items(items@));
    }
    push_list(out, wide.as_slice());
}

/// `prefix` followed by the decimal digits of `n`.
pub fn with_decimal(prefix: &str, n: u64) -> (r: String)
    ensures
        r@ == prefix@ + decimal(n as nat),
{
    let mut s: String = prefix.to_owned();
    push_decimal(&mut s, n);
    s
}

/// Are two texts the same?
pub fn same_text(a: &str, b: &str) -> (r: bool)
    ensures
        r == (a@ == b@),
{
    let x: String = a.to_owned();
    let y: String = b.to_owned();
    x == y
}

/// Does `c` occur in `s` first at `i`?
pub open spec fn first_at(s: Seq<char>, c: char, i: int) -> bool {
    &&& 0 <= i < s.len()
    &&& s[i] == c
    &&& forall|k: int| 0 <= k < i ==> s[k] != c
}

/// Where `c` occurs first in `s`.
pub fn find_char(s: &str, c: char) -> (r: Option<usize>)
    ensures
        match r {
            Some(i) => first_at(s@, c, i as int),
            None => !s@.contains(c),
        },
{
    let n: usize = s.unicode_len();
    let mut i: usize = 0;
    while i < n
        invariant
            i <= n,
            n == s@.len(),
            forall|k: int| 0 <= k < i ==> s@[k] != c,
        decreases n - i,
    {
        if s.get_char(i) == c {
            return Some(i);
        }
        i += 1;
    }
    None
}

/// The number that a row of decimal digits stands for.
pub open spec fn read_decimal(s: Seq<char>) -> int
    decreases s.len(),
{
    if s.len() == 0 {
        0
    } else {
        10 * read_decimal(s.drop_last()) + (s.last() as int - 48)
    }
}

/// A number in decimal reads back as that number, is made of the digits `0` to `9`, and
/// has no leading zero unless it is zero.
pub proof fn law_decimal_reads_back(n: nat)
    ensures
        read_decimal(decimal(n)) == n,
        decimal(n).len() > 0,
        forall|i: int| 0 <= i < decimal(n).len() ==> '0' <= #[trigger] decimal(n)[i] <= '9',
        n > 0 ==> decimal(n)[0] != '0',
    decreases n,
{
    if n < 10 {
        let s = decimal(n);
        assert(s.drop_last() =~= Seq::empty());
        assert(read_decimal(s.drop_last()) == 0);
    } else {
        law_decimal_reads_back(n / 10);
        let s = decimal(n);
        assert(s.drop_last() =~= decimal(n / 10));
        assert forall|i: int| 0 <= i < s.len() implies '0' <= #[trigger] s[i] <= '9' by {
            if i < s.len() - 1 {
                assert(s[i] == decimal(n / 10)[i]);
            }
        }
        assert(s[0] == decimal(n / 10)[0]);
    }
}

/// The number that an upper-case hexadecimal digit stands for.
pub open spec fn read_hex_digit(c: char) -> int {
    if '0' <= c <= '9' {
        c as int - '0' as int
    } else {
        10 + (c as int - 'A' as int)
    }
}

/// A number in four hexadecimal digits reads back as that number, and the digits are
/// `0` to `9` and `A` to `F`.
pub proof fn law_hex_reads_back(x: u16)
    ensures
        hex4(x).len() == 4,
        forall|i: int|
            0 <= i < 4 ==> '0' <= #[trigger] hex4(x)[i] <= '9' || 'A' <= hex4(x)[i] <= 'F',
        4_096 * read_hex_digit(hex4(x)[0]) + 256 * read_hex_digit(hex4(x)[1]) + 16 * read_hex_digit(
            hex4(x)[2],
        ) + read_hex_digit(hex4(x)[3]) == x,
{
    let n = x as int;
    let h = hex4(x);
    lemma_sixteens(n);
    lemma_digit(n / 4096);
    lemma_digit(n / 256 % 16);
    lemma_digit(n / 16 % 16);
    lemma_digit(n % 16);
    assert(h[0] == digit_char(n / 4096));
    assert(h[1] == digit_char(n / 256 % 16));
    assert(h[2] == digit_char(n / 16 % 16));
    assert(h[3] == digit_char(n % 16));
}

/// A number of 16 bits is the sum of its hexadecimal digits.
proof fn lemma_sixteens(n: int)
    requires
        0 <= n < 65_536,
    ensures
        0 <= n / 4096 < 16,
        4096 * (n / 4096) + 256 * (n / 256 % 16) + 16 * (n / 16 % 16) + n % 16 == n,
{
    assert(n / 16 / 16 == n / 256);
    assert(n / 256 / 16 == n / 4096);
}

proof fn lemma_digit(d: int)
    requires
        0 <= d < 16,
    ensures
        '0' <= digit_char(d) <= '9' || 'A' <= digit_char(d) <= 'F',
        read_hex_digit(digit_char(d)) == d,
{
}

/// The lists of two parts, put together, are joined by a comma and a space.
pub proof fn law_lists_join_with_commas(a: Seq<u64>, b: Seq<u64>, x: u64)
    requires
        a.len() > 0,
        b.len() > 0,
    ensures
        joined(a + b) == joined(a) + ", "@ + joined(b),
        joined(seq![x]) == decimal(x as nat),
        bracketed(a) == "["@ + joined(a) + "]"@,
    decreases b.len(),
{
    assert((a + b).drop_last() =~= a + b.drop_last());
    if b.len() == 1 {
        assert(a + b.drop_last() =~= a);
        assert((a + b).last() == b[0]);
    } else {
        law_lists_join_with_commas(a, b.drop_last(), x);
        assert((a + b).last() == b.last());
        assert(joined(a + b) =~= joined(a) + ", "@ + joined(b));
    }
}

/// Numbers keep their values and their order, however wide they are.
pub proof fn law_items_keep_their_values(a: Seq<u8>, b: Seq<u16>, c: Seq<u32>, i: int)
    requires
        0 <= i,
    ensures
        byte_items(a).len() == a.len(),
        u16_items(b).len() == b.len(),
        u32_items(c).len() == c.len(),
        i < a.len() ==> byte_items(a)[i] == a[i],
        i < b.len() ==> u16_items(b)[i] == b[i],
        i < c.len() ==> u32_items(c)[i] == c[i],
{
}

} // verus!
