//! The small piece of JSON that identifier documents and request bodies use:
//! quoted byte strings with their escapes, and unsigned decimal numbers.
use crate::percent::hex_value;
use vstd::prelude::*;

verus! {

pub const QUOTE: u8 = 34;

pub const BACKSLASH: u8 = 92;

pub const COLON: u8 = 58;

pub const COMMA: u8 = 44;

pub const LBRACE: u8 = 123;

pub const RBRACE: u8 = 125;

/// The lower-case hexadecimal digit of a value below 16.
pub open spec fn lower_hex_digit(d: u8) -> u8 {
    if d < 10 {
        (48 + d) as u8
    } else {
        (87 + d) as u8
    }
}

/// How one byte is written inside a JSON string: `"` and `\` and the control
/// bytes are escaped, with the short forms where JSON has them.
pub open spec fn escape_byte(c: u8) -> Seq<u8> {
    if c == QUOTE {
        seq![BACKSLASH, QUOTE]
    } else if c == BACKSLASH {
        seq![BACKSLASH, BACKSLASH]
    } else if c == 8 {
        seq![BACKSLASH, 98u8]
    } else if c == 12 {
        seq![BACKSLASH, 102u8]
    } else if c == 10 {
        seq![BACKSLASH, 110u8]
    } else if c == 13 {
        seq![BACKSLASH, 114u8]
    } else if c == 9 {
        seq![BACKSLASH, 116u8]
    } else if c < 32 {
        seq![BACKSLASH, 117u8, 48u8, 48u8, lower_hex_digit(c / 16), lower_hex_digit(c % 16)]
    } else {
        seq![c]
    }
}

pub open spec fn escape(s: Seq<u8>) -> Seq<u8>
    decreases s.len(),
{
    if s.len() == 0 {
        seq![]
    } else {
        escape_byte(s[0]) + escape(s.drop_first())
    }
}

/// A JSON string literal holding the bytes `s`.
pub open spec fn quoted(s: Seq<u8>) -> Seq<u8> {
    seq![QUOTE] + escape(s) + seq![QUOTE]
}

/// The byte that a two-byte escape `\c` stands for.
pub open spec fn short_escape(c: u8) -> Option<u8> {
    if c == QUOTE || c == BACKSLASH || c == 47 {
        Some(c)
    } else if c == 98 {
        Some(8u8)
    } else if c == 102 {
        Some(12u8)
    } else if c == 110 {
        Some(10u8)
    } else if c == 114 {
        Some(13u8)
    } else if c == 116 {
        Some(9u8)
    } else {
        None
    }
}

pub open spec fn prepend(a: Seq<u8>, o: Option<(Seq<u8>, Seq<u8>)>) -> Option<(Seq<u8>, Seq<u8>)> {
    match o {
        Some((d, r)) => Some((a + d, r)),
        None => None,
    }
}

/// Reads the body of a string literal up to its closing quote: the bytes it
/// stands for, and what follows the quote. `\u00XX` is taken for ASCII only.
pub open spec fn unescape(s: Seq<u8>) -> Option<(Seq<u8>, Seq<u8>)>
    decreases s.len(),
{
    if s.len() == 0 {
        None
    } else if s[0] == QUOTE {
        Some((seq![], s.drop_first()))
    } else if s[0] == BACKSLASH {
        if s.len() >= 2 && short_escape(s[1]) is Some {
            prepend(seq![short_escape(s[1])->0], unescape(s.skip(2)))
        } else if s.len() >= 6 && s[1] == 117 && s[2] == 48 && s[3] == 48 && 48 <= s[4] <= 55
            && hex_value(s[5]) is Some {
            prepend(seq![((s[4] - 48) * 16 + hex_value(s[5])->0) as u8], unescape(s.skip(6)))
        } else {
            None
        }
    } else if s[0] < 32 {
        None
    } else {
        prepend(seq![s[0]], unescape(s.drop_first()))
    }
}

/// Reads a string literal at the start of `s`.
pub open spec fn take_string(s: Seq<u8>) -> Option<(Seq<u8>, Seq<u8>)> {
    if s.len() > 0 && s[0] == QUOTE {
        unescape(s.drop_first())
    } else {
        None
    }
}

/// Reads one given byte at the start of `s`.
pub open spec fn take_byte(s: Seq<u8>, b: u8) -> Option<Seq<u8>> {
    if s.len() > 0 && s[0] == b {
        Some(s.drop_first())
    } else {
        None
    }
}

pub open spec fn is_digit(c: u8) -> bool {
    48 <= c <= 57
}

/// The decimal digits of `n`, without leading zeros.
pub open spec fn decimal(n: nat) -> Seq<u8>
    decreases n,
{
    if n < 10 {
        seq![(48 + n) as u8]
    } else {
        decimal(n / 10) + seq![(48 + n % 10) as u8]
    }
}

/// The value of the digits `ds` read after the value `acc`.
pub open spec fn digits_value(acc: nat, ds: Seq<u8>) -> nat
    decreases ds.len(),
{
    if ds.len() == 0 {
        acc
    } else {
        digits_value(acc * 10 + (ds[0] - 48) as nat, ds.drop_first())
    }
}

/// Reads digits after the value `acc`, failing once the value passes `usize::MAX`.
pub open spec fn scan_number(s: Seq<u8>, acc: nat) -> Option<(nat, Seq<u8>)>
    decreases s.len(),
{
    if s.len() > 0 && is_digit(s[0]) {
        let a = acc * 10 + (s[0] - 48) as nat;
        if a > usize::MAX {
            None
        } else {
            scan_number(s.drop_first(), a)
        }
    } else {
        Some((acc, s))
    }
}

/// Reads an unsigned decimal number at the start of `s`.
pub open spec fn take_number(s: Seq<u8>) -> Option<(nat, Seq<u8>)> {
    if s.len() > 0 && is_digit(s[0]) {
        scan_number(s, 0)
    } else {
        None
    }
}

pub proof fn lemma_prepend_assoc(a: Seq<u8>, x: Seq<u8>, o: Option<(Seq<u8>, Seq<u8>)>)
    ensures
        prepend(a, prepend(x, o)) == prepend(a + x, o),
{
    match o {
        Some((d, r)) => {
            assert(a + (x + d) =~= (a + x) + d);
        },
        None => {},
    }
}

pub proof fn lemma_escape_push(a: Seq<u8>, c: u8)
    ensures
        escape(a.push(c)) == escape(a) + escape_byte(c),
    decreases a.len(),
{
    if a.len() == 0 {
        assert(a.push(c).drop_first() =~= a);
        assert(escape(a.push(c)) =~= escape(a) + escape_byte(c));
    } else {
        lemma_escape_push(a.drop_first(), c);
        assert(a.push(c).drop_first() =~= a.drop_first().push(c));
        assert(escape(a.push(c)) =~= escape(a) + escape_byte(c));
    }
}

/// A string body written by `escape` and closed by a quote reads back as itself.
pub proof fn lemma_unescape_escape(b: Seq<u8>, r: Seq<u8>)
    ensures
        unescape(escape(b) + seq![QUOTE] + r) == Some((b, r)),
    decreases b.len(),
{
    let s = escape(b) + seq![QUOTE] + r;
    if b.len() == 0 {
        assert(s =~= seq![QUOTE] + r);
        assert(s.drop_first() =~= r);
    } else {
        let c = b[0];
        let e = escape_byte(c);
        let tail = escape(b.drop_first()) + seq![QUOTE] + r;
        lemma_unescape_escape(b.drop_first(), r);
        assert(s =~= e + tail);
        assert(s.skip(e.len() as int) =~= tail);
        if c < 32 && c != 8 && c != 12 && c != 10 && c != 13 && c != 9 {
            assert(hex_value(lower_hex_digit(c % 16)) == Some(c % 16));
            assert((c / 16) * 16 + c % 16 == c);
        }
        assert(b =~= seq![c] + b.drop_first());
    }
}

pub proof fn lemma_take_string(b: Seq<u8>, r: Seq<u8>)
    ensures
        take_string(quoted(b) + r) == Some((b, r)),
{
    let s = quoted(b) + r;
    lemma_unescape_escape(b, r);
    assert(s.drop_first() =~= escape(b) + seq![QUOTE] + r);
}

pub proof fn lemma_digits_value_push(acc: nat, ds: Seq<u8>, d: u8)
    requires
        is_digit(d),
    ensures
        digits_value(acc, ds.push(d)) == digits_value(acc, ds) * 10 + (d - 48) as nat,
    decreases ds.len(),
{
    if ds.len() == 0 {
        assert(ds.push(d).drop_first() =~= ds);
        assert(ds.push(d)[0] == d);
        assert(digits_value(acc, ds) == acc);
        assert(digits_value(acc, ds.push(d)) == digits_value(acc * 10 + (d - 48) as nat, ds));
    } else {
        assert(ds.push(d).drop_first() =~= ds.drop_first().push(d));
        assert(ds.push(d)[0] == ds[0]);
        lemma_digits_value_push(acc * 10 + (ds[0] - 48) as nat, ds.drop_first(), d);
    }
}

pub proof fn lemma_digits_value_grows(acc: nat, ds: Seq<u8>)
    ensures
        digits_value(acc, ds) >= acc,
    decreases ds.len(),
{
    if ds.len() > 0 {
        lemma_digits_value_grows(acc * 10 + (ds[0] - 48) as nat, ds.drop_first());
    }
}

pub proof fn lemma_decimal(n: nat)
    ensures
        decimal(n).len() > 0,
        forall|i: int| 0 <= i < decimal(n).len() ==> is_digit(#[trigger] decimal(n)[i]),
        digits_value(0, decimal(n)) == n,
    decreases n,
{
    if n < 10 {
        let ds = decimal(n);
        assert(ds.drop_first() =~= Seq::<u8>::empty());
        assert(ds[0] - 48 == n);
        assert(digits_value(0, ds) == digits_value(n, ds.drop_first()));
    } else {
        lemma_decimal(n / 10);
        let d = (48 + n % 10) as u8;
        assert(decimal(n) == decimal(n / 10).push(d));
        lemma_digits_value_push(0, decimal(n / 10), d);
        assert((n / 10) * 10 + n % 10 == n);
    }
}

pub proof fn lemma_scan_digits(ds: Seq<u8>, r: Seq<u8>, acc: nat)
    requires
        forall|i: int| 0 <= i < ds.len() ==> is_digit(#[trigger] ds[i]),
        r.len() == 0 || !is_digit(r[0]),
        digits_value(acc, ds) <= usize::MAX,
    ensures
        scan_number(ds + r, acc) == Some((digits_value(acc, ds), r)),
    decreases ds.len(),
{
    if ds.len() == 0 {
        assert(ds + r =~= r);
    } else {
        let a = acc * 10 + (ds[0] - 48) as nat;
        lemma_digits_value_grows(a, ds.drop_first());
        assert((ds + r).drop_first() =~= ds.drop_first() + r);
        lemma_scan_digits(ds.drop_first(), r, a);
    }
}

/// A number written by `decimal` reads back as itself.
pub proof fn lemma_take_number(n: nat, r: Seq<u8>)
    requires
        n <= usize::MAX,
        r.len() == 0 || !is_digit(r[0]),
    ensures
        take_number(decimal(n) + r) == Some((n, r)),
{
    lemma_decimal(n);
    lemma_scan_digits(decimal(n), r, 0);
}

/// Appends `src` to `out`.
pub fn append_bytes(out: &mut Vec<u8>, src: &[u8])
    ensures
        final(out)@ == old(out)@ + src@,
{
    let mut i: usize = 0;
    while i < src.len()
        invariant
            i <= src@.len(),
            out@ == old(out)@ + src@.take(i as int),
        decreases src@.len() - i,
    {
        out.push(src[i]);
        i += 1;
        assert(src@.take(i as int) == src@.take(i - 1 as int).push(src@[i - 1]));
    }
    assert(src@.take(src@.len() as int) == src@);
}

fn lower_hex(d: u8) -> (r: u8)
    requires
        d < 16,
    ensures
        r == lower_hex_digit(d),
{
    if d < 10 {
        48 + d
    } else {
        87 + d
    }
}

fn escape_one(c: u8) -> (r: Vec<u8>)
    ensures
        r@ == escape_byte(c),
{
    if c == QUOTE {
        vec![BACKSLASH, QUOTE]
    } else if c == BACKSLASH {
        vec![BACKSLASH, BACKSLASH]
    } else if c == 8 {
        vec![BACKSLASH, 98u8]
    } else if c == 12 {
        vec![BACKSLASH, 102u8]
    } else if c == 10 {
        vec![BACKSLASH, 110u8]
    } else if c == 13 {
        vec![BACKSLASH, 114u8]
    } else if c == 9 {
        vec![BACKSLASH, 116u8]
    } else if c < 32 {
        vec![BACKSLASH, 117u8, 48u8, 48u8, lower_hex(c / 16), lower_hex(c % 16)]
    } else {
        vec![c]
    }
}

/// Appends the string literal of `s` to `out`.
pub fn push_quoted(out: &mut Vec<u8>, s: &[u8])
    ensures
        final(out)@ == old(out)@ + quoted(s@),
{
    out.push(QUOTE);
    let ghost start = out@;
    let mut i: usize = 0;
    while i < s.len()
        invariant
            i <= s@.len(),
            out@ == start + escape(s@.take(i as int)),
        decreases s@.len() - i,
    {
        let e = escape_one(s[i]);
        append_bytes(out, e.as_slice());
        proof {
            lemma_escape_push(s@.take(i as int), s@[i as int]);
            assert(s@.take(i + 1) == s@.take(i as int).push(s@[i as int]));
        }
        i += 1;
    }
    assert(s@.take(s@.len() as int) == s@);
    out.push(QUOTE);
}

/// Appends the decimal digits of `n` to `out`.
pub fn push_decimal(out: &mut Vec<u8>, n: usize)
    ensures
        final(out)@ == old(out)@ + decimal(n as nat),
    decreases n,
{
    if n >= 10 {
        push_decimal(out, n / 10);
    }
    out.push(48 + (n % 10) as u8);
    proof {
        if n < 10 {
            assert(decimal(n as nat) =~= seq![(48 + n) as u8]);
        }
    }
}

/// Reads a string literal at `pos`: the bytes it stands for and the position after it.
pub fn read_string(s: &[u8], pos: usize) -> (r: Option<(Vec<u8>, usize)>)
    requires
        pos <= s@.len(),
    ensures
        match r {
            Some((d, p)) => p <= s@.len() && take_string(s@.skip(pos as int)) == Some(
                (d@, s@.skip(p as int)),
            ),
            None => take_string(s@.skip(pos as int)) is None,
        },
{
    if pos >= s.len() || s[pos] != QUOTE {
        return None;
    }
    assert(s@.skip(pos as int).drop_first() =~= s@.skip(pos + 1));
    assert(take_string(s@.skip(pos as int)) == unescape(s@.skip(pos + 1)));
    let mut acc: Vec<u8> = Vec::new();
    let mut i: usize = pos + 1;
    while i < s.len()
        invariant
            pos < i <= s@.len(),
            take_string(s@.skip(pos as int)) == unescape(s@.skip(pos + 1)),
            unescape(s@.skip(pos + 1)) == prepend(acc@, unescape(s@.skip(i as int))),
        decreases s@.len() - i,
    {
        let ghost rest = s@.skip(i as int);
        let ghost old_acc = acc@;
        let c = s[i];
        assert(rest[0] == c);
        if c == QUOTE {
            assert(rest.drop_first() =~= s@.skip(i + 1));
            assert(acc@ + seq![] =~= acc@);
            return Some((acc, i + 1));
        } else if c == BACKSLASH {
            if i + 1 < s.len() {
                let k = s[i + 1];
                assert(rest[1] == k);
                assert(rest.len() >= 6 ==> rest[2] == s@[i + 2] && rest[3] == s@[i + 3] && rest[4]
                    == s@[i + 4] && rest[5] == s@[i + 5]);
                let short: u8 = if k == QUOTE || k == BACKSLASH || k == 47 {
                    k
                } else if k == 98 {
                    8
                } else if k == 102 {
                    12
                } else if k == 110 {
                    10
                } else if k == 114 {
                    13
                } else if k == 116 {
                    9
                } else {
                    0
                };
                if short != 0 {
                    assert(rest.skip(2) =~= s@.skip(i + 2));
                    acc.push(short);
                    proof { lemma_prepend_assoc(old_acc, seq![short], unescape(s@.skip(i + 2))); }
                    assert(old_acc + seq![short] =~= acc@);
                    i += 2;
                } else if s.len() - i > 5 && k == 117 && s[i + 2] == 48 && s[i + 3] == 48 && 48
                    <= s[i + 4] && s[i + 4] <= 55 && hex_digit_value(s[i + 5]).is_some() {
                    let lo = hex_digit_value(s[i + 5]).unwrap();
                    let b: u8 = (s[i + 4] - 48) * 16 + lo;
                    assert(rest.skip(6) =~= s@.skip(i + 6));
                    acc.push(b);
                    proof { lemma_prepend_assoc(old_acc, seq![b], unescape(s@.skip(i + 6))); }
                    assert(old_acc + seq![b] =~= acc@);
                    i += 6;
                } else {
                    return None;
                }
            } else {
                return None;
            }
        } else if c < 32 {
            return None;
        } else {
            assert(rest.drop_first() =~= s@.skip(i + 1));
            acc.push(c);
            proof { lemma_prepend_assoc(old_acc, seq![c], unescape(s@.skip(i + 1))); }
                    assert(old_acc + seq![c] =~= acc@);
            i += 1;
        }
    }
    assert(s@.skip(i as int).len() == 0);
    None
}

/// The value of a hexadecimal digit of either case.
pub fn hex_digit_value(c: u8) -> (r: Option<u8>)
    ensures
        r == hex_value(c),
{
    if 48 <= c && c <= 57 {
        Some(c - 48)
    } else if 65 <= c && c <= 70 {
        Some(c - 55)
    } else if 97 <= c && c <= 102 {
        Some(c - 87)
    } else {
        None
    }
}

/// Reads an unsigned decimal number at `pos`: its value and the position after it.
pub fn read_number(s: &[u8], pos: usize) -> (r: Option<(usize, usize)>)
    requires
        pos <= s@.len(),
    ensures
        match r {
            Some((n, p)) => p <= s@.len() && take_number(s@.skip(pos as int)) == Some(
                (n as nat, s@.skip(p as int)),
            ),
            None => take_number(s@.skip(pos as int)) is None,
        },
{
    if pos >= s.len() || s[pos] < 48 || s[pos] > 57 {
        return None;
    }
    let mut acc: usize = 0;
    let mut i: usize = pos;
    while i < s.len() && 48 <= s[i] && s[i] <= 57
        invariant
            pos <= i <= s@.len(),
            scan_number(s@.skip(pos as int), 0) == scan_number(s@.skip(i as int), acc as nat),
        decreases s@.len() - i,
    {
        let d = (s[i] - 48) as usize;
        assert(s@.skip(i as int).drop_first() =~= s@.skip(i + 1));
        if acc > (usize::MAX - d) / 10 {
            assert(acc * 10 + d > usize::MAX) by (nonlinear_arith)
                requires
                    acc > (usize::MAX - d) / 10,
                    d <= 9,
            ;
            return None;
        }
        assert(acc * 10 + d <= usize::MAX) by (nonlinear_arith)
            requires
                acc <= (usize::MAX - d) / 10,
                d <= 9,
        ;
        acc = acc * 10 + d;
        i += 1;
    }
    Some((acc, i))
}

} // verus!
