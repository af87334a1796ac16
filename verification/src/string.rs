//! Byte-string helpers shared by the bridge.
//!
//! Guest strings are byte strings; identifiers travel to the guest class
//! table as NUL-terminated byte strings. These helpers compare and
//! validate such byte strings and render them for diagnostics.

use vstd::prelude::*;

verus! {

/// The character for decimal digit `d`.
pub open spec fn digit_char(d: nat) -> char {
    ((d + 48) as u8) as char
}

/// The decimal digits of `n`, most significant first, without leading
/// zeros (`0` renders as one digit).
pub open spec fn dec_digits(n: nat) -> Seq<char>
    decreases n,
{
    if n < 10 {
        seq![digit_char(n)]
    } else {
        dec_digits(n / 10).push(digit_char(n % 10))
    }
}

/// The decimal rendering of `i`: a minus sign for negative values, then
/// the digits of the magnitude.
pub open spec fn int_to_dec(i: int) -> Seq<char> {
    if i < 0 {
        seq!['-'] + dec_digits((-i) as nat)
    } else {
        dec_digits(i as nat)
    }
}

/// Relies on itoa's `Buffer::format`: it renders a signed integer in
/// decimal, exactly as std's integer formatting does — a minus sign for
/// negative values, then the magnitude's digits without leading zeros.
#[verifier::external_body]
pub fn format_int(value: i64) -> (r: String)
    ensures
        r@ == int_to_dec(value as int),
{
    let mut buffer = itoa::Buffer::new();
    buffer.format(value).to_string()
}

/// The byte for hexadecimal digit `d`, upper case.
pub open spec fn hex_digit(d: nat) -> u8 {
    if d < 10 {
        (d + 48) as u8
    } else {
        (d + 55) as u8
    }
}

/// How one byte of a guest string renders inside a quoted inspection:
/// printable ASCII stands for itself, the quote, backslash and common
/// control characters take their escape, and every other byte renders as
/// a two-digit hexadecimal escape.
pub open spec fn escape_byte(b: u8) -> Seq<u8> {
    if b == 34 {
        seq![92u8, 34u8]
    } else if b == 92 {
        seq![92u8, 92u8]
    } else if b == 10 {
        seq![92u8, 110u8]
    } else if b == 13 {
        seq![92u8, 114u8]
    } else if b == 9 {
        seq![92u8, 116u8]
    } else if 32 <= b < 127 {
        seq![b]
    } else {
        seq![92u8, 120u8, hex_digit((b / 16) as nat), hex_digit((b % 16) as nat)]
    }
}

/// The escaped rendering of a byte string: each byte's escape, in order.
pub open spec fn escape_bytes(s: Seq<u8>) -> Seq<u8>
    decreases s.len(),
{
    if s.len() == 0 {
        Seq::empty()
    } else {
        escape_byte(s[0]) + escape_bytes(s.skip(1))
    }
}

/// Escaping distributes over appending one byte at the end.
proof fn lemma_escape_bytes_push(s: Seq<u8>, b: u8)
    ensures
        escape_bytes(s.push(b)) == escape_bytes(s) + escape_byte(b),
    decreases s.len(),
{
    if s.len() == 0 {
        assert(s.push(b)[0] == b);
        assert(s.push(b).skip(1) =~= Seq::<u8>::empty());
        assert(escape_bytes(s.push(b)) == escape_byte(b) + escape_bytes(Seq::<u8>::empty()));
        assert(escape_byte(b) + Seq::<u8>::empty() =~= escape_byte(b));
        assert(escape_bytes(s) + escape_byte(b) =~= escape_byte(b));
    } else {
        assert(s.push(b)[0] == s[0]);
        assert(s.push(b).skip(1) =~= s.skip(1).push(b));
        lemma_escape_bytes_push(s.skip(1), b);
        assert(escape_bytes(s.push(b)) == escape_byte(s[0]) + (escape_bytes(s.skip(1))
            + escape_byte(b)));
        assert(escape_bytes(s) == escape_byte(s[0]) + escape_bytes(s.skip(1)));
        assert(escape_byte(s[0]) + (escape_bytes(s.skip(1)) + escape_byte(b)) =~= (escape_byte(
            s[0],
        ) + escape_bytes(s.skip(1))) + escape_byte(b));
    }
}

/// Render a byte string with every byte escaped, as in a quoted
/// inspection.
pub fn escape_bytes_vec(s: &[u8]) -> (r: Vec<u8>)
    ensures
        r@ == escape_bytes(s@),
{
    let mut r: Vec<u8> = Vec::new();
    let mut j: usize = 0;
    while j < s.len()
        invariant
            0 <= j <= s@.len(),
            r@ == escape_bytes(s@.take(j as int)),
        decreases s@.len() - j,
    {
        let ghost pre = s@.take(j as int);
        let b = s[j];
        if b == 34 {
            r.push(92);
            r.push(34);
        } else if b == 92 {
            r.push(92);
            r.push(92);
        } else if b == 10 {
            r.push(92);
            r.push(110);
        } else if b == 13 {
            r.push(92);
            r.push(114);
        } else if b == 9 {
            r.push(92);
            r.push(116);
        } else if 32 <= b && b < 127 {
            r.push(b);
        } else {
            r.push(92);
            r.push(120);
            let hi = b / 16;
            let lo = b % 16;
            r.push(if hi < 10 { hi + 48 } else { hi + 55 });
            r.push(if lo < 10 { lo + 48 } else { lo + 55 });
        }
        proof {
            lemma_escape_bytes_push(pre, s@[j as int]);
            assert(s@.take(j + 1int) =~= pre.push(s@[j as int]));
            assert(r@ =~= escape_bytes(pre) + escape_byte(s@[j as int]));
        }
        j = j + 1;
    }
    proof {
        assert(s@.take(s@.len() as int) =~= s@);
    }
    r
}

/// An ASCII string without NUL characters encodes to bytes without NUL
/// bytes.
pub proof fn lemma_ascii_no_nul(s: &str)
    requires
        vstd::string::is_ascii(s),
        forall|i: int| 0 <= i < s@.len() ==> (#[trigger] s@[i]) != 0 as char,
    ensures
        !vstd::string::StringSliceAdditionalSpecFns::spec_bytes(s).contains(0u8),
{
    vstd::string::is_ascii_spec_bytes(s);
    let sb = vstd::string::StringSliceAdditionalSpecFns::spec_bytes(s);
    if sb.contains(0u8) {
        let w = choose|w: int| 0 <= w < sb.len() && sb[w] == 0u8;
        assert(sb[w] == s@[w] as u8);
        assert(s@[w] != 0 as char);
        assert((s@[w] as u8) != 0u8);
    }
}

/// Compare two byte strings for equality.
pub fn bytes_equal(a: &[u8], b: &[u8]) -> (r: bool)
    ensures
        r == (a@ == b@),
{
    if a.len() != b.len() {
        proof {
            assert(a@.len() != b@.len());
        }
        return false;
    }
    let mut i: usize = 0;
    while i < a.len()
        invariant
            0 <= i <= a@.len(),
            a@.len() == b@.len(),
            forall|j: int| 0 <= j < i ==> a@[j] == b@[j],
        decreases a@.len() - i,
    {
        if a[i] != b[i] {
            return false;
        }
        i = i + 1;
    }
    proof {
        assert(a@ =~= b@);
    }
    true
}

/// Whether a byte string holds an embedded NUL byte, which the guest class
/// table cannot represent in an identifier.
pub fn contains_nul(bytes: &[u8]) -> (r: bool)
    ensures
        r == bytes@.contains(0u8),
{
    let mut i: usize = 0;
    while i < bytes.len()
        invariant
            0 <= i <= bytes@.len(),
            forall|j: int| 0 <= j < i ==> bytes@[j] != 0u8,
        decreases bytes@.len() - i,
    {
        if bytes[i] == 0 {
            proof {
                assert(bytes@[i as int] == 0u8);
            }
            return true;
        }
        i = i + 1;
    }
    proof {
        assert(forall|j: int| 0 <= j < bytes@.len() ==> bytes@[j] != 0u8);
    }
    false
}

} // verus!
