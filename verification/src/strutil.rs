//! String helpers shared by the parsers: equality on `&str`, decimal and
//! hexadecimal codecs, and thin wrappers around the std Unicode decoders.

use vstd::prelude::*;
use vstd::utf8::*;

verus! {

/// Names the characters that `String::from_utf8_lossy` yields for a byte
/// sequence; the result depends on the bytes alone.
pub uninterp spec fn utf8_lossy(bytes: Seq<u8>) -> Seq<char>;

/// Names the characters that `String::from_utf16_lossy` yields for a code
/// unit sequence; the result depends on the units alone.
pub uninterp spec fn utf16_lossy(units: Seq<u16>) -> Seq<char>;

/// Relies on String::from_utf8_lossy: valid UTF-8 input decodes to exactly
/// its characters; invalid sequences become replacement characters.
#[verifier::external_body]
pub fn from_utf8_lossy(bytes: &[u8]) -> (r: String)
    ensures
        r@ == utf8_lossy(bytes@),
        valid_utf8(bytes@) ==> r@ == decode_utf8(bytes@),
{
    String::from_utf8_lossy(bytes).into_owned()
}

/// Relies on String::from_utf16_lossy: basic-plane code units outside the
/// surrogate range decode to the code points of the same value; invalid
/// data becomes the replacement character.
#[verifier::external_body]
pub fn from_utf16_lossy(units: &Vec<u16>) -> (r: String)
    ensures
        r@ == utf16_lossy(units@),
        (forall|i: int| 0 <= i < units@.len() ==> !(0xd800 <= #[trigger] units@[i] < 0xe000))
            ==> (r@.len() == units@.len() && forall|i: int|
            0 <= i < units@.len() ==> #[trigger] r@[i] as u32 == units@[i] as u32),
{
    String::from_utf16_lossy(units)
}

/// Relies on String implementing FromIterator<char>: collecting characters
/// builds the string of exactly those characters.
#[verifier::external_body]
pub fn string_from_chars(v: &Vec<char>) -> (r: String)
    ensures
        r@ == v@,
{
    v.iter().collect()
}

/// Character-wise string equality, decided by comparing the UTF-8 bytes.
pub fn str_eq(a: &str, b: &str) -> (r: bool)
    ensures
        r == (a@ == b@),
{
    let ab = a.as_bytes();
    let bb = b.as_bytes();
    if ab.len() != bb.len() {
        proof {
            if a@ == b@ {
                assert(encode_utf8(a@) == encode_utf8(b@));
            }
        }
        return false;
    }
    let n = ab.len();
    let mut i: usize = 0;
    while i < n
        invariant
            0 <= i <= n,
            n == ab@.len(),
            n == bb@.len(),
            ab@ == encode_utf8(a@),
            bb@ == encode_utf8(b@),
            forall|j: int| 0 <= j < i ==> ab@[j] == bb@[j],
        decreases n - i,
    {
        if ab[i] != bb[i] {
            proof {
                if a@ == b@ {
                    assert(ab@ =~= bb@);
                }
            }
            return false;
        }
        i = i + 1;
    }
    proof {
        assert(ab@ =~= bb@);
        encode_utf8_decode_utf8(a@);
        encode_utf8_decode_utf8(b@);
    }
    true
}

/// A decimal digit character.
pub open spec fn is_dec_digit(c: char) -> bool {
    48 <= c as u32 <= 57
}

/// Every character of the sequence is a decimal digit.
pub open spec fn all_dec_digits(s: Seq<char>) -> bool {
    forall|i: int| 0 <= i < s.len() ==> is_dec_digit(#[trigger] s[i])
}

/// Value of one decimal digit character.
pub open spec fn dec_digit_val(c: char) -> nat
    recommends
        is_dec_digit(c),
{
    (c as int - 48) as nat
}

/// The number written by a sequence of decimal digit characters.
pub open spec fn str_to_nat(s: Seq<char>) -> nat
    decreases s.len(),
{
    if s.len() == 0 {
        0
    } else {
        str_to_nat(s.drop_last()) * 10 + dec_digit_val(s.last())
    }
}

/// The digit character for a value below ten.
pub open spec fn digit_char(d: nat) -> char
    recommends
        d < 10,
{
    ((48 + d % 10) as u8) as char
}

/// The decimal digit string of a number, without a sign and without leading
/// zeros (a lone zero for zero).
pub open spec fn dec_seq(n: nat) -> Seq<char>
    decreases n,
{
    if n < 10 {
        seq![digit_char(n)]
    } else {
        dec_seq(n / 10).push(digit_char(n % 10))
    }
}

/// Reading one more digit multiplies the prefix value by ten and adds it.
proof fn lemma_str_to_nat_take_succ(s: Seq<char>, j: int)
    requires
        0 <= j < s.len(),
    ensures
        str_to_nat(s.take(j + 1)) == str_to_nat(s.take(j)) * 10 + dec_digit_val(s[j]),
{
    assert(s.take(j + 1).drop_last() =~= s.take(j));
    assert(s.take(j + 1).last() == s[j]);
}

/// The number written by a prefix is at most the number written by the
/// whole digit string.
proof fn lemma_str_to_nat_prefix_le(s: Seq<char>, j: int)
    requires
        0 <= j <= s.len(),
    ensures
        str_to_nat(s.take(j)) <= str_to_nat(s),
    decreases s.len() - j,
{
    if j == s.len() {
        assert(s.take(j) =~= s);
    } else {
        lemma_str_to_nat_take_succ(s, j);
        lemma_str_to_nat_prefix_le(s, j + 1);
    }
}

/// The digit string of a number is nonempty, all digits, and reads back as
/// the same number.
pub proof fn lemma_dec_seq_props(n: nat)
    ensures
        dec_seq(n).len() >= 1,
        all_dec_digits(dec_seq(n)),
        str_to_nat(dec_seq(n)) == n,
    decreases n,
{
    if n < 10 {
        let s = seq![digit_char(n)];
        assert(dec_seq(n) =~= s);
        assert(s.last() == digit_char(n));
        assert(s.drop_last() =~= Seq::<char>::empty());
        assert(digit_char(n) as u32 == 48 + n);
        assert(str_to_nat(Seq::<char>::empty()) == 0);
        assert(str_to_nat(s) == str_to_nat(s.drop_last()) * 10 + dec_digit_val(s.last()));
        assert(str_to_nat(s) == n);
    } else {
        lemma_dec_seq_props(n / 10);
        let s = dec_seq(n / 10).push(digit_char(n % 10));
        assert(s.drop_last() =~= dec_seq(n / 10));
        assert(forall|i: int| 0 <= i < s.len() ==> is_dec_digit(#[trigger] s[i]));
        assert(str_to_nat(s) == (n / 10) * 10 + n % 10);
        assert((n / 10) * 10 + n % 10 == n) by (nonlinear_arith);
    }
}

/// Parse a string of decimal digits as a u64.  Succeeds exactly on nonempty
/// all-digit strings whose value fits.
pub fn parse_u64(s: &str) -> (r: Option<u64>)
    ensures
        r is Some <==> (s@.len() > 0 && all_dec_digits(s@) && str_to_nat(s@) <= u64::MAX),
        r matches Some(n) ==> n as nat == str_to_nat(s@),
{
    let len = s.unicode_len();
    if len == 0 {
        return None;
    }
    let mut acc: u64 = 0;
    let mut i: usize = 0;
    while i < len
        invariant
            0 <= i <= len,
            len == s@.len(),
            all_dec_digits(s@.take(i as int)),
            acc as nat == str_to_nat(s@.take(i as int)),
        decreases len - i,
    {
        let c = s.get_char(i);
        let cv = c as u32;
        if cv < 48 || cv > 57 {
            assert(!is_dec_digit(s@[i as int]));
            return None;
        }
        assert(is_dec_digit(s@[i as int]));
        let d = (cv - 48) as u64;
        proof {
            lemma_str_to_nat_take_succ(s@, i as int);
            lemma_str_to_nat_prefix_le(s@, i as int + 1);
        }
        let acc10 = match acc.checked_mul(10) {
            Some(p) => p,
            None => {
                return None;
            },
        };
        acc = match acc10.checked_add(d) {
            Some(v) => v,
            None => {
                return None;
            },
        };
        assert(s@.take(i as int + 1).take(i as int) =~= s@.take(i as int));
        i = i + 1;
    }
    proof {
        assert(s@.take(len as int) =~= s@);
    }
    Some(acc)
}

/// Parse a string of decimal digits as a u16.  Succeeds exactly on nonempty
/// all-digit strings whose value fits.
pub fn parse_u16(s: &str) -> (r: Option<u16>)
    ensures
        r is Some <==> (s@.len() > 0 && all_dec_digits(s@) && str_to_nat(s@) <= u16::MAX),
        r matches Some(n) ==> n as nat == str_to_nat(s@),
{
    match parse_u64(s) {
        Some(n) => {
            if n <= 65535 {
                Some(n as u16)
            } else {
                None
            }
        },
        None => None,
    }
}

/// Write a u64 in decimal.
pub fn u64_to_dec(n: u64) -> (r: String)
    ensures
        r@ == dec_seq(n as nat),
{
    let mut rev: Vec<char> = Vec::new();
    let mut m = n;
    while m >= 10
        invariant
            dec_seq(n as nat) =~= dec_seq(m as nat) + rev@.reverse(),
        decreases m,
    {
        let d = (m % 10) as u8;
        let ghost old_rev = rev@;
        let ghost old_m = m as nat;
        rev.push((48 + d) as char);
        m = m / 10;
        proof {
            assert(rev@.reverse() =~= seq![digit_char(old_m % 10)] + old_rev.reverse());
            assert(dec_seq(old_m) + old_rev.reverse() =~= dec_seq(old_m / 10) + (seq![
                digit_char(old_m % 10),
            ] + old_rev.reverse()));
        }
    }
    let d = (m % 10) as u8;
    let ghost last_rev = rev@;
    let ghost last_m = m as nat;
    rev.push((48 + d) as char);
    proof {
        assert(rev@.reverse() =~= seq![digit_char(last_m)] + last_rev.reverse());
        assert(dec_seq(last_m) =~= seq![digit_char(last_m)]);
        assert(dec_seq(n as nat) =~= rev@.reverse());
    }
    let mut out: Vec<char> = Vec::new();
    let total = rev.len();
    let mut i: usize = 0;
    while i < total
        invariant
            0 <= i <= total,
            total == rev@.len(),
            out@ =~= rev@.reverse().take(i as int),
        decreases total - i,
    {
        out.push(rev[total - 1 - i]);
        proof {
            assert(out@ =~= rev@.reverse().take(i as int + 1));
        }
        i = i + 1;
    }
    proof {
        assert(out@ =~= rev@.reverse());
    }
    string_from_chars(&out)
}

/// Write a u16 in decimal.
pub fn u16_to_dec(n: u16) -> (r: String)
    ensures
        r@ == dec_seq(n as nat),
{
    u64_to_dec(n as u64)
}

/// A hexadecimal digit byte, as ASCII.
pub open spec fn is_hex_byte(b: u8) -> bool {
    (48 <= b <= 57) || (65 <= b <= 70) || (97 <= b <= 102)
}

/// Value of one hexadecimal digit byte.
pub open spec fn hex_byte_val(b: u8) -> nat
    recommends
        is_hex_byte(b),
{
    if 48 <= b <= 57 {
        (b - 48) as nat
    } else if 65 <= b <= 70 {
        (b - 55) as nat
    } else {
        (b - 87) as nat
    }
}

/// Decode one ASCII hexadecimal digit.
pub fn hex_digit_val(b: u8) -> (r: Option<u8>)
    ensures
        r is Some <==> is_hex_byte(b),
        r matches Some(v) ==> v as nat == hex_byte_val(b) && v < 16,
{
    if 48 <= b && b <= 57 {
        Some(b - 48)
    } else if 65 <= b && b <= 70 {
        Some(b - 55)
    } else if 97 <= b && b <= 102 {
        Some(b - 87)
    } else {
        None
    }
}

} // verus!
