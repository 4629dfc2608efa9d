//! DVB string decoding.
//!
//! A DVB descriptor string selects its source encoding with its first byte,
//! and after decoding, C0 and C1 control characters (and their Private Use
//! Area remapping) are stripped, keeping only the newline.

use vstd::prelude::*;
use crate::strutil::{from_utf16_lossy, from_utf8_lossy, string_from_chars, utf16_lossy, utf8_lossy};

verus! {

/// A character that decoding keeps: the newline, and anything that is not a
/// C0 control, DELETE, a C1 control, or the Private Use Area remapping of
/// the C1 controls.
pub open spec fn keep_char(c: char) -> bool {
    let cp = c as u32;
    cp == 0x0a || !(cp <= 0x1f || cp == 0x7f || (0x80 <= cp <= 0x9f) || (0xe080 <= cp <= 0xe09f))
}

/// Big-endian 16-bit code units read from consecutive byte pairs; a
/// trailing odd byte is dropped.
pub open spec fn be_pairs(data: Seq<u8>) -> Seq<u16> {
    Seq::new(
        (data.len() / 2) as nat,
        |i: int| ((data[2 * i] as u16) * 256 + data[2 * i + 1] as u16) as u16,
    )
}

/// The characters a DVB string decodes to before control stripping.  The
/// first byte selects the encoding; unhandled selector bytes decode to the
/// empty string, as does a multi-byte encoding with fewer than two payload
/// bytes.
pub open spec fn dvb_raw(data: Seq<u8>) -> Seq<char> {
    if data.len() == 0 {
        Seq::empty()
    } else if data[0] == 0x14 || data[0] == 0x11 {
        if data.len() < 3 {
            Seq::empty()
        } else {
            utf16_lossy(be_pairs(data.skip(1)))
        }
    } else if data[0] == 0x15 {
        utf8_lossy(data.skip(1))
    } else if data[0] == 0x10 {
        if data.len() > 3 {
            utf8_lossy(data.skip(3))
        } else {
            Seq::empty()
        }
    } else if 0x01 <= data[0] <= 0x05 {
        utf8_lossy(data.skip(1))
    } else if data[0] >= 0x20 {
        utf8_lossy(data)
    } else {
        Seq::empty()
    }
}

/// The characters a DVB string decodes to: the raw decoding with control
/// characters stripped.
pub open spec fn dvb_text(data: Seq<u8>) -> Seq<char> {
    dvb_raw(data).filter(|c: char| keep_char(c))
}

/// Strip control characters, keeping exactly the characters `keep_char`
/// admits, in order.
fn strip_controls(s: &str) -> (r: String)
    ensures
        r@ == s@.filter(|c: char| keep_char(c)),
{
    broadcast use vstd::seq_lib::group_filter_ensures;

    let n = s.unicode_len();
    let mut out: Vec<char> = Vec::new();
    let mut i: usize = 0;
    proof {
        reveal(Seq::filter);
        assert(s@.take(0) =~= Seq::<char>::empty());
    }
    while i < n
        invariant
            0 <= i <= n,
            n == s@.len(),
            out@ == s@.take(i as int).filter(|c: char| keep_char(c)),
        decreases n - i,
    {
        let c = s.get_char(i);
        let cp = c as u32;
        let keep = cp == 0x0a || !(cp <= 0x1f || cp == 0x7f || (0x80 <= cp && cp <= 0x9f) || (
        0xe080 <= cp && cp <= 0xe09f));
        proof {
            Seq::lemma_filter_push(s@.take(i as int), s@[i as int], |c: char| keep_char(c));
            assert(s@.take(i as int + 1) =~= s@.take(i as int).push(s@[i as int]));
        }
        if keep {
            out.push(c);
        }
        i = i + 1;
    }
    proof {
        assert(s@.take(n as int) =~= s@);
    }
    string_from_chars(&out)
}

/// Decode a DVB descriptor string to Unicode and strip control characters.
/// The result never holds a stripped code point, and the function never
/// fails: malformed input decodes to replacement characters or to the empty
/// string.
pub fn decode_dvb_text(data: &[u8]) -> (r: String)
    ensures
        r@ == dvb_text(data@),
        forall|i: int| 0 <= i < r@.len() ==> keep_char(#[trigger] r@[i]),
{
    broadcast use vstd::seq_lib::group_filter_ensures;

    let raw: String = if data.len() == 0 {
        proof {
            reveal(Seq::filter);
        }
        return String::new();
    } else if data[0] == 0x14 || data[0] == 0x11 {
        if data.len() < 3 {
            String::new()
        } else {
            let mut units: Vec<u16> = Vec::new();
            let ghost payload = data@.skip(1);
            let npairs = (data.len() - 1) / 2;
            let mut k: usize = 0;
            while k < npairs
                invariant
                    0 <= k <= npairs,
                    npairs == payload.len() / 2,
                    payload == data@.skip(1),
                    3 <= data@.len() <= usize::MAX,
                    2 * npairs + 1 <= data@.len(),
                    units@ == be_pairs(payload).take(k as int),
                decreases npairs - k,
            {
                let hi = data[1 + 2 * k];
                let lo = data[2 + 2 * k];
                units.push((hi as u16) * 256 + lo as u16);
                proof {
                    assert(payload[2 * k as int] == data@[1 + 2 * k as int]);
                    assert(payload[2 * k as int + 1] == data@[2 + 2 * k as int]);
                    assert(units@ =~= be_pairs(payload).take(k as int + 1));
                }
                k = k + 1;
            }
            proof {
                assert(units@ =~= be_pairs(payload));
            }
            from_utf16_lossy(&units)
        }
    } else if data[0] == 0x15 {
        let payload = vstd::slice::slice_subrange(data, 1, data.len());
        proof {
            assert(payload@ =~= data@.skip(1));
        }
        from_utf8_lossy(payload)
    } else if data[0] == 0x10 {
        if data.len() > 3 {
            let payload = vstd::slice::slice_subrange(data, 3, data.len());
            proof {
                assert(payload@ =~= data@.skip(3));
            }
            from_utf8_lossy(payload)
        } else {
            String::new()
        }
    } else if 0x01 <= data[0] && data[0] <= 0x05 {
        let payload = vstd::slice::slice_subrange(data, 1, data.len());
        proof {
            assert(payload@ =~= data@.skip(1));
        }
        from_utf8_lossy(payload)
    } else if data[0] >= 0x20 {
        from_utf8_lossy(data)
    } else {
        String::new()
    };
    proof {
        reveal(Seq::filter);
        assert(Seq::<char>::empty().filter(|c: char| keep_char(c)) =~= Seq::<char>::empty());
    }
    strip_controls(raw.as_str())
}

} // verus!
