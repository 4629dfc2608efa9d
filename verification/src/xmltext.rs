//! Text preparation for the XMLTV writer and the file server: XML
//! escaping, file-name sanitising and percent-decoding of request paths.

use vstd::prelude::*;
use vstd::utf8::encode_utf8;
use crate::strutil::{
    from_utf8_lossy, hex_byte_val, hex_digit_val, is_hex_byte, string_from_chars, utf8_lossy,
};

verus! {

/// What one character becomes in XML text: the five special characters
/// become their entities, everything else stays.
pub open spec fn xml_escape_char(c: char) -> Seq<char> {
    if c == '&' {
        "&amp;"@
    } else if c == '<' {
        "&lt;"@
    } else if c == '>' {
        "&gt;"@
    } else if c == '"' {
        "&quot;"@
    } else if c == '\'' {
        "&apos;"@
    } else {
        seq![c]
    }
}

/// A text with every special character escaped.
pub open spec fn xml_escape_text(s: Seq<char>) -> Seq<char>
    decreases s.len(),
{
    if s.len() == 0 {
        Seq::empty()
    } else {
        xml_escape_char(s[0]) + xml_escape_text(s.drop_first())
    }
}

/// Escaping one more character appends its escape.
proof fn lemma_xml_escape_snoc(s: Seq<char>, k: int)
    requires
        0 <= k < s.len(),
    ensures
        xml_escape_text(s.take(k + 1)) == xml_escape_text(s.take(k)) + xml_escape_char(s[k]),
    decreases k,
{
    if k == 0 {
        assert(s.take(1) =~= seq![s[0]]);
        assert(s.take(1).drop_first() =~= Seq::<char>::empty());
        assert(s.take(0) =~= Seq::<char>::empty());
        assert(xml_escape_text(Seq::<char>::empty()) == Seq::<char>::empty());
        assert(xml_escape_char(s[0]) + Seq::<char>::empty() =~= xml_escape_char(s[0]));
        assert(Seq::<char>::empty() + xml_escape_char(s[0]) =~= xml_escape_char(s[0]));
    } else {
        let d = s.drop_first();
        lemma_xml_escape_snoc(d, k - 1);
        assert(s.take(k + 1)[0] == s[0]);
        assert(s.take(k)[0] == s[0]);
        assert(s.take(k + 1).drop_first() =~= d.take(k));
        assert(s.take(k).drop_first() =~= d.take(k - 1));
        assert(d[k - 1] == s[k]);
        assert(xml_escape_char(s[0]) + (xml_escape_text(d.take(k - 1)) + xml_escape_char(s[k]))
            =~= (xml_escape_char(s[0]) + xml_escape_text(d.take(k - 1))) + xml_escape_char(s[k]));
    }
}

/// Escape a text for XML: ampersands, angle brackets and both quotes
/// become entities.
pub fn xml_escape(s: &str) -> (r: String)
    ensures
        r@ == xml_escape_text(s@),
{
    let n = s.unicode_len();
    let mut out: Vec<char> = Vec::new();
    let mut i: usize = 0;
    proof {
        assert(s@.take(0) =~= Seq::<char>::empty());
        reveal_strlit("&amp;");
        reveal_strlit("&lt;");
        reveal_strlit("&gt;");
        reveal_strlit("&quot;");
        reveal_strlit("&apos;");
    }
    while i < n
        invariant
            0 <= i <= n,
            n == s@.len(),
            out@ == xml_escape_text(s@.take(i as int)),
        decreases n - i,
    {
        let c = s.get_char(i);
        let ghost pre = out@;
        if c == '&' {
            out.push('&');
            out.push('a');
            out.push('m');
            out.push('p');
            out.push(';');
            proof {
                reveal_strlit("&amp;");
                assert(out@ =~= pre + "&amp;"@);
            }
        } else if c == '<' {
            out.push('&');
            out.push('l');
            out.push('t');
            out.push(';');
            proof {
                reveal_strlit("&lt;");
                assert(out@ =~= pre + "&lt;"@);
            }
        } else if c == '>' {
            out.push('&');
            out.push('g');
            out.push('t');
            out.push(';');
            proof {
                reveal_strlit("&gt;");
                assert(out@ =~= pre + "&gt;"@);
            }
        } else if c == '"' {
            out.push('&');
            out.push('q');
            out.push('u');
            out.push('o');
            out.push('t');
            out.push(';');
            proof {
                reveal_strlit("&quot;");
                assert(out@ =~= pre + "&quot;"@);
            }
        } else if c == '\'' {
            out.push('&');
            out.push('a');
            out.push('p');
            out.push('o');
            out.push('s');
            out.push(';');
            proof {
                reveal_strlit("&apos;");
                assert(out@ =~= pre + "&apos;"@);
            }
        } else {
            out.push(c);
            proof {
                assert(out@ =~= pre + seq![s@[i as int]]);
            }
        }
        proof {
            lemma_xml_escape_snoc(s@, i as int);
        }
        i = i + 1;
    }
    proof {
        assert(s@.take(n as int) =~= s@);
    }
    string_from_chars(&out)
}

/// What one character of a file name becomes: path separators and the NUL
/// byte become underscores, and every dot does too when the name starts
/// with a dot.
pub open spec fn sanitize_char(c: char, leading_dot: bool) -> char {
    if c == '/' || c == '\\' || c as u32 == 0 {
        '_'
    } else if c == '.' && leading_dot {
        '_'
    } else {
        c
    }
}

/// A file name with unsafe characters replaced.
pub open spec fn sanitize_name(s: Seq<char>) -> Seq<char> {
    Seq::new(s.len(), |i: int| sanitize_char(s[i], s.len() > 0 && s[0] == '.'))
}

/// Make a channel name safe as a file name: replace path separators and
/// NUL, and every dot of a dot-led name.
pub fn sanitize_filename(s: &str) -> (r: String)
    ensures
        r@ == sanitize_name(s@),
{
    let n = s.unicode_len();
    let leading_dot = n > 0 && s.get_char(0) == '.';
    let mut out: Vec<char> = Vec::new();
    let mut i: usize = 0;
    while i < n
        invariant
            0 <= i <= n,
            n == s@.len(),
            leading_dot == (s@.len() > 0 && s@[0] == '.'),
            out@ =~= sanitize_name(s@).take(i as int),
        decreases n - i,
    {
        let c = s.get_char(i);
        let mapped = if c == '/' || c == '\\' || c as u32 == 0 {
            '_'
        } else if c == '.' && leading_dot {
            '_'
        } else {
            c
        };
        out.push(mapped);
        proof {
            assert(out@ =~= sanitize_name(s@).take(i as int + 1));
        }
        i = i + 1;
    }
    proof {
        assert(out@ =~= sanitize_name(s@));
    }
    string_from_chars(&out)
}

/// The bytes of a percent-encoded text decoded: `%` followed by two
/// hexadecimal digits becomes that byte; anything else stays.
pub open spec fn pct_decode(bytes: Seq<u8>) -> Seq<u8>
    decreases bytes.len(),
{
    if bytes.len() == 0 {
        Seq::empty()
    } else if bytes[0] == 37 && bytes.len() >= 3 && is_hex_byte(bytes[1]) && is_hex_byte(
        bytes[2],
    ) {
        seq![(hex_byte_val(bytes[1]) * 16 + hex_byte_val(bytes[2])) as u8] + pct_decode(
            bytes.skip(3),
        )
    } else {
        seq![bytes[0]] + pct_decode(bytes.skip(1))
    }
}

/// Decode a percent-encoded request path.  Escapes that are not `%` plus
/// two hexadecimal digits stay as they are; the decoded bytes are read
/// back as UTF-8, with invalid sequences replaced.
pub fn percent_decode(s: &str) -> (r: String)
    ensures
        r@ == utf8_lossy(pct_decode(encode_utf8(s@))),
{
    let bytes = s.as_bytes();
    let n = bytes.len();
    let mut out: Vec<u8> = Vec::new();
    let mut i: usize = 0;
    proof {
        assert(bytes@.skip(0) =~= bytes@);
        assert(Seq::<u8>::empty() + pct_decode(bytes@) =~= pct_decode(bytes@));
    }
    while i < n
        invariant
            0 <= i <= n,
            n == bytes@.len(),
            pct_decode(bytes@) == out@ + pct_decode(bytes@.skip(i as int)),
        decreases n - i,
    {
        let ghost rem = bytes@.skip(i as int);
        proof {
            assert(rem[0] == bytes@[i as int]);
        }
        let b = bytes[i];
        let mut consumed = false;
        if b == 37 && n - i > 2 {
            proof {
                assert(rem[1] == bytes@[i as int + 1]);
                assert(rem[2] == bytes@[i as int + 2]);
            }
            let h1 = hex_digit_val(bytes[i + 1]);
            let h2 = hex_digit_val(bytes[i + 2]);
            match (h1, h2) {
                (Some(hi), Some(lo)) => {
                    let ghost pre = out@;
                    out.push(hi * 16 + lo);
                    proof {
                        assert(rem.skip(3) =~= bytes@.skip(i as int + 3));
                        assert(out@ =~= pre + seq![
                            (hex_byte_val(rem[1]) * 16 + hex_byte_val(rem[2])) as u8,
                        ]);
                        assert(pre + (seq![
                            (hex_byte_val(rem[1]) * 16 + hex_byte_val(rem[2])) as u8,
                        ] + pct_decode(rem.skip(3))) =~= out@ + pct_decode(rem.skip(3)));
                    }
                    i = i + 3;
                    consumed = true;
                },
                _ => {},
            }
        }
        if !consumed {
            let ghost pre = out@;
            out.push(b);
            proof {
                assert(rem.len() >= 3 ==> (rem[1] == bytes@[i as int + 1] && rem[2] == bytes@[
                    i as int + 2]));
                assert(rem.skip(1) =~= bytes@.skip(i as int + 1));
                assert(out@ =~= pre + seq![rem[0]]);
                assert(pre + (seq![rem[0]] + pct_decode(rem.skip(1))) =~= out@ + pct_decode(
                    rem.skip(1),
                ));
            }
            i = i + 1;
        }
    }
    proof {
        assert(bytes@.skip(n as int) =~= Seq::<u8>::empty());
        assert(pct_decode(Seq::<u8>::empty()) == Seq::<u8>::empty());
        assert(out@ + Seq::<u8>::empty() =~= out@);
        assert(bytes@ == encode_utf8(s@));
    }
    from_utf8_lossy(out.as_slice())
}

} // verus!
