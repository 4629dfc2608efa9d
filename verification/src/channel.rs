//! Channels and the zap-style channel file.
//!
//! A channel file line holds exactly 13 colon-separated fields:
//! `name:frequency:inversion:bandwidth:fec_hp:fec_lp:modulation:`
//! `transmission_mode:guard_interval:hierarchy:video_pid:audio_pid:service_id`.
//! Comment lines (`#`) and blank lines are skipped; numeric fields are
//! decimal.

use vstd::prelude::*;
use crate::linetext::{
    is_space, lemma_split_sep, lemma_split_whole, lemma_trim_id, no_char, split_char,
    split_char_vec, str_chars, trim, trim_chars,
};
use crate::strutil::{
    all_dec_digits, dec_seq, is_dec_digit, lemma_dec_seq_props, parse_u16, parse_u64, str_to_nat,
    string_from_chars,
};

verus! {

/// A tuned service: its display name, tuning parameters as zap-style
/// enumerated strings, and its PIDs and service id.
pub struct Channel {
    pub name: String,
    pub frequency: u64,
    pub inversion: String,
    pub bandwidth: String,
    pub fec_hp: String,
    pub fec_lp: String,
    pub modulation: String,
    pub transmission_mode: String,
    pub guard_interval: String,
    pub hierarchy: String,
    pub video_pid: u16,
    pub audio_pid: u16,
    pub service_id: u16,
}

/// The mathematical value of a channel: character sequences and numbers.
pub struct ChannelModel {
    pub name: Seq<char>,
    pub frequency: nat,
    pub inversion: Seq<char>,
    pub bandwidth: Seq<char>,
    pub fec_hp: Seq<char>,
    pub fec_lp: Seq<char>,
    pub modulation: Seq<char>,
    pub transmission_mode: Seq<char>,
    pub guard_interval: Seq<char>,
    pub hierarchy: Seq<char>,
    pub video_pid: nat,
    pub audio_pid: nat,
    pub service_id: nat,
}

impl View for Channel {
    type V = ChannelModel;

    open spec fn view(&self) -> ChannelModel {
        ChannelModel {
            name: self.name@,
            frequency: self.frequency as nat,
            inversion: self.inversion@,
            bandwidth: self.bandwidth@,
            fec_hp: self.fec_hp@,
            fec_lp: self.fec_lp@,
            modulation: self.modulation@,
            transmission_mode: self.transmission_mode@,
            guard_interval: self.guard_interval@,
            hierarchy: self.hierarchy@,
            video_pid: self.video_pid as nat,
            audio_pid: self.audio_pid as nat,
            service_id: self.service_id as nat,
        }
    }
}

/// The 13 fields of a channel line, in file order.
pub open spec fn channel_fields(m: ChannelModel) -> Seq<Seq<char>> {
    seq![
        m.name,
        dec_seq(m.frequency),
        m.inversion,
        m.bandwidth,
        m.fec_hp,
        m.fec_lp,
        m.modulation,
        m.transmission_mode,
        m.guard_interval,
        m.hierarchy,
        dec_seq(m.video_pid),
        dec_seq(m.audio_pid),
        dec_seq(m.service_id),
    ]
}

/// Fields joined with colons.
pub open spec fn join_colon(fields: Seq<Seq<char>>) -> Seq<char>
    decreases fields.len(),
{
    if fields.len() == 0 {
        Seq::empty()
    } else if fields.len() == 1 {
        fields[0]
    } else {
        fields[0] + seq![':'] + join_colon(fields.drop_first())
    }
}

/// The channel-file line of a channel.
pub open spec fn emit_channel_line(m: ChannelModel) -> Seq<char> {
    join_colon(channel_fields(m))
}

/// Write a channel as its channel-file line.
pub fn channel_to_zap_line(ch: &Channel) -> (r: String)
    ensures
        r@ == emit_channel_line(ch@),
{
    let mut s = String::new();
    s.append(ch.name.as_str());
    s.append(":");
    let freq = crate::strutil::u64_to_dec(ch.frequency);
    s.append(freq.as_str());
    s.append(":");
    s.append(ch.inversion.as_str());
    s.append(":");
    s.append(ch.bandwidth.as_str());
    s.append(":");
    s.append(ch.fec_hp.as_str());
    s.append(":");
    s.append(ch.fec_lp.as_str());
    s.append(":");
    s.append(ch.modulation.as_str());
    s.append(":");
    s.append(ch.transmission_mode.as_str());
    s.append(":");
    s.append(ch.guard_interval.as_str());
    s.append(":");
    s.append(ch.hierarchy.as_str());
    s.append(":");
    let vp = crate::strutil::u16_to_dec(ch.video_pid);
    s.append(vp.as_str());
    s.append(":");
    let ap = crate::strutil::u16_to_dec(ch.audio_pid);
    s.append(ap.as_str());
    s.append(":");
    let sid = crate::strutil::u16_to_dec(ch.service_id);
    s.append(sid.as_str());
    proof {
        reveal_strlit(":");
        let fs = channel_fields(ch@);
        assert(s@ =~= join_colon(fs)) by {
            assert(join_colon(fs) =~= fs[0] + seq![':'] + join_colon(fs.drop_first()));
            assert(fs.drop_first() =~= channel_fields(ch@).skip(1));
            lemma_join_colon_unfold_13(fs);
        }
    }
    s
}

/// Unfolds the join of a 13-field list into one concatenation.
#[verifier::rlimit(100)]
proof fn lemma_join_colon_unfold_13(fs: Seq<Seq<char>>)
    requires
        fs.len() == 13,
    ensures
        join_colon(fs) =~= fs[0] + seq![':'] + fs[1] + seq![':'] + fs[2] + seq![':'] + fs[3]
            + seq![':'] + fs[4] + seq![':'] + fs[5] + seq![':'] + fs[6] + seq![':'] + fs[7]
            + seq![':'] + fs[8] + seq![':'] + fs[9] + seq![':'] + fs[10] + seq![':'] + fs[11]
            + seq![':'] + fs[12],
{
    let f1 = fs.drop_first();
    let f2 = f1.drop_first();
    let f3 = f2.drop_first();
    let f4 = f3.drop_first();
    let f5 = f4.drop_first();
    let f6 = f5.drop_first();
    let f7 = f6.drop_first();
    let f8 = f7.drop_first();
    let f9 = f8.drop_first();
    let f10 = f9.drop_first();
    let f11 = f10.drop_first();
    let f12 = f11.drop_first();
    assert(f12.len() == 1);
    assert(join_colon(f12) == f12[0]);
    assert(join_colon(f11) =~= f11[0] + seq![':'] + join_colon(f12));
    assert(join_colon(f10) =~= f10[0] + seq![':'] + join_colon(f11));
    assert(join_colon(f9) =~= f9[0] + seq![':'] + join_colon(f10));
    assert(join_colon(f8) =~= f8[0] + seq![':'] + join_colon(f9));
    assert(join_colon(f7) =~= f7[0] + seq![':'] + join_colon(f8));
    assert(join_colon(f6) =~= f6[0] + seq![':'] + join_colon(f7));
    assert(join_colon(f5) =~= f5[0] + seq![':'] + join_colon(f6));
    assert(join_colon(f4) =~= f4[0] + seq![':'] + join_colon(f5));
    assert(join_colon(f3) =~= f3[0] + seq![':'] + join_colon(f4));
    assert(join_colon(f2) =~= f2[0] + seq![':'] + join_colon(f3));
    assert(join_colon(f1) =~= f1[0] + seq![':'] + join_colon(f2));
    assert(join_colon(fs) =~= fs[0] + seq![':'] + join_colon(f1));
}

/// Splitting a colon-join of colon-free fields recovers the fields.
proof fn lemma_split_join(fields: Seq<Seq<char>>)
    requires
        fields.len() >= 1,
        forall|i: int| 0 <= i < fields.len() ==> no_char(#[trigger] fields[i], ':'),
    ensures
        split_char(join_colon(fields), ':') == fields,
    decreases fields.len(),
{
    if fields.len() == 1 {
        lemma_split_whole(fields[0], ':');
        assert(split_char(join_colon(fields), ':') =~= fields);
    } else {
        let rest = fields.drop_first();
        lemma_split_join(rest);
        assert(join_colon(fields) == fields[0] + seq![':'] + join_colon(rest));
        lemma_split_sep(fields[0], join_colon(rest), ':');
        assert(seq![fields[0]] + split_char(join_colon(rest), ':') =~= fields);
    }
}

/// A digit string: nonempty decimal digits whose value fits a u64.
pub open spec fn is_dec_u64(s: Seq<char>) -> bool {
    s.len() > 0 && all_dec_digits(s) && str_to_nat(s) <= u64::MAX
}

/// A digit string: nonempty decimal digits whose value fits a u16.
pub open spec fn is_dec_u16(s: Seq<char>) -> bool {
    s.len() > 0 && all_dec_digits(s) && str_to_nat(s) <= u16::MAX
}

/// How one channel-file line parses.
pub enum LineParse {
    /// A blank line or a `#` comment.
    Skip,
    /// Wrong number of colon-separated fields.
    BadCount(nat),
    /// A numeric field (by its index) that is not a decimal number in range.
    BadNumber(nat),
    /// A channel record.
    Chan(ChannelModel),
}

/// Parse of one channel-file line: trim, skip blanks and comments, then
/// demand exactly 13 colon-separated fields with decimal numbers in fields
/// 1 (frequency), 10, 11 and 12 (PIDs and service id).
pub open spec fn parse_line(s: Seq<char>) -> LineParse {
    let t = trim(s);
    if t.len() == 0 || t[0] == '#' {
        LineParse::Skip
    } else {
        let fs = split_char(t, ':');
        if fs.len() != 13 {
            LineParse::BadCount(fs.len())
        } else if !is_dec_u64(fs[1]) {
            LineParse::BadNumber(1)
        } else if !is_dec_u16(fs[10]) {
            LineParse::BadNumber(10)
        } else if !is_dec_u16(fs[11]) {
            LineParse::BadNumber(11)
        } else if !is_dec_u16(fs[12]) {
            LineParse::BadNumber(12)
        } else {
            LineParse::Chan(
                ChannelModel {
                    name: fs[0],
                    frequency: str_to_nat(fs[1]),
                    inversion: fs[2],
                    bandwidth: fs[3],
                    fec_hp: fs[4],
                    fec_lp: fs[5],
                    modulation: fs[6],
                    transmission_mode: fs[7],
                    guard_interval: fs[8],
                    hierarchy: fs[9],
                    video_pid: str_to_nat(fs[10]),
                    audio_pid: str_to_nat(fs[11]),
                    service_id: str_to_nat(fs[12]),
                },
            )
        }
    }
}

/// A fault in one channel-file line.
#[derive(Debug)]
pub enum LineFault {
    /// The line does not have 13 fields; holds the count seen.
    FieldCount { got: usize },
    /// The numeric field at this index does not parse.
    BadNumber { field: usize },
}

/// Outcome of parsing one channel-file line.
pub enum ParsedLine {
    /// A blank line or a comment.
    Skip,
    /// A malformed line.
    Fault(LineFault),
    /// A parsed channel.
    Chan(Channel),
}

/// Parse one channel-file line.
pub fn parse_channel_line(line: &str) -> (r: ParsedLine)
    ensures
        ({
            let p = parse_line(line@);
            match r {
                ParsedLine::Skip => p is Skip,
                ParsedLine::Fault(LineFault::FieldCount { got }) => p == LineParse::BadCount(
                    got as nat,
                ),
                ParsedLine::Fault(LineFault::BadNumber { field }) => p == LineParse::BadNumber(
                    field as nat,
                ),
                ParsedLine::Chan(c) => p == LineParse::Chan(c@),
            }
        }),
{
    let cs = str_chars(line);
    let t = trim_chars(&cs);
    if t.len() == 0 {
        return ParsedLine::Skip;
    }
    if t[0] == '#' {
        return ParsedLine::Skip;
    }
    let fs = split_char_vec(&t, ':');
    if fs.len() != 13 {
        return ParsedLine::Fault(LineFault::FieldCount { got: fs.len() });
    }
    let freq_s = string_from_chars(&fs[1]);
    let frequency = match parse_u64(freq_s.as_str()) {
        Some(v) => v,
        None => {
            return ParsedLine::Fault(LineFault::BadNumber { field: 1 });
        },
    };
    let vp_s = string_from_chars(&fs[10]);
    let video_pid = match parse_u16(vp_s.as_str()) {
        Some(v) => v,
        None => {
            return ParsedLine::Fault(LineFault::BadNumber { field: 10 });
        },
    };
    let ap_s = string_from_chars(&fs[11]);
    let audio_pid = match parse_u16(ap_s.as_str()) {
        Some(v) => v,
        None => {
            return ParsedLine::Fault(LineFault::BadNumber { field: 11 });
        },
    };
    let sid_s = string_from_chars(&fs[12]);
    let service_id = match parse_u16(sid_s.as_str()) {
        Some(v) => v,
        None => {
            return ParsedLine::Fault(LineFault::BadNumber { field: 12 });
        },
    };
    ParsedLine::Chan(
        Channel {
            name: string_from_chars(&fs[0]),
            frequency,
            inversion: string_from_chars(&fs[2]),
            bandwidth: string_from_chars(&fs[3]),
            fec_hp: string_from_chars(&fs[4]),
            fec_lp: string_from_chars(&fs[5]),
            modulation: string_from_chars(&fs[6]),
            transmission_mode: string_from_chars(&fs[7]),
            guard_interval: string_from_chars(&fs[8]),
            hierarchy: string_from_chars(&fs[9]),
            video_pid,
            audio_pid,
            service_id,
        },
    )
}

/// A malformed channel file: the 1-based line and what is wrong there.
#[derive(Debug)]
pub enum ChannelFileError {
    /// The line does not have 13 fields; holds the count seen.
    FieldCount { line: usize, got: usize },
    /// The numeric field at this index does not parse.
    BadNumber { line: usize, field: usize },
}

/// Parse of a sequence of lines, the first starting at 1-based number
/// `k + 1`: skips blanks and comments, collects channels, and stops at the
/// first malformed line.
pub open spec fn parse_lines(lines: Seq<Seq<char>>, k: nat) -> Result<
    Seq<ChannelModel>,
    ChannelFileError,
>
    decreases lines.len(),
{
    if lines.len() == 0 {
        Ok(Seq::empty())
    } else {
        match parse_line(lines[0]) {
            LineParse::Skip => parse_lines(lines.drop_first(), (k + 1) as nat),
            LineParse::BadCount(got) => Err(
                ChannelFileError::FieldCount { line: (k + 1) as usize, got: got as usize },
            ),
            LineParse::BadNumber(field) => Err(
                ChannelFileError::BadNumber { line: (k + 1) as usize, field: field as usize },
            ),
            LineParse::Chan(m) => match parse_lines(lines.drop_first(), (k + 1) as nat) {
                Ok(v) => Ok(seq![m] + v),
                Err(e) => Err(e),
            },
        }
    }
}

/// Parse of a whole channel file: its lines, parsed in order.
pub open spec fn parse_channels(text: Seq<char>) -> Result<Seq<ChannelModel>, ChannelFileError> {
    parse_lines(split_char(text, '\n'), 0)
}

/// Parse a channel file.  Comments and blank lines are skipped; every other
/// line must hold exactly 13 colon-separated fields with decimal numbers in
/// the numeric positions, else the whole file fails with a line-numbered
/// error.
pub fn parse_channels_text(text: &str) -> (r: Result<Vec<Channel>, ChannelFileError>)
    ensures
        r is Ok <==> parse_channels(text@) is Ok,
        r matches Ok(v) ==> {
            let ms = parse_channels(text@)->Ok_0;
            v@.len() == ms.len() && forall|i: int| 0 <= i < v@.len() ==> #[trigger] v@[i]@ == ms[i]
        },
        r matches Err(e) ==> parse_channels(text@) == Err::<Seq<ChannelModel>, _>(e),
{
    let cs = str_chars(text);
    let lines = split_char_vec(&cs, '\n');
    let ghost lseq = split_char(text@, '\n');
    let n = lines.len();
    let mut out: Vec<Channel> = Vec::new();
    let mut i: usize = 0;
    proof {
        assert(lseq.skip(0) =~= lseq);
    }
    while i < n
        invariant
            0 <= i <= n,
            n == lseq.len(),
            lseq == split_char(text@, '\n'),
            lines@.len() == lseq.len(),
            forall|j: int| 0 <= j < lseq.len() ==> #[trigger] lines@[j]@ == lseq[j],
            parse_lines(lseq, 0) == match parse_lines(lseq.skip(i as int), i as nat) {
                Ok(v) => Ok::<Seq<ChannelModel>, ChannelFileError>(
                    Seq::new(out@.len() as nat, |j: int| out@[j]@) + v,
                ),
                Err(e) => Err::<Seq<ChannelModel>, ChannelFileError>(e),
            },
        decreases n - i,
    {
        let line = string_from_chars(&lines[i]);
        let ghost rem = lseq.skip(i as int);
        proof {
            assert(rem[0] == lseq[i as int]);
            assert(rem.drop_first() =~= lseq.skip(i as int + 1));
        }
        let ghost oldm = Seq::new(out@.len() as nat, |j: int| out@[j]@);
        match parse_channel_line(line.as_str()) {
            ParsedLine::Skip => {},
            ParsedLine::Fault(LineFault::FieldCount { got }) => {
                proof {
                    assert(parse_lines(rem, i as nat) == Err::<Seq<ChannelModel>, _>(
                        ChannelFileError::FieldCount { line: (i + 1) as usize, got },
                    ));
                }
                return Err(ChannelFileError::FieldCount { line: i + 1, got });
            },
            ParsedLine::Fault(LineFault::BadNumber { field }) => {
                proof {
                    assert(parse_lines(rem, i as nat) == Err::<Seq<ChannelModel>, _>(
                        ChannelFileError::BadNumber { line: (i + 1) as usize, field },
                    ));
                }
                return Err(ChannelFileError::BadNumber { line: i + 1, field });
            },
            ParsedLine::Chan(c) => {
                out.push(c);
                proof {
                    let newm = Seq::new(out@.len() as nat, |j: int| out@[j]@);
                    assert(newm =~= oldm + seq![c@]);
                    if parse_lines(lseq.skip(i as int + 1), (i + 1) as nat) is Ok {
                        let v = parse_lines(lseq.skip(i as int + 1), (i + 1) as nat)->Ok_0;
                        assert(oldm + (seq![c@] + v) =~= newm + v);
                    }
                }
            },
        }
        i = i + 1;
    }
    proof {
        assert(lseq.skip(n as int) =~= Seq::<Seq<char>>::empty());
        let fin = Seq::new(out@.len() as nat, |j: int| out@[j]@);
        assert(fin + Seq::<ChannelModel>::empty() =~= fin);
    }
    Ok(out)
}

/// A channel whose line survives a write/read cycle: no string field holds
/// a colon or a newline, and the name neither begins with `#` nor with
/// whitespace.
pub open spec fn line_safe(m: ChannelModel) -> bool {
    &&& no_char(m.name, ':') && no_char(m.name, '\n')
    &&& no_char(m.inversion, ':') && no_char(m.inversion, '\n')
    &&& no_char(m.bandwidth, ':') && no_char(m.bandwidth, '\n')
    &&& no_char(m.fec_hp, ':') && no_char(m.fec_hp, '\n')
    &&& no_char(m.fec_lp, ':') && no_char(m.fec_lp, '\n')
    &&& no_char(m.modulation, ':') && no_char(m.modulation, '\n')
    &&& no_char(m.transmission_mode, ':') && no_char(m.transmission_mode, '\n')
    &&& no_char(m.guard_interval, ':') && no_char(m.guard_interval, '\n')
    &&& no_char(m.hierarchy, ':') && no_char(m.hierarchy, '\n')
    &&& (m.name.len() > 0 ==> m.name[0] != '#' && !is_space(m.name[0]))
    &&& m.frequency <= u64::MAX
    &&& m.video_pid <= u16::MAX
    &&& m.audio_pid <= u16::MAX
    &&& m.service_id <= u16::MAX
}

/// Digit strings hold no separator and no whitespace.
proof fn lemma_dec_seq_plain(n: nat)
    ensures
        no_char(dec_seq(n), ':'),
        dec_seq(n).len() > 0,
        !is_space(dec_seq(n)[0]),
        !is_space(dec_seq(n).last()),
    decreases n,
{
    lemma_dec_seq_props(n);
    assert(forall|i: int|
        0 <= i < dec_seq(n).len() ==> is_dec_digit(#[trigger] dec_seq(n)[i]));
    assert(forall|c: char| is_dec_digit(c) ==> c != ':' && !is_space(c));
}

/// Writing a channel as its line and parsing the line yields the channel
/// back, for any channel whose fields survive the textual form.
pub proof fn lemma_channel_line_round_trip(m: ChannelModel)
    requires
        line_safe(m),
    ensures
        parse_line(emit_channel_line(m)) == LineParse::Chan(m),
{
    let fs = channel_fields(m);
    let line = emit_channel_line(m);
    lemma_dec_seq_plain(m.frequency);
    lemma_dec_seq_plain(m.video_pid);
    lemma_dec_seq_plain(m.audio_pid);
    lemma_dec_seq_plain(m.service_id);
    lemma_join_colon_unfold_13(fs);
    // the line is nonempty and has no whitespace at either end
    assert(line.len() > 0);
    if m.name.len() > 0 {
        assert(line[0] == m.name[0]);
    } else {
        assert(line[0] == ':');
    }
    assert(line.last() == dec_seq(m.service_id).last()) by {
        assert(line =~= (fs[0] + seq![':'] + fs[1] + seq![':'] + fs[2] + seq![':'] + fs[3]
            + seq![':'] + fs[4] + seq![':'] + fs[5] + seq![':'] + fs[6] + seq![':'] + fs[7]
            + seq![':'] + fs[8] + seq![':'] + fs[9] + seq![':'] + fs[10] + seq![':'] + fs[11]
            + seq![':']) + fs[12]);
    }
    lemma_trim_id(line);
    assert(trim(line) == line);
    assert(line[0] != '#');
    // splitting recovers the 13 fields
    assert(forall|i: int| 0 <= i < fs.len() ==> no_char(#[trigger] fs[i], ':'));
    lemma_split_join(fs);
    assert(split_char(trim(line), ':') == fs);
    // the numeric fields read back as the numbers
    lemma_dec_seq_props(m.frequency);
    lemma_dec_seq_props(m.video_pid);
    lemma_dec_seq_props(m.audio_pid);
    lemma_dec_seq_props(m.service_id);
    assert(is_dec_u64(fs[1]));
    assert(is_dec_u16(fs[10]));
    assert(is_dec_u16(fs[11]));
    assert(is_dec_u16(fs[12]));
    assert(parse_line(line) == LineParse::Chan(m));
}

} // verus!
