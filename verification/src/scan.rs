//! Channel scanning: the dvbv5 scan-file entry, its translation to the
//! zap-style vocabulary, and the PSI table parsers (PAT, SDT, PMT) with the
//! per-multiplex channel join.

use vstd::prelude::*;
use vstd::string::StringExecFns;
use crate::channel::{is_dec_u64, Channel};
use crate::linetext::{split_char, split_char_vec, split_first, split_first_chars, str_chars, trim, trim_chars};
use crate::sections::{be16, len12, pid13, read_be16, read_len12, read_pid13, section_end};
use crate::strutil::{parse_u64, str_eq, str_to_nat, string_from_chars};

verus! {

/// The byte rows of a vector of byte vectors.
pub open spec fn rows_of(v: Vec<Vec<u8>>) -> Seq<Seq<u8>> {
    Seq::new(v@.len() as nat, |i: int| v@[i]@)
}

/// Tuning parameters in dvbv5 vocabulary, as read from a scan file.
pub struct ScanEntry {
    pub delivery_system: String,
    pub frequency: u64,
    pub bandwidth_hz: u64,
    pub code_rate_hp: String,
    pub code_rate_lp: String,
    pub modulation: String,
    pub transmission_mode: String,
    pub guard_interval: String,
    pub hierarchy: String,
    pub inversion: String,
}

/// The mathematical value of a scan entry.
pub struct ScanEntryModel {
    pub delivery_system: Seq<char>,
    pub frequency: nat,
    pub bandwidth_hz: nat,
    pub code_rate_hp: Seq<char>,
    pub code_rate_lp: Seq<char>,
    pub modulation: Seq<char>,
    pub transmission_mode: Seq<char>,
    pub guard_interval: Seq<char>,
    pub hierarchy: Seq<char>,
    pub inversion: Seq<char>,
}

impl View for ScanEntry {
    type V = ScanEntryModel;

    open spec fn view(&self) -> ScanEntryModel {
        ScanEntryModel {
            delivery_system: self.delivery_system@,
            frequency: self.frequency as nat,
            bandwidth_hz: self.bandwidth_hz as nat,
            code_rate_hp: self.code_rate_hp@,
            code_rate_lp: self.code_rate_lp@,
            modulation: self.modulation@,
            transmission_mode: self.transmission_mode@,
            guard_interval: self.guard_interval@,
            hierarchy: self.hierarchy@,
            inversion: self.inversion@,
        }
    }
}

/// zap spelling of a dvbv5 inversion token; unknown tokens map to auto.
pub open spec fn zap_inversion(s: Seq<char>) -> Seq<char> {
    if s == "AUTO"@ {
        "INVERSION_AUTO"@
    } else if s == "ON"@ {
        "INVERSION_ON"@
    } else if s == "OFF"@ {
        "INVERSION_OFF"@
    } else {
        "INVERSION_AUTO"@
    }
}

/// zap spelling of a bandwidth in Hz; unknown values map to auto.
pub open spec fn zap_bandwidth(hz: u64) -> Seq<char> {
    if hz == 5000000 {
        "BANDWIDTH_5_MHZ"@
    } else if hz == 6000000 {
        "BANDWIDTH_6_MHZ"@
    } else if hz == 7000000 {
        "BANDWIDTH_7_MHZ"@
    } else if hz == 8000000 {
        "BANDWIDTH_8_MHZ"@
    } else if hz == 10000000 {
        "BANDWIDTH_10_MHZ"@
    } else if hz == 1712000 {
        "BANDWIDTH_1_712_MHZ"@
    } else {
        "BANDWIDTH_AUTO"@
    }
}

/// zap spelling of a dvbv5 code-rate token; unknown tokens map to auto.
pub open spec fn zap_fec(s: Seq<char>) -> Seq<char> {
    if s == "NONE"@ {
        "FEC_NONE"@
    } else if s == "1/2"@ {
        "FEC_1_2"@
    } else if s == "2/3"@ {
        "FEC_2_3"@
    } else if s == "3/4"@ {
        "FEC_3_4"@
    } else if s == "4/5"@ {
        "FEC_4_5"@
    } else if s == "5/6"@ {
        "FEC_5_6"@
    } else if s == "6/7"@ {
        "FEC_6_7"@
    } else if s == "7/8"@ {
        "FEC_7_8"@
    } else if s == "8/9"@ {
        "FEC_8_9"@
    } else if s == "AUTO"@ {
        "FEC_AUTO"@
    } else {
        "FEC_AUTO"@
    }
}

/// zap spelling of a dvbv5 modulation token; unknown tokens map to auto.
pub open spec fn zap_modulation(s: Seq<char>) -> Seq<char> {
    if s == "QPSK"@ {
        "QPSK"@
    } else if s == "QAM/16"@ {
        "QAM_16"@
    } else if s == "QAM/32"@ {
        "QAM_32"@
    } else if s == "QAM/64"@ {
        "QAM_64"@
    } else if s == "QAM/128"@ {
        "QAM_128"@
    } else if s == "QAM/256"@ {
        "QAM_256"@
    } else if s == "QAM/AUTO"@ {
        "QAM_AUTO"@
    } else {
        "QAM_AUTO"@
    }
}

/// zap spelling of a dvbv5 transmission-mode token; unknown tokens map to
/// auto.
pub open spec fn zap_transmission(s: Seq<char>) -> Seq<char> {
    if s == "1K"@ {
        "TRANSMISSION_MODE_1K"@
    } else if s == "2K"@ {
        "TRANSMISSION_MODE_2K"@
    } else if s == "4K"@ {
        "TRANSMISSION_MODE_4K"@
    } else if s == "8K"@ {
        "TRANSMISSION_MODE_8K"@
    } else if s == "16K"@ {
        "TRANSMISSION_MODE_16K"@
    } else if s == "32K"@ {
        "TRANSMISSION_MODE_32K"@
    } else if s == "AUTO"@ {
        "TRANSMISSION_MODE_AUTO"@
    } else {
        "TRANSMISSION_MODE_AUTO"@
    }
}

/// zap spelling of a dvbv5 guard-interval token; unknown tokens map to
/// auto.
pub open spec fn zap_guard(s: Seq<char>) -> Seq<char> {
    if s == "1/32"@ {
        "GUARD_INTERVAL_1_32"@
    } else if s == "1/16"@ {
        "GUARD_INTERVAL_1_16"@
    } else if s == "1/8"@ {
        "GUARD_INTERVAL_1_8"@
    } else if s == "1/4"@ {
        "GUARD_INTERVAL_1_4"@
    } else if s == "AUTO"@ {
        "GUARD_INTERVAL_AUTO"@
    } else {
        "GUARD_INTERVAL_AUTO"@
    }
}

/// zap spelling of a dvbv5 hierarchy token; unknown tokens map to none.
pub open spec fn zap_hierarchy(s: Seq<char>) -> Seq<char> {
    if s == "NONE"@ {
        "HIERARCHY_NONE"@
    } else if s == "1"@ {
        "HIERARCHY_1"@
    } else if s == "2"@ {
        "HIERARCHY_2"@
    } else if s == "4"@ {
        "HIERARCHY_4"@
    } else if s == "AUTO"@ {
        "HIERARCHY_AUTO"@
    } else {
        "HIERARCHY_NONE"@
    }
}

/// Translate a dvbv5 inversion token to its zap spelling.
pub fn dvbv5_to_zap_inversion(s: &str) -> (r: String)
    ensures
        r@ == zap_inversion(s@),
{
    if str_eq(s, "AUTO") {
        String::from_str("INVERSION_AUTO")
    } else if str_eq(s, "ON") {
        String::from_str("INVERSION_ON")
    } else if str_eq(s, "OFF") {
        String::from_str("INVERSION_OFF")
    } else {
        String::from_str("INVERSION_AUTO")
    }
}

/// Translate a bandwidth in Hz to its zap spelling.
pub fn dvbv5_to_zap_bandwidth(hz: u64) -> (r: String)
    ensures
        r@ == zap_bandwidth(hz),
{
    if hz == 5000000 {
        String::from_str("BANDWIDTH_5_MHZ")
    } else if hz == 6000000 {
        String::from_str("BANDWIDTH_6_MHZ")
    } else if hz == 7000000 {
        String::from_str("BANDWIDTH_7_MHZ")
    } else if hz == 8000000 {
        String::from_str("BANDWIDTH_8_MHZ")
    } else if hz == 10000000 {
        String::from_str("BANDWIDTH_10_MHZ")
    } else if hz == 1712000 {
        String::from_str("BANDWIDTH_1_712_MHZ")
    } else {
        String::from_str("BANDWIDTH_AUTO")
    }
}

/// Translate a dvbv5 code-rate token to its zap spelling.
pub fn dvbv5_to_zap_fec(s: &str) -> (r: String)
    ensures
        r@ == zap_fec(s@),
{
    if str_eq(s, "NONE") {
        String::from_str("FEC_NONE")
    } else if str_eq(s, "1/2") {
        String::from_str("FEC_1_2")
    } else if str_eq(s, "2/3") {
        String::from_str("FEC_2_3")
    } else if str_eq(s, "3/4") {
        String::from_str("FEC_3_4")
    } else if str_eq(s, "4/5") {
        String::from_str("FEC_4_5")
    } else if str_eq(s, "5/6") {
        String::from_str("FEC_5_6")
    } else if str_eq(s, "6/7") {
        String::from_str("FEC_6_7")
    } else if str_eq(s, "7/8") {
        String::from_str("FEC_7_8")
    } else if str_eq(s, "8/9") {
        String::from_str("FEC_8_9")
    } else if str_eq(s, "AUTO") {
        String::from_str("FEC_AUTO")
    } else {
        String::from_str("FEC_AUTO")
    }
}

/// Translate a dvbv5 modulation token to its zap spelling.
pub fn dvbv5_to_zap_modulation(s: &str) -> (r: String)
    ensures
        r@ == zap_modulation(s@),
{
    if str_eq(s, "QPSK") {
        String::from_str("QPSK")
    } else if str_eq(s, "QAM/16") {
        String::from_str("QAM_16")
    } else if str_eq(s, "QAM/32") {
        String::from_str("QAM_32")
    } else if str_eq(s, "QAM/64") {
        String::from_str("QAM_64")
    } else if str_eq(s, "QAM/128") {
        String::from_str("QAM_128")
    } else if str_eq(s, "QAM/256") {
        String::from_str("QAM_256")
    } else if str_eq(s, "QAM/AUTO") {
        String::from_str("QAM_AUTO")
    } else {
        String::from_str("QAM_AUTO")
    }
}

/// Translate a dvbv5 transmission-mode token to its zap spelling.
pub fn dvbv5_to_zap_transmission(s: &str) -> (r: String)
    ensures
        r@ == zap_transmission(s@),
{
    if str_eq(s, "1K") {
        String::from_str("TRANSMISSION_MODE_1K")
    } else if str_eq(s, "2K") {
        String::from_str("TRANSMISSION_MODE_2K")
    } else if str_eq(s, "4K") {
        String::from_str("TRANSMISSION_MODE_4K")
    } else if str_eq(s, "8K") {
        String::from_str("TRANSMISSION_MODE_8K")
    } else if str_eq(s, "16K") {
        String::from_str("TRANSMISSION_MODE_16K")
    } else if str_eq(s, "32K") {
        String::from_str("TRANSMISSION_MODE_32K")
    } else if str_eq(s, "AUTO") {
        String::from_str("TRANSMISSION_MODE_AUTO")
    } else {
        String::from_str("TRANSMISSION_MODE_AUTO")
    }
}

/// Translate a dvbv5 guard-interval token to its zap spelling.
pub fn dvbv5_to_zap_guard(s: &str) -> (r: String)
    ensures
        r@ == zap_guard(s@),
{
    if str_eq(s, "1/32") {
        String::from_str("GUARD_INTERVAL_1_32")
    } else if str_eq(s, "1/16") {
        String::from_str("GUARD_INTERVAL_1_16")
    } else if str_eq(s, "1/8") {
        String::from_str("GUARD_INTERVAL_1_8")
    } else if str_eq(s, "1/4") {
        String::from_str("GUARD_INTERVAL_1_4")
    } else if str_eq(s, "AUTO") {
        String::from_str("GUARD_INTERVAL_AUTO")
    } else {
        String::from_str("GUARD_INTERVAL_AUTO")
    }
}

/// Translate a dvbv5 hierarchy token to its zap spelling.
pub fn dvbv5_to_zap_hierarchy(s: &str) -> (r: String)
    ensures
        r@ == zap_hierarchy(s@),
{
    if str_eq(s, "NONE") {
        String::from_str("HIERARCHY_NONE")
    } else if str_eq(s, "1") {
        String::from_str("HIERARCHY_1")
    } else if str_eq(s, "2") {
        String::from_str("HIERARCHY_2")
    } else if str_eq(s, "4") {
        String::from_str("HIERARCHY_4")
    } else if str_eq(s, "AUTO") {
        String::from_str("HIERARCHY_AUTO")
    } else {
        String::from_str("HIERARCHY_NONE")
    }
}

impl ScanEntry {
    /// The tuning parameters of a scan entry as a channel in zap
    /// vocabulary, with a blank name and zero PIDs and service id.
    pub fn to_channel(&self) -> (r: Channel)
        ensures
            r@.name == Seq::<char>::empty(),
            r.frequency == self.frequency,
            r@.inversion == zap_inversion(self.inversion@),
            r@.bandwidth == zap_bandwidth(self.bandwidth_hz),
            r@.fec_hp == zap_fec(self.code_rate_hp@),
            r@.fec_lp == zap_fec(self.code_rate_lp@),
            r@.modulation == zap_modulation(self.modulation@),
            r@.transmission_mode == zap_transmission(self.transmission_mode@),
            r@.guard_interval == zap_guard(self.guard_interval@),
            r@.hierarchy == zap_hierarchy(self.hierarchy@),
            r.video_pid == 0,
            r.audio_pid == 0,
            r.service_id == 0,
    {
        Channel {
            name: String::new(),
            frequency: self.frequency,
            inversion: dvbv5_to_zap_inversion(self.inversion.as_str()),
            bandwidth: dvbv5_to_zap_bandwidth(self.bandwidth_hz),
            fec_hp: dvbv5_to_zap_fec(self.code_rate_hp.as_str()),
            fec_lp: dvbv5_to_zap_fec(self.code_rate_lp.as_str()),
            modulation: dvbv5_to_zap_modulation(self.modulation.as_str()),
            transmission_mode: dvbv5_to_zap_transmission(self.transmission_mode.as_str()),
            guard_interval: dvbv5_to_zap_guard(self.guard_interval.as_str()),
            hierarchy: dvbv5_to_zap_hierarchy(self.hierarchy.as_str()),
            video_pid: 0,
            audio_pid: 0,
            service_id: 0,
        }
    }
}

/// One Program Association Table entry: a service and the PID of its
/// Program Map Table.
#[derive(Clone, Copy, PartialEq, Eq, Structural, Debug)]
pub struct PatEntry {
    pub service_id: u16,
    pub pmt_pid: u16,
}

/// A failure of the PSI table parsers.
#[derive(Clone, Copy, PartialEq, Eq, Structural, Debug)]
pub enum PsiError {
    /// No service was found in any PAT section.
    PatNoServices,
    /// A PMT section shorter than its fixed header.
    PmtTooShort,
    /// A PMT section shorter than its declared section length.
    PmtTruncated,
}

/// A PAT section that the walker reads: long enough for its header and for
/// its declared section length.
pub open spec fn pat_section_ok(data: Seq<u8>) -> bool {
    data.len() >= 12 && data.len() >= section_end(data)
}

/// How many 4-byte entries fit between the 8-byte header and the CRC
/// trailer.
pub open spec fn pat_entry_count(data: Seq<u8>) -> int {
    let entries_end = section_end(data) - 4;
    if entries_end >= 12 {
        (entries_end - 8) / 4
    } else {
        0
    }
}

/// The raw entries of one PAT section, NIT entries included.
pub open spec fn pat_raw_entries(data: Seq<u8>) -> Seq<PatEntry> {
    Seq::new(
        pat_entry_count(data) as nat,
        |i: int|
            PatEntry {
                service_id: be16(data, 8 + 4 * i),
                pmt_pid: pid13(data, 8 + 4 * i + 2),
            },
    )
}

/// The service entries of one PAT section: a malformed section yields none,
/// and entries with program number zero designate the NIT and are skipped.
pub open spec fn pat_section_entries(data: Seq<u8>) -> Seq<PatEntry> {
    if pat_section_ok(data) {
        pat_raw_entries(data).filter(|e: PatEntry| e.service_id != 0)
    } else {
        Seq::empty()
    }
}

/// The service entries of a run of PAT sections, in order.
pub open spec fn pat_all_entries(sections: Seq<Seq<u8>>) -> Seq<PatEntry>
    decreases sections.len(),
{
    if sections.len() == 0 {
        Seq::empty()
    } else {
        pat_section_entries(sections[0]) + pat_all_entries(sections.drop_first())
    }
}

/// Appending one more section appends its entries.
proof fn lemma_pat_all_take_succ(sections: Seq<Seq<u8>>, i: int)
    requires
        0 <= i < sections.len(),
    ensures
        pat_all_entries(sections.take(i + 1)) == pat_all_entries(sections.take(i))
            + pat_section_entries(sections[i]),
    decreases i,
{
    let a = sections.take(i + 1);
    let b = sections.take(i);
    if i == 0 {
        assert(b =~= Seq::<Seq<u8>>::empty());
        assert(a.drop_first() =~= Seq::<Seq<u8>>::empty());
        assert(a[0] == sections[0]);
        assert(pat_all_entries(Seq::<Seq<u8>>::empty()) == Seq::<PatEntry>::empty());
        assert(pat_all_entries(a) == pat_section_entries(a[0]) + pat_all_entries(a.drop_first()));
        assert(pat_section_entries(sections[0]) + Seq::<PatEntry>::empty() =~= pat_section_entries(
            sections[0],
        ));
        assert(pat_all_entries(b) + pat_section_entries(sections[0]) =~= pat_section_entries(
            sections[0],
        ));
    } else {
        let d = sections.drop_first();
        lemma_pat_all_take_succ(d, i - 1);
        assert(a[0] == sections[0]);
        assert(b[0] == sections[0]);
        assert(a.drop_first() =~= d.take(i));
        assert(b.drop_first() =~= d.take(i - 1));
        assert(d[i - 1] == sections[i]);
        assert(pat_section_entries(sections[0]) + (pat_all_entries(d.take(i - 1))
            + pat_section_entries(sections[i])) =~= (pat_section_entries(sections[0])
            + pat_all_entries(d.take(i - 1))) + pat_section_entries(sections[i]));
    }
}

/// Parse one PAT section into its service entries.
fn parse_pat_section(data: &Vec<u8>) -> (r: Vec<PatEntry>)
    ensures
        r@ == pat_section_entries(data@),
{
    broadcast use vstd::seq_lib::group_filter_ensures;

    proof {
        reveal(Seq::filter);
    }
    if data.len() < 12 {
        return Vec::new();
    }
    let slen = read_len12(data.as_slice(), 1);
    let s_end = 3 + slen;
    if data.len() < s_end {
        return Vec::new();
    }
    let n: usize = if s_end >= 16 {
        (s_end - 12) / 4
    } else {
        0
    };
    let mut out: Vec<PatEntry> = Vec::new();
    let mut k: usize = 0;
    proof {
        assert(pat_raw_entries(data@).take(0) =~= Seq::<PatEntry>::empty());
    }
    while k < n
        invariant
            0 <= k <= n,
            n == pat_entry_count(data@),
            pat_section_ok(data@),
            8 + 4 * n <= data@.len(),
            out@ == pat_raw_entries(data@).take(k as int).filter(|e: PatEntry| e.service_id != 0),
        decreases n - k,
    {
        let pos = 8 + 4 * k;
        let program_number = read_be16(data.as_slice(), pos);
        let pid = read_pid13(data.as_slice(), pos + 2);
        let ghost raw = pat_raw_entries(data@);
        proof {
            assert(raw[k as int] == PatEntry { service_id: program_number, pmt_pid: pid });
            assert(raw.take(k as int + 1) =~= raw.take(k as int).push(raw[k as int]));
            Seq::lemma_filter_push(raw.take(k as int), raw[k as int], |e: PatEntry| e.service_id != 0);
        }
        if program_number != 0 {
            out.push(PatEntry { service_id: program_number, pmt_pid: pid });
        }
        k = k + 1;
    }
    proof {
        assert(pat_raw_entries(data@).take(n as int) =~= pat_raw_entries(data@));
    }
    out
}

/// Parse a run of PAT sections.  Entries with program number zero designate
/// the Network Information Table and are skipped; malformed sections yield
/// nothing.  Fails exactly when no service entry is found at all.
pub fn parse_pat_sections(sections: &Vec<Vec<u8>>) -> (r: Result<Vec<PatEntry>, PsiError>)
    ensures
        r is Ok <==> pat_all_entries(rows_of(*sections)).len() > 0,
        r matches Ok(v) ==> v@ == pat_all_entries(rows_of(*sections)),
        r matches Err(e) ==> e == PsiError::PatNoServices,
{
    let ghost rows = rows_of(*sections);
    let n = sections.len();
    let mut out: Vec<PatEntry> = Vec::new();
    let mut i: usize = 0;
    proof {
        assert(rows.take(0) =~= Seq::<Seq<u8>>::empty());
    }
    while i < n
        invariant
            0 <= i <= n,
            n == sections@.len(),
            rows == rows_of(*sections),
            out@ == pat_all_entries(rows.take(i as int)),
        decreases n - i,
    {
        let mut part = parse_pat_section(&sections[i]);
        let ghost old_out = out@;
        out.append(&mut part);
        proof {
            lemma_pat_all_take_succ(rows, i as int);
            assert(rows[i as int] == sections@[i as int]@);
        }
        i = i + 1;
    }
    proof {
        assert(rows.take(n as int) =~= rows);
    }
    if out.len() == 0 {
        Err(PsiError::PatNoServices)
    } else {
        Ok(out)
    }
}

/// The selected elementary PIDs of a program: zero where no stream of the
/// kind was found.
#[derive(Clone, Copy, PartialEq, Eq, Structural, Debug)]
pub struct PmtInfo {
    pub video_pid: u16,
    pub audio_pid: u16,
}

/// A stream type carrying video: MPEG-1, MPEG-2, MPEG-4, H.264 or H.265.
pub open spec fn is_video_stream(st: u8) -> bool {
    st == 0x01 || st == 0x02 || st == 0x10 || st == 0x1b || st == 0x24
}

/// A stream type carrying audio: MPEG-1, MPEG-2, AAC or HE-AAC.
pub open spec fn is_audio_stream(st: u8) -> bool {
    st == 0x03 || st == 0x04 || st == 0x0f || st == 0x11
}

/// Walk of the PMT stream loop from `pos` to `end`, keeping the first
/// video and the first audio PID seen.
pub open spec fn pmt_walk(data: Seq<u8>, pos: int, end: int, v: u16, a: u16) -> (u16, u16)
    decreases end - pos,
{
    if pos + 5 > end {
        (v, a)
    } else {
        let st = data[pos];
        let pid = pid13(data, pos + 1);
        let es = len12(data, pos + 3);
        let v2 = if v == 0 && is_video_stream(st) {
            pid
        } else {
            v
        };
        let a2 = if a == 0 && is_audio_stream(st) {
            pid
        } else {
            a
        };
        let next = pos + 5 + es;
        pmt_walk(data, if next > end { end } else { next }, end, v2, a2)
    }
}

/// Result of parsing one PMT section: the selected PIDs, or why the
/// section is unusable.
pub open spec fn pmt_result(data: Seq<u8>) -> Result<(u16, u16), PsiError> {
    if data.len() < 16 {
        Err(PsiError::PmtTooShort)
    } else if data.len() < section_end(data) {
        Err(PsiError::PmtTruncated)
    } else {
        let entries_end = section_end(data) - 4;
        let start = 12 + len12(data, 10);
        Ok(pmt_walk(data, if start > entries_end { entries_end } else { start }, entries_end, 0, 0))
    }
}

/// Parse one PMT section: skip the fixed 12-byte header and the program
/// info loop, then select the first video and first audio elementary PID.
pub fn parse_pmt(data: &[u8]) -> (r: Result<PmtInfo, PsiError>)
    ensures
        r is Ok <==> pmt_result(data@) is Ok,
        r matches Ok(p) ==> pmt_result(data@) == Ok::<_, PsiError>((p.video_pid, p.audio_pid)),
        r matches Err(e) ==> pmt_result(data@) == Err::<(u16, u16), PsiError>(e),
{
    if data.len() < 16 {
        return Err(PsiError::PmtTooShort);
    }
    let slen = read_len12(data, 1);
    let s_end = 3 + slen;
    if data.len() < s_end {
        return Err(PsiError::PmtTruncated);
    }
    let pil = read_len12(data, 10);
    let entries_end: usize = if s_end >= 4 {
        s_end - 4
    } else {
        0
    };
    let ghost spec_end = section_end(data@) - 4;
    let start0 = 12 + pil;
    let mut pos: usize = if start0 > entries_end {
        entries_end
    } else {
        start0
    };
    let ghost spec_start = if 12 + len12(data@, 10) > spec_end {
        spec_end
    } else {
        12 + len12(data@, 10)
    };
    let mut video_pid: u16 = 0;
    let mut audio_pid: u16 = 0;
    while pos + 5 <= entries_end
        invariant
            data@.len() >= s_end,
            s_end == section_end(data@),
            entries_end == if s_end >= 4 {
                s_end - 4
            } else {
                0
            },
            spec_end == s_end - 4,
            pos <= entries_end,
            pmt_walk(data@, spec_start, spec_end, 0, 0) == pmt_walk(
                data@,
                pos as int,
                spec_end,
                video_pid,
                audio_pid,
            ),
        decreases entries_end - pos,
    {
        let st = data[pos];
        let pid = read_pid13(data, pos + 1);
        let es = read_len12(data, pos + 3);
        let ghost old_pos = pos as int;
        let ghost old_v = video_pid;
        let ghost old_a = audio_pid;
        if video_pid == 0 && (st == 0x01 || st == 0x02 || st == 0x10 || st == 0x1b || st == 0x24) {
            video_pid = pid;
        }
        if audio_pid == 0 && (st == 0x03 || st == 0x04 || st == 0x0f || st == 0x11) {
            audio_pid = pid;
        }
        let next = pos + 5 + es;
        pos = if next > entries_end {
            entries_end
        } else {
            next
        };
        proof {
            assert(pmt_walk(data@, old_pos, spec_end, old_v, old_a) == pmt_walk(
                data@,
                pos as int,
                spec_end,
                video_pid,
                audio_pid,
            ));
        }
    }
    proof {
        assert(pmt_walk(data@, pos as int, spec_end, video_pid, audio_pid) == (
        video_pid,
        audio_pid,
        ));
    }
    Ok(PmtInfo { video_pid, audio_pid })
}

/// A service as the Service Description Table names it.
pub struct SdtService {
    pub service_id: u16,
    pub name: String,
}

/// The mathematical values of a list of named services.
pub open spec fn services_model(v: Vec<SdtService>) -> Seq<(u16, Seq<char>)> {
    Seq::new(v@.len() as nat, |i: int| (v@[i].service_id, v@[i].name@))
}

/// An SDT section that the walker reads: long enough for its header and
/// for its declared section length.
pub open spec fn sdt_section_ok(data: Seq<u8>) -> bool {
    data.len() >= 15 && data.len() >= section_end(data)
}

/// The service name found in the descriptor loop `[dpos, dend)`: the last
/// well-formed service descriptor (tag 0x48) wins, starting from `cur`.
pub open spec fn sdt_desc_name(data: Seq<u8>, dpos: int, dend: int, cur: Seq<char>) -> Seq<char>
    decreases dend - dpos,
{
    if dpos + 2 > dend {
        cur
    } else {
        let tag = data[dpos];
        let dlen = data[dpos + 1] as int;
        if dpos + 2 + dlen > dend {
            cur
        } else {
            let cur2 = if tag == 0x48 && dlen >= 2 {
                let desc = data.subrange(dpos + 2, dpos + 2 + dlen);
                let provider_len = desc[1] as int;
                if 2 + provider_len + 1 <= dlen {
                    let name_len = desc[2 + provider_len] as int;
                    if 3 + provider_len + name_len <= dlen {
                        crate::dvbtext::dvb_text(
                            desc.subrange(3 + provider_len, 3 + provider_len + name_len),
                        )
                    } else {
                        cur
                    }
                } else {
                    cur
                }
            } else {
                cur
            };
            sdt_desc_name(data, dpos + 2 + dlen, dend, cur2)
        }
    }
}

/// Walk of the SDT service loop from `pos` to `end`: each service yields
/// its id and its decoded name (empty where no service descriptor names
/// it).
pub open spec fn sdt_walk(data: Seq<u8>, pos: int, end: int) -> Seq<(u16, Seq<char>)>
    decreases end - pos,
{
    if pos + 5 > end {
        Seq::empty()
    } else {
        let sid = be16(data, pos);
        let dll = len12(data, pos + 3);
        let p2 = pos + 5;
        if p2 + dll > end {
            Seq::empty()
        } else {
            seq![(sid, sdt_desc_name(data, p2, p2 + dll, Seq::empty()))] + sdt_walk(
                data,
                p2 + dll,
                end,
            )
        }
    }
}

/// The named services of one SDT section; a malformed section yields none.
pub open spec fn sdt_section_services(data: Seq<u8>) -> Seq<(u16, Seq<char>)> {
    if sdt_section_ok(data) {
        sdt_walk(data, 11, section_end(data) - 4)
    } else {
        Seq::empty()
    }
}

/// The named services of a run of SDT sections, in order.
pub open spec fn sdt_all_services(sections: Seq<Seq<u8>>) -> Seq<(u16, Seq<char>)>
    decreases sections.len(),
{
    if sections.len() == 0 {
        Seq::empty()
    } else {
        sdt_section_services(sections[0]) + sdt_all_services(sections.drop_first())
    }
}

/// Appending one more section appends its services.
proof fn lemma_sdt_all_take_succ(sections: Seq<Seq<u8>>, i: int)
    requires
        0 <= i < sections.len(),
    ensures
        sdt_all_services(sections.take(i + 1)) == sdt_all_services(sections.take(i))
            + sdt_section_services(sections[i]),
    decreases i,
{
    let a = sections.take(i + 1);
    let b = sections.take(i);
    if i == 0 {
        assert(b =~= Seq::<Seq<u8>>::empty());
        assert(a.drop_first() =~= Seq::<Seq<u8>>::empty());
        assert(a[0] == sections[0]);
        assert(sdt_all_services(Seq::<Seq<u8>>::empty()) == Seq::<(u16, Seq<char>)>::empty());
        assert(sdt_all_services(a) == sdt_section_services(a[0]) + sdt_all_services(
            a.drop_first(),
        ));
        assert(sdt_section_services(sections[0]) + Seq::<(u16, Seq<char>)>::empty()
            =~= sdt_section_services(sections[0]));
    } else {
        let d = sections.drop_first();
        lemma_sdt_all_take_succ(d, i - 1);
        assert(a[0] == sections[0]);
        assert(b[0] == sections[0]);
        assert(a.drop_first() =~= d.take(i));
        assert(b.drop_first() =~= d.take(i - 1));
        assert(d[i - 1] == sections[i]);
        assert(sdt_section_services(sections[0]) + (sdt_all_services(d.take(i - 1))
            + sdt_section_services(sections[i])) =~= (sdt_section_services(sections[0])
            + sdt_all_services(d.take(i - 1))) + sdt_section_services(sections[i]));
    }
}

/// Parse one SDT section into its named services.
fn parse_sdt_section(data: &Vec<u8>) -> (r: Vec<SdtService>)
    ensures
        services_model(r) == sdt_section_services(data@),
{
    let mut out: Vec<SdtService> = Vec::new();
    if data.len() < 15 {
        proof {
            assert(services_model(out) =~= Seq::<(u16, Seq<char>)>::empty());
        }
        return out;
    }
    let slen = read_len12(data.as_slice(), 1);
    let s_end = 3 + slen;
    if data.len() < s_end {
        proof {
            assert(services_model(out) =~= Seq::<(u16, Seq<char>)>::empty());
        }
        return out;
    }
    let entries_end: usize = if s_end >= 4 {
        s_end - 4
    } else {
        0
    };
    let ghost spec_end = section_end(data@) - 4;
    let mut pos: usize = 11;
    while pos < entries_end && entries_end - pos >= 5
        invariant
            data@.len() >= s_end,
            s_end == section_end(data@),
            entries_end == if s_end >= 4 {
                s_end - 4
            } else {
                0
            },
            spec_end == s_end - 4,
            11 <= pos,
            sdt_walk(data@, 11, spec_end) == services_model(out) + sdt_walk(
                data@,
                pos as int,
                spec_end,
            ),
        decreases entries_end - pos,
    {
        let sid = read_be16(data.as_slice(), pos);
        let dll = read_len12(data.as_slice(), pos + 3);
        let p2 = pos + 5;
        if dll > entries_end - p2 {
            proof {
                assert(sdt_walk(data@, pos as int, spec_end) =~= Seq::<(u16, Seq<char>)>::empty());
                assert(services_model(out) + Seq::<(u16, Seq<char>)>::empty() =~= services_model(
                    out,
                ));
            }
            return out;
        }
        let dend = p2 + dll;
        let mut name = String::new();
        let mut dpos = p2;
        while dpos < dend && dend - dpos >= 2
            invariant
                data@.len() >= s_end,
                s_end == section_end(data@),
                p2 + 2 <= data@.len() + 2,
                dend <= data@.len(),
                p2 <= dpos,
                sdt_desc_name(data@, p2 as int, dend as int, Seq::empty()) == sdt_desc_name(
                    data@,
                    dpos as int,
                    dend as int,
                    name@,
                ),
            decreases dend - dpos,
        {
            let tag = data[dpos];
            let dlen = data[dpos + 1] as usize;
            let ghost old_name = name@;
            let ghost old_dpos = dpos as int;
            if dlen > dend - dpos - 2 {
                proof {
                    assert(sdt_desc_name(data@, old_dpos, dend as int, old_name) == old_name);
                }
                dpos = dend;
                proof {
                    assert(sdt_desc_name(data@, dpos as int, dend as int, name@) == name@);
                }
            } else {
                if tag == 0x48 && dlen >= 2 {
                    let desc = vstd::slice::slice_subrange(
                        data.as_slice(),
                        dpos + 2,
                        dpos + 2 + dlen,
                    );
                    let provider_len = desc[1] as usize;
                    if provider_len + 3 <= dlen {
                        let name_len = desc[2 + provider_len] as usize;
                        if name_len + 3 + provider_len <= dlen {
                            let name_slice = vstd::slice::slice_subrange(
                                desc,
                                3 + provider_len,
                                3 + provider_len + name_len,
                            );
                            name = crate::dvbtext::decode_dvb_text(name_slice);
                        }
                    }
                }
                dpos = dpos + 2 + dlen;
                proof {
                    assert(sdt_desc_name(data@, old_dpos, dend as int, old_name) == sdt_desc_name(
                        data@,
                        dpos as int,
                        dend as int,
                        name@,
                    ));
                }
            }
        }
        proof {
            assert(sdt_desc_name(data@, dpos as int, dend as int, name@) == name@);
        }
        let ghost old_model = services_model(out);
        out.push(SdtService { service_id: sid, name });
        pos = dend;
        proof {
            assert(services_model(out) =~= old_model + seq![
                (sid, sdt_desc_name(data@, p2 as int, dend as int, Seq::empty())),
            ]);
            assert(services_model(out) + sdt_walk(data@, pos as int, spec_end) =~= old_model + (
            seq![(sid, sdt_desc_name(data@, p2 as int, dend as int, Seq::empty()))] + sdt_walk(
                data@,
                pos as int,
                spec_end,
            )));
        }
    }
    proof {
        assert(sdt_walk(data@, pos as int, spec_end) =~= Seq::<(u16, Seq<char>)>::empty());
        assert(services_model(out) + Seq::<(u16, Seq<char>)>::empty() =~= services_model(out));
    }
    out
}

/// Parse a run of SDT sections into the services they name.  Never fails:
/// malformed sections and descriptor loops simply yield no services.
pub fn parse_sdt_sections(sections: &Vec<Vec<u8>>) -> (r: Vec<SdtService>)
    ensures
        services_model(r) == sdt_all_services(rows_of(*sections)),
{
    let ghost rows = rows_of(*sections);
    let n = sections.len();
    let mut out: Vec<SdtService> = Vec::new();
    let mut i: usize = 0;
    proof {
        assert(rows.take(0) =~= Seq::<Seq<u8>>::empty());
        assert(services_model(out) =~= Seq::<(u16, Seq<char>)>::empty());
    }
    while i < n
        invariant
            0 <= i <= n,
            n == sections@.len(),
            rows == rows_of(*sections),
            services_model(out) == sdt_all_services(rows.take(i as int)),
        decreases n - i,
    {
        let mut part = parse_sdt_section(&sections[i]);
        let ghost old_model = services_model(out);
        let ghost part_model = services_model(part);
        out.append(&mut part);
        proof {
            lemma_sdt_all_take_succ(rows, i as int);
            assert(rows[i as int] == sections@[i as int]@);
            assert(services_model(out) =~= old_model + part_model);
        }
        i = i + 1;
    }
    proof {
        assert(rows.take(n as int) =~= rows);
    }
    out
}

/// The name the SDT gives a service: the first entry with the service id.
pub open spec fn service_name_of(list: Seq<(u16, Seq<char>)>, sid: u16) -> Option<Seq<char>>
    decreases list.len(),
{
    if list.len() == 0 {
        None
    } else if list[0].0 == sid {
        Some(list[0].1)
    } else {
        service_name_of(list.drop_first(), sid)
    }
}

/// The display name a scanned channel gets: the SDT name, or a generic
/// name built from the service id.
pub open spec fn channel_name_for(list: Seq<(u16, Seq<char>)>, sid: u16) -> Seq<char> {
    match service_name_of(list, sid) {
        Some(n) => n,
        None => "Service "@ + crate::strutil::dec_seq(sid as nat),
    }
}

/// Look a service's display name up, falling back to a generic name.
fn service_name_for(services: &Vec<SdtService>, sid: u16) -> (r: String)
    ensures
        r@ == channel_name_for(services_model(*services), sid),
{
    let ghost model = services_model(*services);
    let n = services.len();
    let mut j: usize = 0;
    proof {
        assert(model.skip(0) =~= model);
    }
    while j < n
        invariant
            0 <= j <= n,
            n == services@.len(),
            model == services_model(*services),
            service_name_of(model, sid) == service_name_of(model.skip(j as int), sid),
        decreases n - j,
    {
        proof {
            assert(model.skip(j as int)[0] == (services@[j as int].service_id, services@[
                j as int].name@));
            assert(model.skip(j as int).drop_first() =~= model.skip(j as int + 1));
        }
        if services[j].service_id == sid {
            return services[j].name.clone();
        }
        j = j + 1;
    }
    proof {
        assert(model.skip(n as int) =~= Seq::<(u16, Seq<char>)>::empty());
    }
    let mut s = String::from_str("Service ");
    let d = crate::strutil::u16_to_dec(sid);
    s.append(d.as_str());
    s
}

/// Join the tables read from one multiplex into its channel inventory: one
/// channel per PAT service entry, named from the SDT (with a generic
/// fallback), with the PIDs its PMT selected and the tuning parameters of
/// the scan entry.  The inventory holds exactly as many channels as the
/// PAT holds service entries.
pub fn scan_frequency(
    entry: &ScanEntry,
    pat_entries: &Vec<PatEntry>,
    sdt_services: &Vec<SdtService>,
    pmts: &Vec<PmtInfo>,
) -> (r: Vec<Channel>)
    requires
        pmts@.len() == pat_entries@.len(),
    ensures
        r@.len() == pat_entries@.len(),
        forall|i: int|
            0 <= i < r@.len() ==> {
                let c = #[trigger] r@[i];
                &&& c@.name == channel_name_for(
                    services_model(*sdt_services),
                    pat_entries@[i].service_id,
                )
                &&& c.frequency == entry.frequency
                &&& c@.inversion == zap_inversion(entry.inversion@)
                &&& c@.bandwidth == zap_bandwidth(entry.bandwidth_hz)
                &&& c@.fec_hp == zap_fec(entry.code_rate_hp@)
                &&& c@.fec_lp == zap_fec(entry.code_rate_lp@)
                &&& c@.modulation == zap_modulation(entry.modulation@)
                &&& c@.transmission_mode == zap_transmission(entry.transmission_mode@)
                &&& c@.guard_interval == zap_guard(entry.guard_interval@)
                &&& c@.hierarchy == zap_hierarchy(entry.hierarchy@)
                &&& c.video_pid == pmts@[i].video_pid
                &&& c.audio_pid == pmts@[i].audio_pid
                &&& c.service_id == pat_entries@[i].service_id
            },
{
    let base = entry.to_channel();
    let n = pat_entries.len();
    let mut out: Vec<Channel> = Vec::new();
    let mut i: usize = 0;
    while i < n
        invariant
            0 <= i <= n,
            n == pat_entries@.len(),
            pmts@.len() == n,
            base.frequency == entry.frequency,
            base@.inversion == zap_inversion(entry.inversion@),
            base@.bandwidth == zap_bandwidth(entry.bandwidth_hz),
            base@.fec_hp == zap_fec(entry.code_rate_hp@),
            base@.fec_lp == zap_fec(entry.code_rate_lp@),
            base@.modulation == zap_modulation(entry.modulation@),
            base@.transmission_mode == zap_transmission(entry.transmission_mode@),
            base@.guard_interval == zap_guard(entry.guard_interval@),
            base@.hierarchy == zap_hierarchy(entry.hierarchy@),
            out@.len() == i,
            forall|k: int|
                0 <= k < i ==> {
                    let c = #[trigger] out@[k];
                    &&& c@.name == channel_name_for(
                        services_model(*sdt_services),
                        pat_entries@[k].service_id,
                    )
                    &&& c.frequency == entry.frequency
                    &&& c@.inversion == zap_inversion(entry.inversion@)
                    &&& c@.bandwidth == zap_bandwidth(entry.bandwidth_hz)
                    &&& c@.fec_hp == zap_fec(entry.code_rate_hp@)
                    &&& c@.fec_lp == zap_fec(entry.code_rate_lp@)
                    &&& c@.modulation == zap_modulation(entry.modulation@)
                    &&& c@.transmission_mode == zap_transmission(entry.transmission_mode@)
                    &&& c@.guard_interval == zap_guard(entry.guard_interval@)
                    &&& c@.hierarchy == zap_hierarchy(entry.hierarchy@)
                    &&& c.video_pid == pmts@[k].video_pid
                    &&& c.audio_pid == pmts@[k].audio_pid
                    &&& c.service_id == pat_entries@[k].service_id
                },
        decreases n - i,
    {
        let pat = pat_entries[i];
        let pmt = pmts[i];
        let name = service_name_for(sdt_services, pat.service_id);
        out.push(
            Channel {
                name,
                frequency: base.frequency,
                inversion: base.inversion.clone(),
                bandwidth: base.bandwidth.clone(),
                fec_hp: base.fec_hp.clone(),
                fec_lp: base.fec_lp.clone(),
                modulation: base.modulation.clone(),
                transmission_mode: base.transmission_mode.clone(),
                guard_interval: base.guard_interval.clone(),
                hierarchy: base.hierarchy.clone(),
                video_pid: pmt.video_pid,
                audio_pid: pmt.audio_pid,
                service_id: pat.service_id,
            },
        );
        i = i + 1;
    }
    out
}


/// An empty scan entry, as a `[CHANNEL]` block header opens it.
pub open spec fn blank_scan_entry() -> ScanEntryModel {
    ScanEntryModel {
        delivery_system: Seq::empty(),
        frequency: 0,
        bandwidth_hz: 0,
        code_rate_hp: Seq::empty(),
        code_rate_lp: Seq::empty(),
        modulation: Seq::empty(),
        transmission_mode: Seq::empty(),
        guard_interval: Seq::empty(),
        hierarchy: Seq::empty(),
        inversion: Seq::empty(),
    }
}

/// A malformed scan file: a numeric key whose value is not a decimal
/// number in range.
#[derive(Debug)]
pub enum ScanFileError {
    /// A FREQUENCY value that does not parse; holds the value seen.
    BadFrequency { value: String },
    /// A BANDWIDTH_HZ value that does not parse; holds the value seen.
    BadBandwidth { value: String },
}

/// The mathematical value of a scan-file fault.
pub enum ScanFaultModel {
    Frequency(Seq<char>),
    Bandwidth(Seq<char>),
}

/// The mathematical values of a list of scan entries.
pub open spec fn entries_model(v: Vec<ScanEntry>) -> Seq<ScanEntryModel> {
    Seq::new(v@.len() as nat, |i: int| v@[i]@)
}

/// The mathematical value of the open block, if one is open.
pub open spec fn current_model(c: Option<ScanEntry>) -> Option<ScanEntryModel> {
    match c {
        Some(e) => Some(e@),
        None => None,
    }
}

/// What one scan-file line does to the parser state.  A `[CHANNEL]` header
/// closes the open block and opens a fresh one; blanks, comments, text
/// outside a block, lines without `=` and unknown keys change nothing; a
/// known key sets its field, and a numeric key with a bad value fails.
pub open spec fn scan_line_step(
    entries: Seq<ScanEntryModel>,
    current: Option<ScanEntryModel>,
    line: Seq<char>,
) -> Result<(Seq<ScanEntryModel>, Option<ScanEntryModel>), ScanFaultModel> {
    let t = trim(line);
    if t == "[CHANNEL]"@ {
        let entries2 = match current {
            Some(e) => entries.push(e),
            None => entries,
        };
        Ok((entries2, Some(blank_scan_entry())))
    } else if t.len() == 0 || t[0] == '#' {
        Ok((entries, current))
    } else {
        match current {
            None => Ok((entries, current)),
            Some(cur) => match split_first(t, '=') {
                None => Ok((entries, current)),
                Some(kv) => {
                    let key = trim(kv.0);
                    let value = trim(kv.1);
                    if key == "DELIVERY_SYSTEM"@ {
                        Ok((entries, Some(ScanEntryModel { delivery_system: value, ..cur })))
                    } else if key == "FREQUENCY"@ {
                        if is_dec_u64(value) {
                            Ok((entries, Some(ScanEntryModel { frequency: str_to_nat(value), ..cur })))
                        } else {
                            Err(ScanFaultModel::Frequency(value))
                        }
                    } else if key == "BANDWIDTH_HZ"@ {
                        if is_dec_u64(value) {
                            Ok((entries, Some(ScanEntryModel { bandwidth_hz: str_to_nat(value), ..cur })))
                        } else {
                            Err(ScanFaultModel::Bandwidth(value))
                        }
                    } else if key == "CODE_RATE_HP"@ {
                        Ok((entries, Some(ScanEntryModel { code_rate_hp: value, ..cur })))
                    } else if key == "CODE_RATE_LP"@ {
                        Ok((entries, Some(ScanEntryModel { code_rate_lp: value, ..cur })))
                    } else if key == "MODULATION"@ {
                        Ok((entries, Some(ScanEntryModel { modulation: value, ..cur })))
                    } else if key == "TRANSMISSION_MODE"@ {
                        Ok((entries, Some(ScanEntryModel { transmission_mode: value, ..cur })))
                    } else if key == "GUARD_INTERVAL"@ {
                        Ok((entries, Some(ScanEntryModel { guard_interval: value, ..cur })))
                    } else if key == "HIERARCHY"@ {
                        Ok((entries, Some(ScanEntryModel { hierarchy: value, ..cur })))
                    } else if key == "INVERSION"@ {
                        Ok((entries, Some(ScanEntryModel { inversion: value, ..cur })))
                    } else {
                        Ok((entries, current))
                    }
                },
            },
        }
    }
}

/// The parser state after a run of lines, or the first fault.
pub open spec fn scan_fold(
    lines: Seq<Seq<char>>,
    entries: Seq<ScanEntryModel>,
    current: Option<ScanEntryModel>,
) -> Result<(Seq<ScanEntryModel>, Option<ScanEntryModel>), ScanFaultModel>
    decreases lines.len(),
{
    if lines.len() == 0 {
        Ok((entries, current))
    } else {
        match scan_line_step(entries, current, lines[0]) {
            Ok(st) => scan_fold(lines.drop_first(), st.0, st.1),
            Err(e) => Err(e),
        }
    }
}

/// Parse of a whole scan file: its lines folded in order, with the block
/// still open at the end closed and kept.
pub open spec fn parse_scan(text: Seq<char>) -> Result<Seq<ScanEntryModel>, ScanFaultModel> {
    match scan_fold(split_char(text, '\n'), Seq::empty(), None) {
        Ok(st) => Ok(
            match st.1 {
                Some(e) => st.0.push(e),
                None => st.0,
            },
        ),
        Err(e) => Err(e),
    }
}

/// Parse a dvbv5 scan file: `[CHANNEL]` blocks of `key = value` lines.
/// Unknown keys, comments and blank lines are ignored; a FREQUENCY or
/// BANDWIDTH_HZ value that is not a decimal number fails the whole file.
pub fn parse_scan_text(text: &str) -> (r: Result<Vec<ScanEntry>, ScanFileError>)
    ensures
        r is Ok <==> parse_scan(text@) is Ok,
        r matches Ok(v) ==> {
            let ms = parse_scan(text@)->Ok_0;
            v@.len() == ms.len() && forall|i: int| 0 <= i < v@.len() ==> #[trigger] v@[i]@ == ms[i]
        },
        r matches Err(e) ==> parse_scan(text@) == Err::<Seq<ScanEntryModel>, _>(
            match e {
                ScanFileError::BadFrequency { value } => ScanFaultModel::Frequency(value@),
                ScanFileError::BadBandwidth { value } => ScanFaultModel::Bandwidth(value@),
            },
        ),
{
    let cs = str_chars(text);
    let lines = split_char_vec(&cs, '\n');
    let ghost lseq = split_char(text@, '\n');
    let n = lines.len();
    let mut entries: Vec<ScanEntry> = Vec::new();
    let mut current: Option<ScanEntry> = None;
    let mut i: usize = 0;
    proof {
        assert(lseq.skip(0) =~= lseq);
        assert(entries_model(entries) =~= Seq::<ScanEntryModel>::empty());
    }
    while i < n
        invariant
            0 <= i <= n,
            n == lseq.len(),
            lseq == split_char(text@, '\n'),
            lines@.len() == lseq.len(),
            forall|j: int| 0 <= j < lseq.len() ==> #[trigger] lines@[j]@ == lseq[j],
            scan_fold(lseq, Seq::empty(), None) == scan_fold(
                lseq.skip(i as int),
                entries_model(entries),
                current_model(current),
            ),
        decreases n - i,
    {
        let ghost rem = lseq.skip(i as int);
        let ghost em = entries_model(entries);
        let ghost cm = current_model(current);
        proof {
            assert(rem[0] == lseq[i as int]);
            assert(rem.drop_first() =~= lseq.skip(i as int + 1));
        }
        let t = trim_chars(&lines[i]);
        let t_str = string_from_chars(&t);
        if str_eq(t_str.as_str(), "[CHANNEL]") {
            match current {
                Some(e) => {
                    entries.push(e);
                    proof {
                        assert(entries_model(entries) =~= em.push(e@));
                    }
                },
                None => {},
            }
            current = Some(
                ScanEntry {
                    delivery_system: String::new(),
                    frequency: 0,
                    bandwidth_hz: 0,
                    code_rate_hp: String::new(),
                    code_rate_lp: String::new(),
                    modulation: String::new(),
                    transmission_mode: String::new(),
                    guard_interval: String::new(),
                    hierarchy: String::new(),
                    inversion: String::new(),
                },
            );
            proof {
                assert(current_model(current) == Some(blank_scan_entry()));
                assert(scan_line_step(em, cm, rem[0]) == Ok::<_, ScanFaultModel>(
                    (entries_model(entries), current_model(current)),
                ));
            }
        } else if t.len() == 0 {
            proof {
                assert(scan_line_step(em, cm, rem[0]) == Ok::<_, ScanFaultModel>((em, cm)));
            }
        } else if t[0] == '#' {
            proof {
                assert(scan_line_step(em, cm, rem[0]) == Ok::<_, ScanFaultModel>((em, cm)));
            }
        } else {
            match current {
                None => {
                    current = None;
                    proof {
                        assert(scan_line_step(em, cm, rem[0]) == Ok::<_, ScanFaultModel>(
                            (em, cm),
                        ));
                    }
                },
                Some(mut cur) => {
                    let ghost cur0 = cur@;
                    match split_first_chars(&t, '=') {
                        None => {
                            current = Some(cur);
                            proof {
                                assert(scan_line_step(em, cm, rem[0]) == Ok::<_, ScanFaultModel>(
                                    (em, cm),
                                ));
                            }
                        },
                        Some((k0, v0)) => {
                            let key = trim_chars(&k0);
                            let value = trim_chars(&v0);
                            let key_str = string_from_chars(&key);
                            let value_str = string_from_chars(&value);
                            if str_eq(key_str.as_str(), "DELIVERY_SYSTEM") {
                                cur.delivery_system = value_str;
                            } else if str_eq(key_str.as_str(), "FREQUENCY") {
                                match parse_u64(value_str.as_str()) {
                                    Some(v) => {
                                        cur.frequency = v;
                                    },
                                    None => {
                                        proof {
                                            assert(scan_fold(rem, em, cm) == Err::<
                                                (Seq<ScanEntryModel>, Option<ScanEntryModel>),
                                                _,
                                            >(ScanFaultModel::Frequency(value@)));
                                        }
                                        return Err(ScanFileError::BadFrequency { value: value_str });
                                    },
                                }
                            } else if str_eq(key_str.as_str(), "BANDWIDTH_HZ") {
                                match parse_u64(value_str.as_str()) {
                                    Some(v) => {
                                        cur.bandwidth_hz = v;
                                    },
                                    None => {
                                        proof {
                                            assert(scan_fold(rem, em, cm) == Err::<
                                                (Seq<ScanEntryModel>, Option<ScanEntryModel>),
                                                _,
                                            >(ScanFaultModel::Bandwidth(value@)));
                                        }
                                        return Err(ScanFileError::BadBandwidth { value: value_str });
                                    },
                                }
                            } else if str_eq(key_str.as_str(), "CODE_RATE_HP") {
                                cur.code_rate_hp = value_str;
                            } else if str_eq(key_str.as_str(), "CODE_RATE_LP") {
                                cur.code_rate_lp = value_str;
                            } else if str_eq(key_str.as_str(), "MODULATION") {
                                cur.modulation = value_str;
                            } else if str_eq(key_str.as_str(), "TRANSMISSION_MODE") {
                                cur.transmission_mode = value_str;
                            } else if str_eq(key_str.as_str(), "GUARD_INTERVAL") {
                                cur.guard_interval = value_str;
                            } else if str_eq(key_str.as_str(), "HIERARCHY") {
                                cur.hierarchy = value_str;
                            } else if str_eq(key_str.as_str(), "INVERSION") {
                                cur.inversion = value_str;
                            }
                            current = Some(cur);
                            proof {
                                assert(scan_line_step(em, cm, rem[0]) == Ok::<_, ScanFaultModel>(
                                    (entries_model(entries), current_model(current)),
                                ));
                            }
                        },
                    }
                },
            }
        }
        i = i + 1;
    }
    proof {
        assert(lseq.skip(n as int) =~= Seq::<Seq<char>>::empty());
    }
    match current {
        Some(e) => {
            let ghost em = entries_model(entries);
            entries.push(e);
            proof {
                assert(entries_model(entries) =~= em.push(e@));
            }
        },
        None => {},
    }
    Ok(entries)
}

} // verus!
