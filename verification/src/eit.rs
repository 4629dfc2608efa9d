//! Event Information Table parsing and collection.
//!
//! EIT sections (table 0x4E for present/following, 0x50–0x5F for the
//! schedule) carry events: an id, an MJD+BCD start time, a BCD duration, a
//! running status and a descriptor loop in which the short-event
//! descriptor (tag 0x4D) names the event.  The collector de-duplicates
//! retransmitted sections and events and hands the events out sorted by
//! start time.

use vstd::prelude::*;
use crate::dvbtext::{decode_dvb_text, dvb_text};
use crate::sections::{be16, len12, read_be16, read_len12, section_end};
use crate::strutil::{from_utf8_lossy, utf8_lossy};
use crate::timecode::{decode_duration, decode_start_time, duration_value, start_time_value};

verus! {

/// One broadcast event of one service.
pub struct EitEvent {
    pub service_id: u16,
    pub event_id: u16,
    pub start_time: i64,
    pub duration: u32,
    pub running_status: u8,
    pub event_name: String,
    pub description: String,
    pub language: String,
}

/// The mathematical value of an event.
pub struct EitEventModel {
    pub service_id: u16,
    pub event_id: u16,
    pub start_time: int,
    pub duration: nat,
    pub running_status: u8,
    pub event_name: Seq<char>,
    pub description: Seq<char>,
    pub language: Seq<char>,
}

impl View for EitEvent {
    type V = EitEventModel;

    open spec fn view(&self) -> EitEventModel {
        EitEventModel {
            service_id: self.service_id,
            event_id: self.event_id,
            start_time: self.start_time as int,
            duration: self.duration as nat,
            running_status: self.running_status,
            event_name: self.event_name@,
            description: self.description@,
            language: self.language@,
        }
    }
}

/// The language, name and text of a short-event descriptor body: a 3-byte
/// language code, then a length-prefixed name and a length-prefixed text,
/// each decoded as a DVB string.  Missing parts decode to empty strings.
pub open spec fn short_event_fields(data: Seq<u8>) -> (Seq<char>, Seq<char>, Seq<char>) {
    if data.len() < 5 {
        (Seq::empty(), Seq::empty(), Seq::empty())
    } else {
        let language = utf8_lossy(data.subrange(0, 3));
        let name_len = data[3] as int;
        if data.len() < 4 + name_len + 1 {
            (language, Seq::empty(), Seq::empty())
        } else {
            let name = dvb_text(data.subrange(4, 4 + name_len));
            let text_offset = 4 + name_len;
            let text_len = data[text_offset] as int;
            let text = if data.len() >= text_offset + 1 + text_len {
                dvb_text(data.subrange(text_offset + 1, text_offset + 1 + text_len))
            } else {
                Seq::empty()
            };
            (language, name, text)
        }
    }
}

/// Parse a short-event descriptor body into language, event name and text.
pub fn parse_short_event_descriptor(data: &[u8]) -> (r: (String, String, String))
    ensures
        (r.0@, r.1@, r.2@) == short_event_fields(data@),
{
    if data.len() < 5 {
        return (String::new(), String::new(), String::new());
    }
    let lang_slice = vstd::slice::slice_subrange(data, 0, 3);
    let language = from_utf8_lossy(lang_slice);
    let name_len = data[3] as usize;
    if data.len() < 4 + name_len + 1 {
        return (language, String::new(), String::new());
    }
    let name_slice = vstd::slice::slice_subrange(data, 4, 4 + name_len);
    let event_name = decode_dvb_text(name_slice);
    let text_offset = 4 + name_len;
    let text_len = data[text_offset] as usize;
    let description = if data.len() >= text_offset + 1 + text_len {
        let text_slice = vstd::slice::slice_subrange(data, text_offset + 1, text_offset + 1 + text_len);
        decode_dvb_text(text_slice)
    } else {
        String::new()
    };
    (language, event_name, description)
}

/// The short-event fields found in a descriptor loop: the last descriptor
/// with tag 0x4D wins, starting from `cur`.
pub open spec fn event_desc_fields(
    d: Seq<u8>,
    pos: int,
    cur: (Seq<char>, Seq<char>, Seq<char>),
) -> (Seq<char>, Seq<char>, Seq<char>)
    decreases d.len() - pos,
{
    if pos + 2 > d.len() {
        cur
    } else {
        let tag = d[pos];
        let dlen = d[pos + 1] as int;
        if pos + 2 + dlen > d.len() {
            cur
        } else {
            let cur2 = if tag == 0x4d {
                short_event_fields(d.subrange(pos + 2, pos + 2 + dlen))
            } else {
                cur
            };
            event_desc_fields(d, pos + 2 + dlen, cur2)
        }
    }
}

/// Why an EIT event or section is rejected.
#[derive(Clone, Copy, PartialEq, Eq, Structural, Debug)]
pub enum EitParseError {
    /// An event record shorter than its fixed 12-byte part.
    EventTooShort,
    /// An event whose descriptor loop runs past the data.
    EventTruncated,
    /// An event whose duration exceeds a day or whose start time lies
    /// before the epoch.
    EventUnreasonable,
    /// A section shorter than the 18-byte minimum.
    SectionTooShort,
    /// A section shorter than its declared section length.
    SectionTruncated,
    /// A present/following section claiming more than two sections.
    SectionBadLast,
}

/// Result of parsing one event record at the front of `data`: the event
/// and the bytes it occupies, or why it is rejected.
pub open spec fn event_result(data: Seq<u8>, service_id: u16) -> Result<
    (EitEventModel, int),
    EitParseError,
> {
    if data.len() < 12 {
        Err(EitParseError::EventTooShort)
    } else {
        let start_time = start_time_value(data.subrange(2, 7));
        let duration = duration_value(data.subrange(7, 10));
        let descriptors_length = len12(data, 10);
        let total_len = 12 + descriptors_length;
        if total_len > data.len() {
            Err(EitParseError::EventTruncated)
        } else if duration > 86400 || start_time < 0 {
            Err(EitParseError::EventUnreasonable)
        } else {
            let dd = data.subrange(12, total_len);
            let f = event_desc_fields(dd, 0, (Seq::empty(), Seq::empty(), Seq::empty()));
            Ok(
                (
                    EitEventModel {
                        service_id,
                        event_id: be16(data, 0),
                        start_time,
                        duration,
                        running_status: (data[10] >> 5) & 0x07,
                        event_name: f.1,
                        description: f.2,
                        language: f.0,
                    },
                    total_len,
                ),
            )
        }
    }
}

/// Parse one event record at the front of `data`.  An accepted event has a
/// duration of at most one day and a start time at or after the epoch.
pub fn parse_eit_event(data: &[u8], service_id: u16) -> (r: Result<
    (EitEvent, usize),
    EitParseError,
>)
    ensures
        r is Ok <==> event_result(data@, service_id) is Ok,
        r matches Ok((e, n)) ==> event_result(data@, service_id) == Ok::<_, EitParseError>(
            (e@, n as int),
        ),
        r matches Ok((e, n)) ==> 12 <= n <= data@.len() && e.duration <= 86400 && e.start_time
            >= 0,
        r matches Err(e) ==> event_result(data@, service_id) == Err::<(EitEventModel, int), _>(e),
{
    if data.len() < 12 {
        return Err(EitParseError::EventTooShort);
    }
    let event_id = read_be16(data, 0);
    let st_slice = vstd::slice::slice_subrange(data, 2, 7);
    let start_time = decode_start_time(st_slice);
    let du_slice = vstd::slice::slice_subrange(data, 7, 10);
    let duration = decode_duration(du_slice);
    let running_status = (data[10] >> 5) & 0x07;
    let descriptors_length = read_len12(data, 10);
    let total_len = 12 + descriptors_length;
    if total_len > data.len() {
        return Err(EitParseError::EventTruncated);
    }
    if duration > 86400 || start_time < 0 {
        return Err(EitParseError::EventUnreasonable);
    }
    let dd = vstd::slice::slice_subrange(data, 12, total_len);
    let mut language = String::new();
    let mut event_name = String::new();
    let mut description = String::new();
    let mut pos: usize = 0;
    while pos < dd.len() && dd.len() - pos >= 2
        invariant
            dd@.len() <= data@.len(),
            event_desc_fields(dd@, 0, (Seq::empty(), Seq::empty(), Seq::empty()))
                == event_desc_fields(dd@, pos as int, (language@, event_name@, description@)),
        decreases dd@.len() - pos,
    {
        let tag = dd[pos];
        let dlen2 = dd[pos + 1] as usize;
        let ghost old_cur = (language@, event_name@, description@);
        let ghost old_pos = pos as int;
        if dlen2 > dd.len() - pos - 2 {
            proof {
                assert(event_desc_fields(dd@, old_pos, old_cur) == old_cur);
            }
            pos = dd.len();
            proof {
                assert(event_desc_fields(dd@, pos as int, old_cur) == old_cur);
            }
        } else {
            if tag == 0x4d {
                let desc = vstd::slice::slice_subrange(dd, pos + 2, pos + 2 + dlen2);
                let (lang, name, text) = parse_short_event_descriptor(desc);
                language = lang;
                event_name = name;
                description = text;
            }
            pos = pos + 2 + dlen2;
            proof {
                assert(event_desc_fields(dd@, old_pos, old_cur) == event_desc_fields(
                    dd@,
                    pos as int,
                    (language@, event_name@, description@),
                ));
            }
        }
    }
    proof {
        assert(event_desc_fields(dd@, pos as int, (language@, event_name@, description@)) == (
        language@,
        event_name@,
        description@,
        ));
    }
    Ok(
        (
            EitEvent {
                service_id,
                event_id,
                start_time,
                duration,
                running_status,
                event_name,
                description,
                language,
            },
            total_len,
        ),
    )
}

/// The events of one section body, walked from `pos` to `end`; the walk
/// stops at the first rejected event.
pub open spec fn events_walk(buf: Seq<u8>, pos: int, end: int, service_id: u16) -> Seq<
    EitEventModel,
>
    decreases end - pos,
{
    if pos >= end {
        Seq::empty()
    } else {
        match event_result(buf.subrange(pos, end), service_id) {
            Ok((e, n)) => {
                let next = if n < 12 || pos + n > end {
                    end
                } else {
                    pos + n
                };
                seq![e] + events_walk(buf, next, end, service_id)
            },
            Err(_) => Seq::empty(),
        }
    }
}

/// Result of parsing one EIT section: the service id and the events, or
/// why the section is rejected.  A present/following section (table 0x4E)
/// claiming a last section number above one is discarded as corrupt.
pub open spec fn section_result(buf: Seq<u8>) -> Result<
    (u16, Seq<EitEventModel>),
    EitParseError,
> {
    if buf.len() < 18 {
        Err(EitParseError::SectionTooShort)
    } else if buf.len() < section_end(buf) {
        Err(EitParseError::SectionTruncated)
    } else if buf[0] == 0x4e && buf[7] > 1 {
        Err(EitParseError::SectionBadLast)
    } else {
        let sid = be16(buf, 3);
        Ok((sid, events_walk(buf, 14, section_end(buf) - 4, sid)))
    }
}

/// Parse one EIT section into its service id and events.  The 18-byte
/// minimum covers the 14-byte header and the CRC trailer; a minimal
/// section yields no events.
pub fn parse_eit_section(buf: &[u8]) -> (r: Result<(u16, Vec<EitEvent>), EitParseError>)
    ensures
        r is Ok <==> section_result(buf@) is Ok,
        r matches Ok((sid, v)) ==> section_result(buf@) matches Ok(s) && s.0 == sid && v@.len()
            == s.1.len() && (forall|i: int| 0 <= i < v@.len() ==> #[trigger] v@[i]@ == s.1[i]),
        r matches Err(e) ==> section_result(buf@) == Err::<(u16, Seq<EitEventModel>), _>(e),
{
    if buf.len() < 18 {
        return Err(EitParseError::SectionTooShort);
    }
    let slen = read_len12(buf, 1);
    let s_end = 3 + slen;
    if buf.len() < s_end {
        return Err(EitParseError::SectionTruncated);
    }
    let table_id = buf[0];
    let last_section_number = buf[7];
    if table_id == 0x4e && last_section_number > 1 {
        return Err(EitParseError::SectionBadLast);
    }
    let sid = read_be16(buf, 3);
    let events_end: usize = if s_end >= 4 {
        s_end - 4
    } else {
        0
    };
    let ghost spec_end = section_end(buf@) - 4;
    let mut events: Vec<EitEvent> = Vec::new();
    let mut pos: usize = 14;
    proof {
        if spec_end < 14 {
            assert(events_walk(buf@, 14, spec_end, sid) =~= Seq::<EitEventModel>::empty());
        }
    }
    while pos < events_end
        invariant
            buf@.len() >= 18,
            !(buf@[0] == 0x4e && buf@[7] > 1),
            sid == be16(buf@, 3),
            buf@.len() >= s_end,
            s_end == section_end(buf@),
            events_end == if s_end >= 4 {
                s_end - 4
            } else {
                0
            },
            spec_end == s_end - 4,
            14 <= pos,
            pos <= events_end || events_end < 14,
            events_walk(buf@, 14, spec_end, sid) == Seq::new(
                events@.len() as nat,
                |i: int| events@[i]@,
            ) + events_walk(buf@, pos as int, spec_end, sid),
        decreases events_end - pos,
    {
        let chunk = vstd::slice::slice_subrange(buf, pos, events_end);
        let ghost old_model = Seq::new(events@.len() as nat, |i: int| events@[i]@);
        match parse_eit_event(chunk, sid) {
            Ok((event, consumed)) => {
                proof {
                    assert(chunk@ =~= buf@.subrange(pos as int, spec_end));
                }
                events.push(event);
                let ghost ev = events@[events@.len() - 1]@;
                proof {
                    let new_model = Seq::new(events@.len() as nat, |i: int| events@[i]@);
                    assert(new_model =~= old_model + seq![ev]);
                    assert(old_model + (seq![ev] + events_walk(
                        buf@,
                        pos as int + consumed as int,
                        spec_end,
                        sid,
                    )) =~= new_model + events_walk(
                        buf@,
                        pos as int + consumed as int,
                        spec_end,
                        sid,
                    ));
                }
                pos = pos + consumed;
            },
            Err(_) => {
                proof {
                    assert(chunk@ =~= buf@.subrange(pos as int, spec_end));
                    assert(events_walk(buf@, pos as int, spec_end, sid)
                        =~= Seq::<EitEventModel>::empty());
                    assert(old_model + Seq::<EitEventModel>::empty() =~= old_model);
                }
                return Ok((sid, events));
            },
        }
    }
    proof {
        assert(events_walk(buf@, pos as int, spec_end, sid) =~= Seq::<EitEventModel>::empty());
        let m = Seq::new(events@.len() as nat, |i: int| events@[i]@);
        assert(m + Seq::<EitEventModel>::empty() =~= m);
    }
    Ok((sid, events))
}

/// The mathematical values of a list of events.
pub open spec fn events_vec_model(v: Vec<EitEvent>) -> Seq<EitEventModel> {
    Seq::new(v@.len() as nat, |i: int| v@[i]@)
}

/// A table id the collector accepts: present/following or schedule.
pub open spec fn eit_table(tid: u8) -> bool {
    tid == 0x4e || (0x50 <= tid <= 0x5f)
}

/// The de-duplication key of a section.
pub open spec fn section_key(sid: u16, tid: u8, secnum: u8) -> u32 {
    ((sid as int) * 65536 + (tid as int) * 256 + (secnum as int)) as u32
}

/// Some event in the sequence has this (service, event) key.
pub open spec fn has_key(s: Seq<EitEventModel>, sid: u16, eid: u16) -> bool {
    exists|i: int|
        0 <= i < s.len() && #[trigger] s[i].service_id == sid && s[i].event_id == eid
}

/// No two events share a (service, event) key.
pub open spec fn keys_distinct(s: Seq<EitEventModel>) -> bool {
    forall|i: int, j: int|
        0 <= i < j < s.len() ==> !(#[trigger] s[i].service_id == #[trigger] s[j].service_id
            && s[i].event_id == s[j].event_id)
}

/// Fold new events into the collection, keeping the first event of each
/// key and dropping later duplicates.
pub open spec fn add_events(acc: Seq<EitEventModel>, evs: Seq<EitEventModel>) -> Seq<
    EitEventModel,
>
    decreases evs.len(),
{
    if evs.len() == 0 {
        acc
    } else {
        let acc2 = if has_key(acc, evs[0].service_id, evs[0].event_id) {
            acc
        } else {
            acc.push(evs[0])
        };
        add_events(acc2, evs.drop_first())
    }
}

/// What one offered section does to the collector's state: short buffers
/// and foreign tables change nothing; a section seen before changes
/// nothing; a new section is recorded, and its events (none, if it fails
/// to parse) are folded in with duplicate keys dropped.
pub open spec fn collect_section(
    events: Seq<EitEventModel>,
    section_keys: Seq<u32>,
    buf: Seq<u8>,
) -> (Seq<EitEventModel>, Seq<u32>) {
    if buf.len() < 18 || !eit_table(buf[0]) {
        (events, section_keys)
    } else {
        let key = section_key(be16(buf, 3), buf[0], buf[6]);
        if section_keys.contains(key) {
            (events, section_keys)
        } else {
            let evs = match section_result(buf) {
                Ok(p) => p.1,
                Err(_) => Seq::empty(),
            };
            (add_events(events, evs), section_keys.push(key))
        }
    }
}

/// Events sorted non-decreasing by start time.
pub open spec fn sorted_by_start(s: Seq<EitEventModel>) -> bool {
    forall|i: int, j: int| 0 <= i <= j < s.len() ==> #[trigger] s[i].start_time <= #[trigger] s[j].start_time
}

/// Insert an event behind every event that does not start later than it:
/// the stable insertion position.
pub open spec fn insert_stable(s: Seq<EitEventModel>, e: EitEventModel) -> Seq<EitEventModel>
    decreases s.len(),
{
    if s.len() == 0 {
        seq![e]
    } else if s.last().start_time > e.start_time {
        insert_stable(s.drop_last(), e).push(s.last())
    } else {
        s.push(e)
    }
}

/// The events sorted non-decreasing by start time, with the order of
/// arrival breaking ties.
pub open spec fn sort_stable(s: Seq<EitEventModel>) -> Seq<EitEventModel>
    decreases s.len(),
{
    if s.len() == 0 {
        Seq::empty()
    } else {
        insert_stable(sort_stable(s.drop_last()), s.last())
    }
}

/// Where every event from a position on starts later and the one before it
/// does not, stable insertion inserts at that position.
proof fn lemma_insert_stable_at(s: Seq<EitEventModel>, e: EitEventModel, p: int)
    requires
        0 <= p <= s.len(),
        forall|j: int| p <= j < s.len() ==> #[trigger] s[j].start_time > e.start_time,
        p > 0 ==> s[p - 1].start_time <= e.start_time,
    ensures
        insert_stable(s, e) == s.take(p) + seq![e] + s.skip(p),
    decreases s.len(),
{
    if p == s.len() {
        if s.len() == 0 {
            assert(s.take(p) + seq![e] + s.skip(p) =~= seq![e]);
        } else {
            assert(s.take(p) =~= s);
            assert(s.skip(p) =~= Seq::<EitEventModel>::empty());
            assert(s.take(p) + seq![e] + s.skip(p) =~= s.push(e));
        }
    } else {
        assert(s.last().start_time > e.start_time);
        let d = s.drop_last();
        lemma_insert_stable_at(d, e, p);
        assert(d.take(p) =~= s.take(p));
        assert((s.take(p) + seq![e] + d.skip(p)).push(s.last()) =~= s.take(p) + seq![e] + s.skip(
            p,
        ));
    }
}

/// Folding one more event either drops it (key already present) or
/// appends it.
proof fn lemma_add_events_snoc(acc: Seq<EitEventModel>, s: Seq<EitEventModel>, k: int)
    requires
        0 <= k < s.len(),
    ensures
        add_events(acc, s.take(k + 1)) == ({
            let a = add_events(acc, s.take(k));
            if has_key(a, s[k].service_id, s[k].event_id) {
                a
            } else {
                a.push(s[k])
            }
        }),
    decreases k,
{
    let acc2 = if has_key(acc, s[0].service_id, s[0].event_id) {
        acc
    } else {
        acc.push(s[0])
    };
    if k == 0 {
        assert(s.take(0) =~= Seq::<EitEventModel>::empty());
        assert(s.take(1) =~= seq![s[0]]);
        assert(s.take(1).drop_first() =~= Seq::<EitEventModel>::empty());
        assert(add_events(acc2, Seq::<EitEventModel>::empty()) == acc2);
        assert(add_events(acc, Seq::<EitEventModel>::empty()) == acc);
    } else {
        let d = s.drop_first();
        assert(s.take(k + 1)[0] == s[0]);
        assert(s.take(k)[0] == s[0]);
        assert(s.take(k + 1).drop_first() =~= d.take(k));
        assert(s.take(k).drop_first() =~= d.take(k - 1));
        lemma_add_events_snoc(acc2, d, k - 1);
        assert(d[k - 1] == s[k]);
    }
}

/// Appending an event with a fresh key keeps keys distinct.
proof fn lemma_keys_distinct_push(s: Seq<EitEventModel>, e: EitEventModel)
    requires
        keys_distinct(s),
        !has_key(s, e.service_id, e.event_id),
    ensures
        keys_distinct(s.push(e)),
{
    let t = s.push(e);
    assert forall|i: int, j: int| 0 <= i < j < t.len() implies !(#[trigger] t[i].service_id
        == #[trigger] t[j].service_id && t[i].event_id == t[j].event_id) by {
        if j < s.len() {
        } else {
            assert(t[j] == e);
            if t[i].service_id == e.service_id && t[i].event_id == e.event_id {
                assert(s[i].service_id == e.service_id && s[i].event_id == e.event_id);
            }
        }
    }
}

/// Collects the events of one multiplex visit from its EIT sections,
/// de-duplicating retransmitted sections by (service, table, section
/// number) and events by (service, event).
pub struct EitCollector {
    pub section_keys: Vec<u32>,
    pub events: Vec<EitEvent>,
}

impl EitCollector {
    /// The events collected so far.
    pub open spec fn events_model(&self) -> Seq<EitEventModel> {
        events_vec_model(self.events)
    }

    /// The collector never holds two events with one key.
    pub open spec fn wf(&self) -> bool {
        keys_distinct(self.events_model())
    }

    /// An empty collector.
    pub fn new() -> (r: EitCollector)
        ensures
            r.wf(),
            r.events_model() == Seq::<EitEventModel>::empty(),
            r.section_keys@ == Seq::<u32>::empty(),
    {
        let r = EitCollector { section_keys: Vec::new(), events: Vec::new() };
        proof {
            assert(r.events_model() =~= Seq::<EitEventModel>::empty());
        }
        r
    }

    /// Whether an event with this key was already collected.
    fn has_event(&self, sid: u16, eid: u16) -> (r: bool)
        ensures
            r == has_key(self.events_model(), sid, eid),
    {
        let n = self.events.len();
        let mut i: usize = 0;
        while i < n
            invariant
                0 <= i <= n,
                n == self.events@.len(),
                forall|j: int|
                    0 <= j < i ==> !(#[trigger] self.events@[j]@.service_id == sid
                        && self.events@[j]@.event_id == eid),
            decreases n - i,
        {
            if self.events[i].service_id == sid && self.events[i].event_id == eid {
                proof {
                    assert(self.events_model()[i as int].service_id == sid);
                }
                return true;
            }
            i = i + 1;
        }
        proof {
            if has_key(self.events_model(), sid, eid) {
                let w = choose|w: int|
                    0 <= w < self.events_model().len() && #[trigger] self.events_model()[
                        w
                    ].service_id == sid && self.events_model()[w].event_id == eid;
                assert(self.events@[w]@.service_id == sid);
            }
        }
        false
    }

    /// Whether a section with this key was already offered.
    fn has_section(&self, key: u32) -> (r: bool)
        ensures
            r == self.section_keys@.contains(key),
    {
        let n = self.section_keys.len();
        let mut i: usize = 0;
        while i < n
            invariant
                0 <= i <= n,
                n == self.section_keys@.len(),
                forall|j: int| 0 <= j < i ==> #[trigger] self.section_keys@[j] != key,
            decreases n - i,
        {
            if self.section_keys[i] == key {
                return true;
            }
            i = i + 1;
        }
        false
    }

    /// Offer one section buffer to the collector.  Too-short buffers and
    /// tables other than EIT are ignored; a retransmitted section is
    /// dropped; a new section's events join the collection unless their
    /// key is already present.
    pub fn offer_section(&mut self, buf: &[u8])
        requires
            old(self).wf(),
        ensures
            final(self).wf(),
            (final(self).events_model(), final(self).section_keys@) == collect_section(
                old(self).events_model(),
                old(self).section_keys@,
                buf@,
            ),
    {
        if buf.len() < 18 {
            return ;
        }
        let tid = buf[0];
        if !(tid == 0x4e || (0x50 <= tid && tid <= 0x5f)) {
            return ;
        }
        let sid = read_be16(buf, 3);
        let secnum = buf[6];
        let key: u32 = (sid as u32) * 65536 + (tid as u32) * 256 + (secnum as u32);
        proof {
            assert(key == section_key(be16(buf@, 3), buf@[0], buf@[6]));
        }
        if self.has_section(key) {
            return ;
        }
        self.section_keys.push(key);
        let ghost old_ev = self.events_model();
        match parse_eit_section(buf) {
            Ok((_section_sid, evs)) => {
                let ghost full = section_result(buf@)->Ok_0.1;
                proof {
                    assert(events_vec_model(evs) =~= full);
                    assert(full.skip(0) =~= full);
                    assert(old_ev == add_events(old_ev, full.take(0))) by {
                        assert(full.take(0) =~= Seq::<EitEventModel>::empty());
                    }
                }
                let mut rest = evs;
                let ghost secs_after = self.section_keys@;
                let ghost mut k: int = 0;
                while rest.len() > 0
                    invariant
                        self.wf(),
                        self.section_keys@ == secs_after,
                        0 <= k <= full.len(),
                        rest@.len() == full.len() - k,
                        forall|j: int|
                            0 <= j < rest@.len() ==> #[trigger] rest@[j]@ == full[k + j],
                        self.events_model() == add_events(old_ev, full.take(k)),
                    decreases rest@.len(),
                {
                    let ev = rest.remove(0);
                    proof {
                        assert(ev@ == full[k]);
                        lemma_add_events_snoc(old_ev, full, k);
                    }
                    let dup = self.has_event(ev.service_id, ev.event_id);
                    if !dup {
                        let ghost pre = self.events_model();
                        proof {
                            lemma_keys_distinct_push(pre, ev@);
                        }
                        self.events.push(ev);
                        proof {
                            assert(self.events_model() =~= pre.push(ev@));
                        }
                    }
                    proof {
                        k = k + 1;
                    }
                }
                proof {
                    assert(full.take(k) =~= full);
                }
            },
            Err(_) => {
                proof {
                    assert(add_events(old_ev, Seq::<EitEventModel>::empty()) == old_ev);
                }
            },
        }
    }

    /// Hand the collected events out, sorted non-decreasing by start time
    /// with arrival order breaking ties.  The result is a permutation of
    /// the collection, so no two returned events share a (service, event)
    /// key.
    pub fn into_events(self) -> (r: Vec<EitEvent>)
        requires
            self.wf(),
        ensures
            sorted_by_start(events_vec_model(r)),
            keys_distinct(events_vec_model(r)),
            events_vec_model(r).to_multiset() == self.events_model().to_multiset(),
            events_vec_model(r) == sort_stable(self.events_model()),
    {
        broadcast use vstd::seq_lib::group_to_multiset_ensures;

        let ghost total = self.events_model().to_multiset();
        let mut src = self.events;
        let ghost src0 = events_vec_model(src);
        let ghost mut k: int = 0;
        let mut out: Vec<EitEvent> = Vec::new();
        proof {
            assert(events_vec_model(out) =~= Seq::<EitEventModel>::empty());
            assert(events_vec_model(out).to_multiset().add(events_vec_model(src).to_multiset())
                =~= total);
            assert(src0.take(0) =~= Seq::<EitEventModel>::empty());
            assert(sort_stable(src0.take(0)) == Seq::<EitEventModel>::empty());
        }
        while src.len() > 0
            invariant
                sorted_by_start(events_vec_model(out)),
                keys_distinct(events_vec_model(out)),
                keys_distinct(events_vec_model(src)),
                forall|i: int, j: int|
                    0 <= i < events_vec_model(out).len() && 0 <= j < events_vec_model(src).len()
                        ==> !(#[trigger] events_vec_model(out)[i].service_id
                        == #[trigger] events_vec_model(src)[j].service_id && events_vec_model(
                        out,
                    )[i].event_id == events_vec_model(src)[j].event_id),
                events_vec_model(out).to_multiset().add(events_vec_model(src).to_multiset())
                    == total,
                0 <= k <= src0.len(),
                events_vec_model(src).len() == src0.len() - k,
                forall|j: int|
                    0 <= j < src0.len() - k ==> #[trigger] events_vec_model(src)[j] == src0[k + j],
                events_vec_model(out) == sort_stable(src0.take(k)),
            decreases src@.len(),
        {
            broadcast use vstd::seq_lib::group_to_multiset_ensures;

            let ghost old_src = events_vec_model(src);
            let ghost old_out = events_vec_model(out);
            let ev = src.remove(0);
            proof {
                assert(ev@ == old_src[0]);
                assert(ev@ == src0[k]);
                assert(events_vec_model(src) =~= old_src.remove(0));
                assert(old_src.remove(0) =~= old_src.drop_first());
            }
            let mut idx = out.len();
            while idx > 0 && out[idx - 1].start_time > ev.start_time
                invariant
                    idx <= out@.len(),
                    forall|j: int|
                        idx <= j < out@.len() ==> #[trigger] out@[j]@.start_time
                            > ev@.start_time,
                decreases idx,
            {
                idx = idx - 1;
            }
            let ghost before = events_vec_model(out);
            proof {
                before.insert_ensures(idx as int, ev@);
            }
            out.insert(idx, ev);
            proof {
                assert(events_vec_model(out) =~= before.insert(idx as int, ev@));
                // sortedness
                assert forall|i: int, j: int|
                    0 <= i <= j < events_vec_model(out).len() implies #[trigger] events_vec_model(
                    out,
                )[i].start_time <= #[trigger] events_vec_model(out)[j].start_time by {
                    let m = events_vec_model(out);
                    if i < idx && j == idx {
                        assert(m[i] == before[i]);
                        assert(before[i].start_time <= before[idx - 1].start_time);
                    } else if i == idx && j > idx {
                        assert(m[j] == before[j - 1]);
                    } else if i < idx && j > idx {
                        assert(m[i] == before[i] && m[j] == before[j - 1]);
                    } else if i == idx && j == idx {
                    } else if j < idx {
                        assert(m[i] == before[i] && m[j] == before[j]);
                    } else if i > idx {
                        assert(m[i] == before[i - 1] && m[j] == before[j - 1]);
                    }
                }
                // keys stay distinct: the inserted event's key is fresh
                assert forall|i: int, j: int|
                    0 <= i < j < events_vec_model(out).len() implies !(
                #[trigger] events_vec_model(out)[i].service_id == #[trigger] events_vec_model(
                    out,
                )[j].service_id && events_vec_model(out)[i].event_id == events_vec_model(
                    out,
                )[j].event_id) by {
                    let m = events_vec_model(out);
                    let i0: int = if i < idx {
                        i
                    } else if i == idx {
                        -1
                    } else {
                        i - 1
                    };
                    let j0: int = if j < idx {
                        j
                    } else if j == idx {
                        -1
                    } else {
                        j - 1
                    };
                    if i0 >= 0 && j0 >= 0 {
                        assert(m[i] == before[i0] && m[j] == before[j0]);
                    } else if i0 < 0 {
                        assert(m[i] == ev@ && m[j] == before[j0]);
                        assert(old_src[0].service_id == ev@.service_id);
                    } else {
                        assert(m[i] == before[i0] && m[j] == ev@);
                    }
                }
                // multiset bookkeeping
                assert(events_vec_model(out).to_multiset() =~= before.to_multiset().insert(ev@));
                assert(events_vec_model(src).to_multiset() =~= old_src.to_multiset().remove(
                    ev@,
                ));
                assert(old_src.to_multiset().contains(ev@));
                assert(events_vec_model(out).to_multiset().add(
                    events_vec_model(src).to_multiset(),
                ) =~= before.to_multiset().add(old_src.to_multiset()));
                // the insertion is the stable one
                lemma_insert_stable_at(before, ev@, idx as int);
                assert(events_vec_model(out) =~= before.take(idx as int) + seq![ev@]
                    + before.skip(idx as int));
                assert(src0.take(k + 1).drop_last() =~= src0.take(k));
                assert(src0.take(k + 1).last() == src0[k]);
                assert(sort_stable(src0.take(k + 1)) == insert_stable(
                    sort_stable(src0.take(k)),
                    src0[k],
                ));
                k = k + 1;
            }
        }
        proof {
            assert(events_vec_model(src) =~= Seq::<EitEventModel>::empty());
            assert(events_vec_model(out).to_multiset().add(
                Seq::<EitEventModel>::empty().to_multiset(),
            ) =~= events_vec_model(out).to_multiset());
            assert(src0.take(k) =~= src0);
            assert(src0 == self.events_model());
        }
        out
    }
}

} // verus!
