//! PSI/SI section plumbing: the byte fields every table shares, the timing
//! decisions of the timed section reader, and the accumulator that collects
//! one table's sections by section number.

use vstd::prelude::*;

verus! {

/// A big-endian 16-bit field.
pub open spec fn be16(data: Seq<u8>, p: int) -> u16
    recommends
        0 <= p && p + 1 < data.len(),
{
    ((data[p] as int) * 256 + data[p + 1] as int) as u16
}

/// A 12-bit length field: the low four bits of the first byte and all of
/// the second.
pub open spec fn len12(data: Seq<u8>, p: int) -> int
    recommends
        0 <= p && p + 1 < data.len(),
{
    ((data[p] & 0x0f) as int) * 256 + data[p + 1] as int
}

/// A 13-bit packet identifier: the low five bits of the first byte and all
/// of the second.
pub open spec fn pid13(data: Seq<u8>, p: int) -> u16
    recommends
        0 <= p && p + 1 < data.len(),
{
    (((data[p] & 0x1f) as int) * 256 + data[p + 1] as int) as u16
}

/// Where a section ends: the 12-bit section length at offset 1 counts the
/// bytes after itself.
pub open spec fn section_end(data: Seq<u8>) -> int
    recommends
        data.len() >= 3,
{
    3 + len12(data, 1)
}

/// Read a big-endian 16-bit field.
pub fn read_be16(data: &[u8], p: usize) -> (r: u16)
    requires
        p + 1 < data@.len(),
    ensures
        r == be16(data@, p as int),
{
    (data[p] as u16) * 256 + data[p + 1] as u16
}

/// Read a 12-bit length field.
pub fn read_len12(data: &[u8], p: usize) -> (r: usize)
    requires
        p + 1 < data@.len(),
    ensures
        r == len12(data@, p as int),
        r <= 4095,
{
    let b = data[p];
    let hi = b & 0x0f;
    assert(hi < 16) by (bit_vector)
        requires
            hi == b & 0x0f,
    ;
    (hi as usize) * 256 + data[p + 1] as usize
}

/// Read a 13-bit packet identifier.
pub fn read_pid13(data: &[u8], p: usize) -> (r: u16)
    requires
        p + 1 < data@.len(),
    ensures
        r == pid13(data@, p as int),
{
    ((data[p] & 0x1f) as u16) * 256 + data[p + 1] as u16
}

/// How long the next readiness wait may run, given the milliseconds left of
/// the overall deadline: a slice of at most five seconds, and none at all
/// once the deadline has passed.
pub fn next_poll_ms(remaining_ms: i64) -> (r: Option<u32>)
    ensures
        r is Some <==> remaining_ms > 0,
        r matches Some(ms) ==> ms == if remaining_ms < 5000 {
            remaining_ms as u32
        } else {
            5000u32
        },
{
    if remaining_ms <= 0 {
        None
    } else if remaining_ms < 5000 {
        Some(remaining_ms as u32)
    } else {
        Some(5000)
    }
}

/// The deadline passed before any accepted section arrived.
#[derive(Clone, Copy, PartialEq, Eq, Structural, Debug)]
pub struct SectionTimeout;

/// Collects the sections of one table, keyed by section number: the first
/// arrival of each number is kept, and the run is complete once section
/// numbers zero through the announced last are all present.
pub struct SectionAccumulator {
    pub sections: Vec<(u8, Vec<u8>)>,
    pub expected_last: Option<u8>,
}

impl SectionAccumulator {
    /// The collected sections: number and bytes, ordered by number.
    pub open spec fn model(&self) -> Seq<(u8, Seq<u8>)> {
        Seq::new(self.sections@.len() as nat, |i: int| (self.sections@[i].0, self.sections@[i].1@))
    }

    /// Section numbers strictly increase: each number is held once, in
    /// order.
    pub open spec fn wf(&self) -> bool {
        forall|i: int, j: int|
            0 <= i < j < self.model().len() ==> #[trigger] self.model()[i].0
                < #[trigger] self.model()[j].0
    }

    /// A section with this number was collected.
    pub open spec fn has_num(&self, n: u8) -> bool {
        exists|i: int| 0 <= i < self.model().len() && #[trigger] self.model()[i].0 == n
    }

    /// An empty accumulator.
    pub fn new() -> (r: SectionAccumulator)
        ensures
            r.wf(),
            r.model() == Seq::<(u8, Seq<u8>)>::empty(),
            r.expected_last is None,
    {
        let r = SectionAccumulator { sections: Vec::new(), expected_last: None };
        proof {
            assert(r.model() =~= Seq::<(u8, Seq<u8>)>::empty());
        }
        r
    }

    /// Whether a section with this number was collected.
    fn contains_num(&self, n: u8) -> (r: bool)
        ensures
            r == self.has_num(n),
    {
        let len = self.sections.len();
        let mut i: usize = 0;
        while i < len
            invariant
                0 <= i <= len,
                len == self.sections@.len(),
                forall|j: int| 0 <= j < i ==> #[trigger] self.sections@[j].0 != n,
            decreases len - i,
        {
            if self.sections[i].0 == n {
                proof {
                    assert(self.model()[i as int].0 == n);
                }
                return true;
            }
            i = i + 1;
        }
        proof {
            if self.has_num(n) {
                let w = choose|w: int|
                    0 <= w < self.model().len() && #[trigger] self.model()[w].0 == n;
                assert(self.sections@[w].0 == n);
            }
        }
        false
    }

    /// Offer one read buffer.  Reads shorter than a section header or for
    /// another table are dropped.  An accepted read records the announced
    /// last section number and, if its section number is new, joins the
    /// collection in number order.  Returns whether the collection now
    /// holds one section for every number up to the announced last.
    pub fn offer(&mut self, buf: &[u8], table_id: u8) -> (done: bool)
        requires
            old(self).wf(),
        ensures
            final(self).wf(),
            (buf@.len() < 8 || buf@[0] != table_id) ==> final(self).model() == old(self).model()
                && final(self).expected_last == old(self).expected_last && !done,
            (buf@.len() >= 8 && buf@[0] == table_id) ==> {
                &&& final(self).expected_last == Some(buf@[7])
                &&& (if old(self).has_num(buf@[6]) {
                    final(self).model() == old(self).model()
                } else {
                    final(self).model().to_multiset() == old(self).model().to_multiset().insert(
                        (buf@[6], buf@),
                    )
                })
                &&& done == (final(self).model().len() == buf@[7] + 1)
            },
    {
        broadcast use vstd::seq_lib::group_to_multiset_ensures;

        if buf.len() < 8 {
            return false;
        }
        if buf[0] != table_id {
            return false;
        }
        let secnum = buf[6];
        let last = buf[7];
        self.expected_last = Some(last);
        if !self.contains_num(secnum) {
            let mut data: Vec<u8> = Vec::new();
            let mut k: usize = 0;
            let blen = buf.len();
            while k < blen
                invariant
                    0 <= k <= blen,
                    blen == buf@.len(),
                    data@ =~= buf@.take(k as int),
                decreases blen - k,
            {
                data.push(buf[k]);
                proof {
                    assert(data@ =~= buf@.take(k as int + 1));
                }
                k = k + 1;
            }
            proof {
                assert(data@ =~= buf@);
            }
            let mut idx = self.sections.len();
            while idx > 0 && self.sections[idx - 1].0 > secnum
                invariant
                    idx <= self.sections@.len(),
                    forall|j: int|
                        idx <= j < self.sections@.len() ==> #[trigger] self.sections@[j].0
                            > secnum,
                decreases idx,
            {
                idx = idx - 1;
            }
            let ghost before = self.model();
            proof {
                before.insert_ensures(idx as int, (secnum, buf@));
                assert(before =~= old(self).model());
                assert(forall|j: int|
                    0 <= j < before.len() ==> #[trigger] before[j].0 != secnum);
                assert(forall|j: int|
                    idx <= j < before.len() ==> #[trigger] before[j].0 > secnum);
                if idx > 0 {
                    assert(before[idx - 1].0 == self.sections@[idx - 1].0);
                    assert(before[idx - 1].0 < secnum);
                    assert forall|j: int| 0 <= j < idx implies #[trigger] before[j].0
                        < secnum by {
                        if j < idx - 1 {
                            assert(before[j].0 < before[idx - 1].0);
                        }
                    }
                }
            }
            self.sections.insert(idx, (secnum, data));
            proof {
                let m = self.model();
                assert(m =~= before.insert(idx as int, (secnum, buf@)));
                assert forall|i: int, j: int| 0 <= i < j < m.len() implies #[trigger] m[i].0
                    < #[trigger] m[j].0 by {
                    if j < idx {
                        assert(m[i] == before[i] && m[j] == before[j]);
                    } else if j == idx {
                        assert(m[i] == before[i] && m[j].0 == secnum);
                    } else if i < idx {
                        assert(m[i] == before[i] && m[j] == before[j - 1]);
                        assert(before[j - 1].0 > secnum);
                        assert(before[i].0 < secnum);
                    } else if i == idx {
                        assert(m[i].0 == secnum && m[j] == before[j - 1]);
                        assert(before[j - 1].0 > secnum);
                    } else {
                        assert(m[i] == before[i - 1] && m[j] == before[j - 1]);
                    }
                }
                assert(m.to_multiset() =~= before.to_multiset().insert((secnum, buf@)));
            }
        }
        self.sections.len() == last as usize + 1
    }

    /// Whether the collection holds one section for every number up to the
    /// announced last; false while nothing was announced.
    pub fn complete(&self) -> (r: bool)
        ensures
            r == match self.expected_last {
                Some(l) => self.model().len() >= l + 1,
                None => false,
            },
    {
        match self.expected_last {
            Some(l) => self.sections.len() >= l as usize + 1,
            None => false,
        }
    }

    /// Hand the collected section buffers out, ordered by section number.
    /// Fails exactly when nothing was collected before the deadline.
    pub fn into_sections(self) -> (r: Result<Vec<Vec<u8>>, SectionTimeout>)
        ensures
            r is Ok <==> self.model().len() > 0,
            r matches Ok(v) ==> v@.len() == self.model().len() && (forall|i: int|
                0 <= i < v@.len() ==> #[trigger] v@[i]@ == self.model()[i].1),
    {
        if self.sections.len() == 0 {
            return Err(SectionTimeout);
        }
        let ghost m = self.model();
        let mut out: Vec<Vec<u8>> = Vec::new();
        let mut rest = self.sections;
        let ghost n = m.len();
        while rest.len() > 0
            invariant
                out@.len() + rest@.len() == n,
                forall|i: int| 0 <= i < out@.len() ==> #[trigger] out@[i]@ == m[i].1,
                forall|j: int|
                    0 <= j < rest@.len() ==> (#[trigger] rest@[j].0, rest@[j].1@) == m[
                        out@.len() + j
                    ],
            decreases rest@.len(),
        {
            let ghost old_rest = rest@;
            let ghost old_len = out@.len();
            let (_, data) = rest.remove(0);
            out.push(data);
            proof {
                assert(data@ == old_rest[0].1@);
                assert((old_rest[0].0, old_rest[0].1@) == m[old_len as int]);
                assert(forall|j: int|
                    0 <= j < rest@.len() ==> #[trigger] rest@[j] == old_rest[j + 1]);
            }
        }
        Ok(out)
    }
}

} // verus!
