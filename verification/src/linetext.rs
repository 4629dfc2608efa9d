//! Line-oriented text machinery for the configuration-file parsers:
//! whitespace trimming and separator splitting, with the lemmas that relate
//! splitting to joining.

use vstd::prelude::*;

verus! {

/// An ASCII whitespace character.
pub open spec fn is_space(c: char) -> bool {
    c == ' ' || c == '\t' || c == '\r' || c == '\n' || c as u32 == 0x0b || c as u32 == 0x0c
}

/// Number of whitespace characters at the front.
pub open spec fn leading_spaces(s: Seq<char>) -> int
    decreases s.len(),
{
    if s.len() == 0 || !is_space(s[0]) {
        0
    } else {
        1 + leading_spaces(s.drop_first())
    }
}

/// Number of whitespace characters at the back.
pub open spec fn trailing_spaces(s: Seq<char>) -> int
    decreases s.len(),
{
    if s.len() == 0 || !is_space(s.last()) {
        0
    } else {
        1 + trailing_spaces(s.drop_last())
    }
}

/// The sequence with leading and trailing whitespace removed.
pub open spec fn trim(s: Seq<char>) -> Seq<char> {
    let t = s.skip(leading_spaces(s));
    t.take(t.len() - trailing_spaces(t))
}

/// `leading_spaces` is the first index that does not hold whitespace.
pub proof fn lemma_leading_spaces_char(s: Seq<char>, l: int)
    requires
        0 <= l <= s.len(),
        forall|i: int| 0 <= i < l ==> is_space(#[trigger] s[i]),
        l < s.len() ==> !is_space(s[l]),
    ensures
        leading_spaces(s) == l,
    decreases s.len(),
{
    if l == 0 {
    } else {
        assert(is_space(s[0]));
        let d = s.drop_first();
        assert(forall|i: int| 0 <= i < l - 1 ==> #[trigger] d[i] == s[i + 1]);
        lemma_leading_spaces_char(d, l - 1);
    }
}

/// `trailing_spaces` is the number of whitespace characters at the back up
/// to the last non-whitespace character.
pub proof fn lemma_trailing_spaces_char(s: Seq<char>, t: int)
    requires
        0 <= t <= s.len(),
        forall|i: int| s.len() - t <= i < s.len() ==> is_space(#[trigger] s[i]),
        s.len() - t - 1 >= 0 ==> !is_space(s[s.len() - t - 1]),
    ensures
        trailing_spaces(s) == t,
    decreases s.len(),
{
    if t == 0 {
    } else {
        assert(is_space(s.last()));
        let d = s.drop_last();
        lemma_trailing_spaces_char(d, t - 1);
    }
}

/// A nonempty sequence with no whitespace at either end trims to itself.
pub proof fn lemma_trim_id(s: Seq<char>)
    requires
        s.len() > 0,
        !is_space(s[0]),
        !is_space(s.last()),
    ensures
        trim(s) == s,
{
    lemma_leading_spaces_char(s, 0);
    lemma_trailing_spaces_char(s, 0);
    assert(s.skip(0) =~= s);
    assert(trim(s) =~= s);
}

/// The pieces of a sequence split on a separator character.  An empty
/// sequence yields one empty piece; each separator closes a piece.
pub open spec fn split_char(s: Seq<char>, sep: char) -> Seq<Seq<char>>
    decreases s.len(),
{
    if s.len() == 0 {
        seq![Seq::empty()]
    } else if s[0] == sep {
        seq![Seq::<char>::empty()] + split_char(s.drop_first(), sep)
    } else {
        let rest = split_char(s.drop_first(), sep);
        seq![seq![s[0]] + rest[0]] + rest.drop_first()
    }
}

/// Splitting always yields at least one piece.
pub proof fn lemma_split_nonempty(s: Seq<char>, sep: char)
    ensures
        split_char(s, sep).len() >= 1,
    decreases s.len(),
{
    if s.len() > 0 {
        lemma_split_nonempty(s.drop_first(), sep);
    }
}

/// The separator does not occur in the sequence.
pub open spec fn no_char(s: Seq<char>, sep: char) -> bool {
    forall|i: int| 0 <= i < s.len() ==> #[trigger] s[i] != sep
}

/// A sequence without the separator splits to one piece: itself.
pub proof fn lemma_split_whole(s: Seq<char>, sep: char)
    requires
        no_char(s, sep),
    ensures
        split_char(s, sep) == seq![s],
    decreases s.len(),
{
    if s.len() == 0 {
        assert(s =~= Seq::<char>::empty());
        assert(split_char(s, sep) =~= seq![s]);
    } else {
        let d = s.drop_first();
        assert(s[0] != sep);
        lemma_split_whole(d, sep);
        lemma_split_nonempty(d, sep);
        assert(split_char(d, sep)[0] == d);
        assert(split_char(d, sep).drop_first() =~= Seq::<Seq<char>>::empty());
        assert(seq![s[0]] + split_char(d, sep)[0] =~= s);
        assert(split_char(s, sep) =~= seq![s]);
    }
}

/// Splitting after a separator-free prefix and one separator yields the
/// prefix as the first piece and splits the remainder.
pub proof fn lemma_split_sep(a: Seq<char>, rest: Seq<char>, sep: char)
    requires
        no_char(a, sep),
    ensures
        split_char(a + seq![sep] + rest, sep) == seq![a] + split_char(rest, sep),
    decreases a.len(),
{
    let s = a + seq![sep] + rest;
    if a.len() == 0 {
        assert(s =~= seq![sep] + rest);
        assert(s[0] == sep);
        assert(s.drop_first() =~= rest);
        assert(a =~= Seq::<char>::empty());
        assert(split_char(s, sep) =~= seq![a] + split_char(rest, sep));
    } else {
        let ad = a.drop_first();
        lemma_split_sep(ad, rest, sep);
        assert(s[0] == a[0]);
        assert(s.drop_first() =~= ad + seq![sep] + rest);
        let r = split_char(ad + seq![sep] + rest, sep);
        assert(r == seq![ad] + split_char(rest, sep));
        lemma_split_nonempty(rest, sep);
        assert(r[0] == ad);
        assert(seq![s[0]] + r[0] =~= a);
        assert(r.drop_first() =~= split_char(rest, sep));
        assert(split_char(s, sep) =~= seq![a] + split_char(rest, sep));
    }
}

/// The text before and after the first occurrence of a separator, or
/// nothing where the separator does not occur.
pub open spec fn split_first(s: Seq<char>, sep: char) -> Option<(Seq<char>, Seq<char>)>
    decreases s.len(),
{
    if s.len() == 0 {
        None
    } else if s[0] == sep {
        Some((Seq::empty(), s.drop_first()))
    } else {
        match split_first(s.drop_first(), sep) {
            None => None,
            Some(kv) => Some((seq![s[0]] + kv.0, kv.1)),
        }
    }
}

/// Where the separator first occurs, splitting there is splitting.
pub proof fn lemma_split_first_at(s: Seq<char>, sep: char, i: int)
    requires
        0 <= i < s.len(),
        s[i] == sep,
        forall|j: int| 0 <= j < i ==> #[trigger] s[j] != sep,
    ensures
        split_first(s, sep) == Some((s.take(i), s.skip(i + 1))),
    decreases i,
{
    if i == 0 {
        assert(s.take(0) =~= Seq::<char>::empty());
        assert(s.skip(1) =~= s.drop_first());
    } else {
        let d = s.drop_first();
        lemma_split_first_at(d, sep, i - 1);
        assert(seq![s[0]] + d.take(i - 1) =~= s.take(i));
        assert(d.skip(i) =~= s.skip(i + 1));
    }
}

/// Without the separator there is nothing to split.
pub proof fn lemma_split_first_none(s: Seq<char>, sep: char)
    requires
        no_char(s, sep),
    ensures
        split_first(s, sep) is None,
    decreases s.len(),
{
    if s.len() > 0 {
        lemma_split_first_none(s.drop_first(), sep);
    }
}

/// Split at the first occurrence of a separator, yielding the text before
/// and after it.
pub fn split_first_chars(cs: &Vec<char>, sep: char) -> (r: Option<(Vec<char>, Vec<char>)>)
    ensures
        r is Some <==> split_first(cs@, sep) is Some,
        r matches Some((k, v)) ==> split_first(cs@, sep) == Some((k@, v@)),
{
    let n = cs.len();
    let mut i: usize = 0;
    while i < n
        invariant
            0 <= i <= n,
            n == cs@.len(),
            forall|j: int| 0 <= j < i ==> #[trigger] cs@[j] != sep,
        decreases n - i,
    {
        if cs[i] == sep {
            proof {
                lemma_split_first_at(cs@, sep, i as int);
            }
            let mut k: Vec<char> = Vec::new();
            let mut j: usize = 0;
            while j < i
                invariant
                    0 <= j <= i <= n,
                    n == cs@.len(),
                    k@ =~= cs@.take(i as int).take(j as int),
                decreases i - j,
            {
                k.push(cs[j]);
                proof {
                    assert(k@ =~= cs@.take(i as int).take(j as int + 1));
                }
                j = j + 1;
            }
            proof {
                assert(k@ =~= cs@.take(i as int));
            }
            let mut v: Vec<char> = Vec::new();
            let mut j2: usize = i + 1;
            while j2 < n
                invariant
                    i + 1 <= j2 <= n,
                    n == cs@.len(),
                    v@ =~= cs@.subrange(i as int + 1, j2 as int),
                decreases n - j2,
            {
                v.push(cs[j2]);
                proof {
                    assert(v@ =~= cs@.subrange(i as int + 1, j2 as int + 1));
                }
                j2 = j2 + 1;
            }
            proof {
                assert(v@ =~= cs@.skip(i as int + 1));
            }
            return Some((k, v));
        }
        i = i + 1;
    }
    proof {
        lemma_split_first_none(cs@, sep);
    }
    None
}

/// Whether a character is whitespace.
pub fn is_space_char(c: char) -> (r: bool)
    ensures
        r == is_space(c),
{
    c == ' ' || c == '\t' || c == '\r' || c == '\n' || c as u32 == 0x0b || c as u32 == 0x0c
}

/// The characters of a string, in order.
pub fn str_chars(s: &str) -> (r: Vec<char>)
    ensures
        r@ == s@,
{
    let n = s.unicode_len();
    let mut out: Vec<char> = Vec::new();
    let mut i: usize = 0;
    while i < n
        invariant
            0 <= i <= n,
            n == s@.len(),
            out@ =~= s@.take(i as int),
        decreases n - i,
    {
        out.push(s.get_char(i));
        proof {
            assert(out@ =~= s@.take(i as int + 1));
        }
        i = i + 1;
    }
    proof {
        assert(out@ =~= s@);
    }
    out
}

/// Trim leading and trailing whitespace.
pub fn trim_chars(cs: &Vec<char>) -> (r: Vec<char>)
    ensures
        r@ == trim(cs@),
{
    let n = cs.len();
    let mut start: usize = 0;
    while start < n && is_space_char(cs[start])
        invariant
            0 <= start <= n,
            n == cs@.len(),
            forall|i: int| 0 <= i < start ==> is_space(#[trigger] cs@[i]),
        decreases n - start,
    {
        start = start + 1;
    }
    proof {
        lemma_leading_spaces_char(cs@, start as int);
    }
    let mut end: usize = n;
    while end > start && is_space_char(cs[end - 1])
        invariant
            start <= end <= n,
            n == cs@.len(),
            forall|i: int| end <= i < n ==> is_space(#[trigger] cs@[i]),
            forall|i: int| 0 <= i < start ==> is_space(#[trigger] cs@[i]),
            start < n ==> !is_space(cs@[start as int]),
        decreases end,
    {
        end = end - 1;
    }
    proof {
        let t = cs@.skip(start as int);
        assert(forall|i: int|
            0 <= i < t.len() ==> #[trigger] t[i] == cs@[i + start]);
        lemma_trailing_spaces_char(t, t.len() - (end - start));
        assert(trim(cs@) =~= cs@.subrange(start as int, end as int));
    }
    let mut out: Vec<char> = Vec::new();
    let mut i: usize = start;
    while i < end
        invariant
            start <= i <= end <= n,
            n == cs@.len(),
            out@ =~= cs@.subrange(start as int, i as int),
        decreases end - i,
    {
        out.push(cs[i]);
        proof {
            assert(out@ =~= cs@.subrange(start as int, i as int + 1));
        }
        i = i + 1;
    }
    out
}

/// Split on a separator character, yielding the pieces in order.
pub fn split_char_vec(cs: &Vec<char>, sep: char) -> (r: Vec<Vec<char>>)
    ensures
        r@.len() == split_char(cs@, sep).len(),
        forall|j: int| 0 <= j < r@.len() ==> #[trigger] r@[j]@ == split_char(cs@, sep)[j],
{
    let ghost full = split_char(cs@, sep);
    let n = cs.len();
    let mut out: Vec<Vec<char>> = Vec::new();
    let ghost mut done: Seq<Seq<char>> = Seq::empty();
    let mut cur: Vec<char> = Vec::new();
    let mut i: usize = 0;
    proof {
        assert(cur@ + cs@.skip(0) =~= cs@);
        assert(done + full =~= full);
    }
    while i < n
        invariant
            0 <= i <= n,
            n == cs@.len(),
            no_char(cur@, sep),
            full == split_char(cs@, sep),
            out@.len() == done.len(),
            forall|j: int| 0 <= j < done.len() ==> #[trigger] out@[j]@ == done[j],
            full == done + split_char(cur@ + cs@.skip(i as int), sep),
        decreases n - i,
    {
        let c = cs[i];
        let ghost pre = cur@;
        let ghost prev_done = done;
        if c == sep {
            proof {
                assert(pre + cs@.skip(i as int) =~= pre + seq![sep] + cs@.skip(i as int + 1));
                lemma_split_sep(pre, cs@.skip(i as int + 1), sep);
            }
            out.push(cur);
            cur = Vec::new();
            proof {
                done = done + seq![pre];
                assert(cur@ + cs@.skip(i as int + 1) =~= cs@.skip(i as int + 1));
                assert(done + split_char(cs@.skip(i as int + 1), sep) =~= prev_done + (seq![pre]
                    + split_char(cs@.skip(i as int + 1), sep)));
            }
        } else {
            cur.push(c);
            proof {
                assert(pre + cs@.skip(i as int) =~= cur@ + cs@.skip(i as int + 1));
            }
        }
        i = i + 1;
    }
    proof {
        assert(cur@ + cs@.skip(n as int) =~= cur@);
        lemma_split_whole(cur@, sep);
        assert(full =~= done + seq![cur@]);
    }
    let ghost pre = cur@;
    out.push(cur);
    proof {
        assert(out@.len() == full.len());
        assert(forall|j: int| 0 <= j < done.len() ==> #[trigger] out@[j]@ == full[j]);
        assert(out@[done.len() as int]@ == pre);
        assert(full[done.len() as int] == pre);
    }
    out
}

} // verus!
