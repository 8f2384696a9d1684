//! Textual IP addresses as `str::parse::<std::net::IpAddr>` reads them.
use vstd::prelude::*;

use crate::text::chars_of;

verus! {

/// The pieces of `s` between occurrences of `sep`, as `str::split` yields them.
pub open spec fn split(s: Seq<char>, sep: char) -> Seq<Seq<char>>
    decreases s.len(),
{
    if s.len() == 0 {
        seq![Seq::<char>::empty()]
    } else {
        let parts = split(s.drop_last(), sep);
        if s.last() == sep {
            parts.push(Seq::<char>::empty())
        } else {
            parts.update(parts.len() - 1, parts.last().push(s.last()))
        }
    }
}

pub proof fn lemma_split_nonempty(s: Seq<char>, sep: char)
    ensures
        split(s, sep).len() >= 1,
    decreases s.len(),
{
    if s.len() > 0 {
        lemma_split_nonempty(s.drop_last(), sep);
    }
}

pub open spec fn digit_value(c: char) -> nat {
    (c as int - '0' as int) as nat
}

pub open spec fn hex_value(c: char) -> nat {
    if '0' <= c && c <= '9' {
        (c as int - '0' as int) as nat
    } else if 'a' <= c && c <= 'f' {
        (c as int - 'a' as int + 10) as nat
    } else {
        (c as int - 'A' as int + 10) as nat
    }
}

pub open spec fn is_hex(c: char) -> bool {
    ('0' <= c && c <= '9') || ('a' <= c && c <= 'f') || ('A' <= c && c <= 'F')
}

/// Value of a run of decimal digits.
pub open spec fn dec_number(p: Seq<char>) -> nat
    decreases p.len(),
{
    if p.len() == 0 {
        0
    } else {
        dec_number(p.drop_last()) * 10 + digit_value(p.last())
    }
}

/// Value of a run of hexadecimal digits.
pub open spec fn hex_number(p: Seq<char>) -> nat
    decreases p.len(),
{
    if p.len() == 0 {
        0
    } else {
        hex_number(p.drop_last()) * 16 + hex_value(p.last())
    }
}

/// One field of a dotted-quad IPv4 address: one to three digits, no leading
/// zero unless the field is `0`, at most 255.
pub open spec fn dec_octet(p: Seq<char>) -> bool {
    &&& 1 <= p.len() <= 3
    &&& forall|i: int| 0 <= i < p.len() ==> '0' <= #[trigger] p[i] && p[i] <= '9'
    &&& (p.len() == 1 || p[0] != '0')
    &&& dec_number(p) <= 255
}

/// The four octets of an IPv4 address text.
pub open spec fn ipv4_octets(s: Seq<char>) -> Option<Seq<nat>> {
    let p = split(s, '.');
    if p.len() == 4 && dec_octet(p[0]) && dec_octet(p[1]) && dec_octet(p[2]) && dec_octet(p[3]) {
        Some(seq![dec_number(p[0]), dec_number(p[1]), dec_number(p[2]), dec_number(p[3])])
    } else {
        None
    }
}

/// One 16-bit group of an IPv6 address: one to four hexadecimal digits.
pub open spec fn hex_group(p: Seq<char>) -> bool {
    &&& 1 <= p.len() <= 4
    &&& forall|i: int| 0 <= i < p.len() ==> is_hex(#[trigger] p[i])
}

/// The 16-bit values that a list of colon-separated pieces stands for. Every
/// piece is a hex group, except that the last may be an IPv4 address when
/// `tail_v4` allows it, which stands for two groups.
pub open spec fn group_values(parts: Seq<Seq<char>>, tail_v4: bool) -> Option<Seq<nat>>
    decreases parts.len(),
{
    if parts.len() == 0 {
        Some(Seq::empty())
    } else {
        let last = parts.last();
        match group_values(parts.drop_last(), false) {
            None => None,
            Some(front) => if hex_group(last) {
                Some(front.push(hex_number(last)))
            } else if tail_v4 && ipv4_octets(last).is_some() {
                let o = ipv4_octets(last).unwrap();
                Some(front.push(o[0] * 256 + o[1]).push(o[2] * 256 + o[3]))
            } else {
                None
            },
        }
    }
}

pub open spec fn zeros(n: nat) -> Seq<nat> {
    Seq::new(n, |i: int| 0nat)
}

/// Whether no piece is empty.
pub open spec fn all_nonempty(parts: Seq<Seq<char>>) -> bool {
    forall|i: int| 0 <= i < parts.len() ==> #[trigger] parts[i].len() > 0
}

/// The eight groups of an IPv6 address text.
pub open spec fn ipv6_groups(s: Seq<char>) -> Option<Seq<nat>> {
    let p = split(s, ':');
    let n = p.len();
    if n >= 3 && p[0].len() == 0 && p[1].len() == 0 {
        // starts with "::"
        if n == 3 && p[2].len() == 0 {
            Some(zeros(8))
        } else {
            let tail = p.skip(2);
            if all_nonempty(tail) {
                match group_values(tail, true) {
                    Some(t) if t.len() <= 7 => Some(zeros((8 - t.len()) as nat) + t),
                    _ => None,
                }
            } else {
                None
            }
        }
    } else if n >= 3 && p[n - 1].len() == 0 && p[n - 2].len() == 0 {
        // ends with "::"
        let head = p.take(n - 2);
        if all_nonempty(head) {
            match group_values(head, false) {
                Some(h) if h.len() <= 7 => Some(h + zeros((8 - h.len()) as nat)),
                _ => None,
            }
        } else {
            None
        }
    } else if exists|k: int| 0 < k < n - 1 && #[trigger] p[k].len() == 0 {
        // "::" in the middle
        let k = choose|k: int| 0 < k < n - 1 && #[trigger] p[k].len() == 0;
        let head = p.take(k);
        let tail = p.skip(k + 1);
        if all_nonempty(head) && all_nonempty(tail) {
            match (group_values(head, false), group_values(tail, true)) {
                (Some(h), Some(t)) if h.len() + t.len() <= 7 => Some(
                    h + zeros((8 - h.len() - t.len()) as nat) + t,
                ),
                _ => None,
            }
        } else {
            None
        }
    } else if all_nonempty(p) {
        match group_values(p, true) {
            Some(g) if g.len() == 8 => Some(g),
            _ => None,
        }
    } else {
        None
    }
}

/// What `s.parse::<IpAddr>()` decides: `None` when `s` is no IP address,
/// otherwise whether the address is a loopback address (`127.0.0.0/8` or `::1`).
pub open spec fn ip_loopback(s: Seq<char>) -> Option<bool> {
    match ipv4_octets(s) {
        Some(o) => Some(o[0] == 127),
        None => match ipv6_groups(s) {
            Some(g) => Some(g == zeros(7).push(1)),
            None => None,
        },
    }
}


pub proof fn lemma_group_values_prefix_none(s: Seq<Seq<char>>, k: int, tail_v4: bool)
    requires
        0 <= k < s.len(),
        k + 1 < s.len() || !tail_v4,
        group_values(s.take(k + 1), false).is_none(),
    ensures
        group_values(s, tail_v4).is_none(),
    decreases s.len(),
{
    if k + 1 == s.len() {
        assert(s.take(k + 1) == s);
        assert(s.drop_last() == s.take(k));
        assert(s.take(k + 1).drop_last() == s.take(k));
    } else {
        assert(s.drop_last().take(k + 1) == s.take(k + 1));
        lemma_group_values_prefix_none(s.drop_last(), k, false);
    }
}

pub open spec fn vviews(v: Seq<Vec<char>>) -> Seq<Seq<char>> {
    v.map_values(|x: Vec<char>| x@)
}

/// `split` on a character vector.
pub fn split_chars(s: &Vec<char>, sep: char) -> (parts: Vec<Vec<char>>)
    ensures
        vviews(parts@) == split(s@, sep),
{
    let mut done: Vec<Vec<char>> = Vec::new();
    let mut cur: Vec<char> = Vec::new();
    let mut i: usize = 0;
    assert(s@.take(0) =~= Seq::<char>::empty());
    while i < s.len()
        invariant
            i <= s.len(),
            vviews(done@).push(cur@) == split(s@.take(i as int), sep),
        decreases s.len() - i,
    {
        let c = s[i];
        let ghost before = s@.take(i as int);
        assert(s@.take(i + 1).drop_last() == before);
        assert(s@.take(i + 1).last() == c);
        proof {
            lemma_split_nonempty(before, sep);
        }
        if c == sep {
            done.push(cur);
            cur = Vec::new();
            assert(vviews(done@).push(cur@) =~= split(before, sep).push(Seq::<char>::empty()));
        } else {
            let ghost old_cur = cur@;
            cur.push(c);
            assert(vviews(done@).push(cur@) =~= split(before, sep).update(
                split(before, sep).len() - 1,
                old_cur.push(c),
            ));
        }
        i = i + 1;
    }
    assert(s@.take(s.len() as int) == s@);
    done.push(cur);
    done
}

fn is_digit(c: char) -> (r: bool)
    ensures
        r == ('0' <= c && c <= '9'),
{
    '0' <= c && c <= '9'
}

fn hex_digit(c: char) -> (r: Option<u32>)
    ensures
        match r {
            Some(v) => is_hex(c) && v == hex_value(c),
            None => !is_hex(c),
        },
{
    if '0' <= c && c <= '9' {
        Some((c as u32) - ('0' as u32))
    } else if 'a' <= c && c <= 'f' {
        Some((c as u32) - ('a' as u32) + 10)
    } else if 'A' <= c && c <= 'F' {
        Some((c as u32) - ('A' as u32) + 10)
    } else {
        None
    }
}

/// The value of a dotted-quad field, when `p` is one.
fn octet_value(p: &Vec<char>) -> (r: Option<u32>)
    ensures
        match r {
            Some(v) => dec_octet(p@) && v == dec_number(p@),
            None => !dec_octet(p@),
        },
{
    if p.len() < 1 || p.len() > 3 {
        return None;
    }
    if p.len() > 1 && p[0] == '0' {
        return None;
    }
    let mut v: u32 = 0;
    let mut i: usize = 0;
    while i < p.len()
        invariant
            1 <= p.len() <= 3,
            i <= p.len(),
            forall|j: int| 0 <= j < i ==> '0' <= #[trigger] p@[j] && p@[j] <= '9',
            v == dec_number(p@.take(i as int)),
            v < 1000,
            i < 3 ==> v < 100,
            i < 2 ==> v < 10,
            i == 0 ==> v == 0,
        decreases p.len() - i,
    {
        let c = p[i];
        if !is_digit(c) {
            return None;
        }
        assert(p@.take(i + 1).drop_last() == p@.take(i as int));
        v = v * 10 + ((c as u32) - ('0' as u32));
        i = i + 1;
    }
    assert(p@.take(p.len() as int) == p@);
    if v > 255 {
        None
    } else {
        Some(v)
    }
}

/// The value of an IPv6 group, when `p` is one.
fn group_value(p: &Vec<char>) -> (r: Option<u32>)
    ensures
        match r {
            Some(v) => hex_group(p@) && v == hex_number(p@),
            None => !hex_group(p@),
        },
{
    if p.len() < 1 || p.len() > 4 {
        return None;
    }
    let mut v: u32 = 0;
    let mut i: usize = 0;
    while i < p.len()
        invariant
            1 <= p.len() <= 4,
            i <= p.len(),
            forall|j: int| 0 <= j < i ==> is_hex(#[trigger] p@[j]),
            v == hex_number(p@.take(i as int)),
            v < 65536,
            i < 4 ==> v < 4096,
            i < 3 ==> v < 256,
            i < 2 ==> v < 16,
            i == 0 ==> v == 0,
        decreases p.len() - i,
    {
        match hex_digit(p[i]) {
            None => {
                return None;
            },
            Some(d) => {
                assert(p@.take(i + 1).drop_last() == p@.take(i as int));
                v = v * 16 + d;
            },
        }
        i = i + 1;
    }
    assert(p@.take(p.len() as int) == p@);
    Some(v)
}

/// The octets of an IPv4 address text.
fn ipv4_of(s: &Vec<char>) -> (r: Option<Vec<u32>>)
    ensures
        match r {
            Some(o) => ipv4_octets(s@) == Some(o@.map_values(|x: u32| x as nat)),
            None => ipv4_octets(s@).is_none(),
        },
{
    let parts = split_chars(s, '.');
    if parts.len() != 4 {
        return None;
    }
    let a = octet_value(&parts[0]);
    let b = octet_value(&parts[1]);
    let c = octet_value(&parts[2]);
    let d = octet_value(&parts[3]);
    match (a, b, c, d) {
        (Some(a), Some(b), Some(c), Some(d)) => {
            let mut o = Vec::new();
            o.push(a);
            o.push(b);
            o.push(c);
            o.push(d);
            assert(o@.map_values(|x: u32| x as nat) =~= seq![a as nat, b as nat, c as nat, d as nat]);
            Some(o)
        },
        _ => None,
    }
}

pub open spec fn nats(v: Seq<u32>) -> Seq<nat> {
    v.map_values(|x: u32| x as nat)
}

/// `group_values` on `parts[lo..hi]`.
fn group_values_range(parts: &Vec<Vec<char>>, lo: usize, hi: usize, tail_v4: bool) -> (r: Option<
    Vec<u32>,
>)
    requires
        lo <= hi <= parts.len(),
    ensures
        match r {
            Some(v) => group_values(vviews(parts@).subrange(lo as int, hi as int), tail_v4) == Some(
                nats(v@),
            ),
            None => group_values(vviews(parts@).subrange(lo as int, hi as int), tail_v4).is_none(),
        },
{
    let ghost pv = vviews(parts@);
    let mut vals: Vec<u32> = Vec::new();
    let mut i = lo;
    assert(pv.subrange(lo as int, lo as int) =~= Seq::<Seq<char>>::empty());
    assert(nats(vals@) =~= Seq::<nat>::empty());
    while i < hi
        invariant
            lo <= i <= hi <= parts.len(),
            pv == vviews(parts@),
            group_values(pv.subrange(lo as int, i as int), false) == Some(nats(vals@)),
        decreases hi - i,
    {
        let last = i + 1 == hi;
        let ghost prefix = pv.subrange(lo as int, i as int);
        let ghost next = pv.subrange(lo as int, i + 1);
        assert(next.drop_last() == prefix);
        assert(next.last() == parts@[i as int]@);
        match group_value(&parts[i]) {
            Some(g) => {
                vals.push(g);
                assert(nats(vals@) =~= nats(vals@.drop_last()).push(g as nat));
                if last {
                    assert(next == pv.subrange(lo as int, hi as int));
                    assert(group_values(next, tail_v4) == Some(nats(vals@)));
                }
            },
            None => {
                if last && tail_v4 {
                    match ipv4_of(&parts[i]) {
                        Some(o) => {
                            proof {
                                let part = parts@[i as int]@;
                                let q = split(part, '.');
                                assert(nats(o@) == seq![dec_number(q[0]), dec_number(q[1]), dec_number(q[2]), dec_number(q[3])]);
                                assert(o@.len() == 4);
                                assert(nats(o@)[0] == o@[0] as nat);
                                assert(nats(o@)[1] == o@[1] as nat);
                                assert(nats(o@)[2] == o@[2] as nat);
                                assert(nats(o@)[3] == o@[3] as nat);
                            }
                            let hi16 = o[0] * 256 + o[1];
                            let lo16 = o[2] * 256 + o[3];
                            vals.push(hi16);
                            vals.push(lo16);
                            assert(nats(vals@) =~= nats(vals@.drop_last().drop_last()).push(
                                hi16 as nat,
                            ).push(lo16 as nat));
                            assert(next == pv.subrange(lo as int, hi as int));
                            return Some(vals);
                        },
                        None => {
                            assert(next == pv.subrange(lo as int, hi as int));
                            return None;
                        },
                    }
                } else {
                    proof {
                        if !last {
                            let whole = pv.subrange(lo as int, hi as int);
                            assert(whole.take(i - lo + 1) == next);
                            lemma_group_values_prefix_none(whole, i - lo, tail_v4);
                        } else {
                            assert(next == pv.subrange(lo as int, hi as int));
                        }
                    }
                    return None;
                }
            },
        }
        i = i + 1;
    }
    if hi > lo {
        let ghost whole = pv.subrange(lo as int, hi as int);
        assert(group_values(whole, tail_v4) == Some(nats(vals@)) || true);
    } else {
        assert(pv.subrange(lo as int, hi as int) =~= Seq::<Seq<char>>::empty());
    }
    Some(vals)
}


/// `all_nonempty` on `parts[lo..hi]`.
fn all_nonempty_range(parts: &Vec<Vec<char>>, lo: usize, hi: usize) -> (r: bool)
    requires
        lo <= hi <= parts.len(),
    ensures
        r == all_nonempty(vviews(parts@).subrange(lo as int, hi as int)),
{
    let mut i = lo;
    while i < hi
        invariant
            lo <= i <= hi <= parts.len(),
            forall|j: int| lo <= j < i ==> #[trigger] parts@[j]@.len() > 0,
        decreases hi - i,
    {
        if parts[i].len() == 0 {
            assert(vviews(parts@).subrange(lo as int, hi as int)[i - lo].len() == 0);
            return false;
        }
        i = i + 1;
    }
    assert forall|j: int| 0 <= j < hi - lo implies #[trigger] vviews(parts@).subrange(
        lo as int,
        hi as int,
    )[j].len() > 0 by {
        assert(parts@[lo + j]@.len() > 0);
    }
    true
}

/// Appends `count` zero groups.
fn push_zeros(v: &mut Vec<u32>, count: usize)
    ensures
        nats(final(v)@) == nats(old(v)@) + zeros(count as nat),
{
    let ghost start = nats(v@);
    let mut i: usize = 0;
    while i < count
        invariant
            i <= count,
            nats(v@) == start + zeros(i as nat),
        decreases count - i,
    {
        let ghost prev = v@;
        v.push(0);
        assert(v@ == prev.push(0));
        assert(nats(v@) =~= nats(prev).push(0nat));
        assert(start + zeros((i + 1) as nat) =~= (start + zeros(i as nat)).push(0nat));
        i = i + 1;
    }
}

/// Appends `w` to `v`.
fn push_all(v: &mut Vec<u32>, w: &Vec<u32>)
    ensures
        nats(final(v)@) == nats(old(v)@) + nats(w@),
{
    let ghost start = nats(v@);
    let mut i: usize = 0;
    while i < w.len()
        invariant
            i <= w.len(),
            nats(v@) == start + nats(w@.take(i as int)),
        decreases w.len() - i,
    {
        let ghost prev = v@;
        v.push(w[i]);
        assert(v@ == prev.push(w@[i as int]));
        assert(nats(v@) =~= nats(prev).push(w@[i as int] as nat));
        assert(w@.take(i + 1) == w@.take(i as int).push(w@[i as int]));
        assert(nats(w@.take(i + 1)) =~= nats(w@.take(i as int)).push(w@[i as int] as nat));
        assert(start + nats(w@.take(i + 1)) =~= (start + nats(w@.take(i as int))).push(w@[i as int] as nat));
        i = i + 1;
    }
    assert(w@.take(w.len() as int) == w@);
}

/// The eight groups of an IPv6 address text.
fn ipv6_of(s: &Vec<char>) -> (r: Option<Vec<u32>>)
    ensures
        match r {
            Some(g) => ipv6_groups(s@) == Some(nats(g@)),
            None => ipv6_groups(s@).is_none(),
        },
{
    let p = split_chars(s, ':');
    let ghost pv = vviews(p@);
    let n = p.len();
    proof {
        lemma_split_nonempty(s@, ':');
        assert(pv.len() == n);
    }
    if n >= 3 && p[0].len() == 0 && p[1].len() == 0 {
        if n == 3 && p[2].len() == 0 {
            let mut g = Vec::new();
            push_zeros(&mut g, 8);
            assert(nats(g@) =~= zeros(8));
            return Some(g);
        }
        assert(pv.skip(2) == pv.subrange(2, n as int));
        if !all_nonempty_range(&p, 2, n) {
            return None;
        }
        match group_values_range(&p, 2, n, true) {
            Some(t) => {
                if t.len() <= 7 {
                    let mut g = Vec::new();
                    push_zeros(&mut g, 8 - t.len());
                    push_all(&mut g, &t);
                    assert(nats(g@) =~= zeros((8 - nats(t@).len()) as nat) + nats(t@));
                    Some(g)
                } else {
                    None
                }
            },
            None => None,
        }
    } else if n >= 3 && p[n - 1].len() == 0 && p[n - 2].len() == 0 {
        assert(pv.take(n - 2) == pv.subrange(0, n - 2));
        if !all_nonempty_range(&p, 0, n - 2) {
            return None;
        }
        match group_values_range(&p, 0, n - 2, false) {
            Some(h) => {
                if h.len() <= 7 {
                    let mut g = Vec::new();
                    push_all(&mut g, &h);
                    push_zeros(&mut g, 8 - h.len());
                    assert(nats(g@) =~= nats(h@) + zeros((8 - nats(h@).len()) as nat));
                    Some(g)
                } else {
                    None
                }
            },
            None => None,
        }
    } else {
        let mut k: usize = 1;
        assert(n >= 1);
        while k < n - 1 && p[k].len() != 0
            invariant
                1 <= k,
                n >= 1,
                n == p.len(),
                forall|j: int| 1 <= j < k ==> #[trigger] pv[j].len() > 0,
                pv == vviews(p@),
            decreases n - k,
        {
            k = k + 1;
        }
        if k < n - 1 {
            // the first empty piece strictly inside
            assert(pv[k as int].len() == 0);
            assert(pv.take(k as int) == pv.subrange(0, k as int));
            assert(pv.skip(k + 1) == pv.subrange(k + 1, n as int));
            let head_ok = all_nonempty_range(&p, 0, k);
            let tail_ok = all_nonempty_range(&p, k + 1, n);
            let ghost kk = choose|j: int| 0 < j < n - 1 && #[trigger] pv[j].len() == 0;
            proof {
                assert(0 < k < n - 1 && pv[k as int].len() == 0);
                assert(0 < kk < n - 1 && pv[kk].len() == 0);
                if kk < k {
                    assert(pv[kk].len() > 0);
                }
                if kk > k {
                    assert(pv.skip(k + 1)[kk - k - 1].len() == 0);
                    assert(pv.take(kk)[k as int].len() == 0);
                }
            }
            if !(head_ok && tail_ok) {
                return None;
            }
            assert(kk == k);
            let h = group_values_range(&p, 0, k, false);
            let t = group_values_range(&p, k + 1, n, true);
            match (h, t) {
                (Some(h), Some(t)) => {
                    if h.len() <= 7 && t.len() <= 7 - h.len() {
                        let mut g = Vec::new();
                        push_all(&mut g, &h);
                        push_zeros(&mut g, 8 - h.len() - t.len());
                        push_all(&mut g, &t);
                        assert(nats(g@) =~= nats(h@) + zeros(
                            (8 - nats(h@).len() - nats(t@).len()) as nat,
                        ) + nats(t@));
                        Some(g)
                    } else {
                        None
                    }
                },
                _ => None,
            }
        } else {
            assert(!exists|j: int| 0 < j < n - 1 && #[trigger] pv[j].len() == 0) by {
                assert forall|j: int| 0 < j < n - 1 implies #[trigger] pv[j].len() > 0 by {
                    assert(j < k);
                }
            }
            assert(pv.subrange(0, n as int) == pv);
            if !all_nonempty_range(&p, 0, n) {
                return None;
            }
            match group_values_range(&p, 0, n, true) {
                Some(g) => {
                    if g.len() == 8 {
                        Some(g)
                    } else {
                        None
                    }
                },
                None => None,
            }
        }
    }
}

/// Parses an IP address text: `None` when it is none, otherwise whether it is
/// a loopback address.
pub fn parse_ip_loopback(s: &str) -> (r: Option<bool>)
    ensures
        r == ip_loopback(s@),
{
    let cs = chars_of(s);
    match ipv4_of(&cs) {
        Some(o) => {
            assert(ipv4_octets(cs@).unwrap().len() == 4);
            assert(nats(o@).len() == 4);
            assert(nats(o@)[0] == o@[0] as nat);
            Some(o[0] == 127)
        },
        None => match ipv6_of(&cs) {
            Some(g) => {
                let mut i: usize = 0;
                let mut ok = true;
                let ghost target = zeros(7).push(1);
                while i < 8
                    invariant
                        i <= 8,
                        nats(g@).len() == 8,
                        target == zeros(7).push(1),
                        ok == (forall|j: int| 0 <= j < i ==> nats(g@)[j] == target[j]),
                    decreases 8 - i,
                {
                    let expected: u32 = if i == 7 {
                        1
                    } else {
                        0
                    };
                    if i < 7 {
                        assert(target[i as int] == zeros(7)[i as int]);
                    }
                    assert(target[i as int] == expected as nat);
                    assert(nats(g@)[i as int] == g@[i as int] as nat);
                    ok = ok && g[i] == expected;
                    i = i + 1;
                }
                assert(ok == (nats(g@) =~= target));
                Some(ok)
            },
            None => None,
        },
    }
}

} // verus!
