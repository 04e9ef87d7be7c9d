use vstd::prelude::*;

use crate::protocol::codec::be16_value;
use crate::text::{hex_min, push_char, push_hex_min, decimal, push_decimal};

verus! {

/// The eight 16-bit groups of an IPv6 address given by its octets.
pub open spec fn ipv6_groups(o: Seq<u8>) -> Seq<u16> {
    Seq::new(8, |i: int| be16_value(o[2 * i], o[2 * i + 1]))
}

/// Groups joined by `:`, each in lower-case hexadecimal without leading zeros.
pub open spec fn join_groups(g: Seq<u16>) -> Seq<char>
    decreases g.len(),
{
    if g.len() == 0 {
        Seq::empty()
    } else if g.len() == 1 {
        hex_min(g[0] as nat)
    } else {
        join_groups(g.drop_last()) + seq![':'] + hex_min(g.last() as nat)
    }
}

/// Scans groups `i..` for runs of zero groups, carrying the current run and the
/// longest run seen so far (the first one among equally long runs); yields the
/// start and length of the longest run.
pub open spec fn zero_run_scan(
    g: Seq<u16>,
    i: int,
    cur_start: int,
    cur_len: int,
    best_start: int,
    best_len: int,
) -> (int, int)
    decreases g.len() - i,
{
    if i >= g.len() || i < 0 {
        (best_start, best_len)
    } else if g[i] == 0 {
        let cs = if cur_len == 0 {
            i
        } else {
            cur_start
        };
        let cl = cur_len + 1;
        if cl > best_len {
            zero_run_scan(g, i + 1, cs, cl, cs, cl)
        } else {
            zero_run_scan(g, i + 1, cs, cl, best_start, best_len)
        }
    } else {
        zero_run_scan(g, i + 1, 0, 0, best_start, best_len)
    }
}

/// Start and length of the first longest run of zero groups.
pub open spec fn longest_zero_run(g: Seq<u16>) -> (int, int) {
    zero_run_scan(g, 0, 0, 0, 0, 0)
}

/// Whether the octets are an IPv4-mapped IPv6 address (`::ffff:a.b.c.d`).
pub open spec fn is_ipv4_mapped(o: Seq<u8>) -> bool {
    forall|i: int| 0 <= i < 10 ==> o[i] == 0
} 

/// Standard text form of the IPv6 address with these sixteen octets: an
/// IPv4-mapped address as `::ffff:` and dotted decimal; otherwise the groups in
/// hexadecimal, the first longest run of two or more zero groups written `::`.
pub open spec fn spec_ipv6_text(o: Seq<u8>) -> Seq<char> {
    let g = ipv6_groups(o);
    if is_ipv4_mapped(o) && o[10] == 0xff && o[11] == 0xff {
        seq![':', ':', 'f', 'f', 'f', 'f', ':'] + decimal(o[12] as nat) + seq!['.'] + decimal(
            o[13] as nat,
        ) + seq!['.'] + decimal(o[14] as nat) + seq!['.'] + decimal(o[15] as nat)
    } else {
        let (start, len) = longest_zero_run(g);
        if len > 1 {
            join_groups(g.subrange(0, start)) + seq![':', ':'] + join_groups(
                g.subrange(start + len, 8),
            )
        } else {
            join_groups(g)
        }
    }
}

proof fn lemma_zero_run_bounds(g: Seq<u16>, i: int, cs: int, cl: int, bs: int, bl: int)
    requires
        0 <= i <= g.len(),
        0 <= cl,
        cl > 0 ==> 0 <= cs && cs + cl == i,
        0 <= bl,
        0 <= bs,
        bs + bl <= i,
        cl <= bl || cl == 0,
    ensures
        ({
            let (s, l) = zero_run_scan(g, i, cs, cl, bs, bl);
            0 <= s && 0 <= l && s + l <= g.len()
        }),
    decreases g.len() - i,
{
    if i < g.len() {
        if g[i] == 0 {
            let ncs = if cl == 0 {
                i
            } else {
                cs
            };
            let ncl = cl + 1;
            if ncl > bl {
                lemma_zero_run_bounds(g, i + 1, ncs, ncl, ncs, ncl);
            } else {
                lemma_zero_run_bounds(g, i + 1, ncs, ncl, bs, bl);
            }
        } else {
            lemma_zero_run_bounds(g, i + 1, 0, 0, bs, bl);
        }
    }
}

/// Appends the groups `g[lo..hi]` joined by `:`.
fn push_groups(s: &mut String, g: &[u16; 8], lo: usize, hi: usize)
    requires
        lo <= hi <= 8,
    ensures
        final(s)@ == old(s)@ + join_groups(g@.subrange(lo as int, hi as int)),
{
    let ghost s0 = s@;
    let mut i = lo;
    while i < hi
        invariant
            lo <= i <= hi <= 8,
            g@.len() == 8,
            s@ == s0 + join_groups(g@.subrange(lo as int, i as int)),
        decreases hi - i,
    {
        if i > lo {
            push_char(s, ':');
        }
        push_hex_min(s, g[i] as u64);
        let ghost sub = g@.subrange(lo as int, i + 1);
        assert(sub.drop_last() =~= g@.subrange(lo as int, i as int));
        i = i + 1;
        assert(s@ =~= s0 + join_groups(g@.subrange(lo as int, i as int)));
    }
}

/// Standard text form of an IPv6 address.
pub(crate) fn ipv6_text(o: [u8; 16]) -> (s: String)
    ensures
        s@ == spec_ipv6_text(o@),
{
    let mut s = String::new();
    if o[0] == 0 && o[1] == 0 && o[2] == 0 && o[3] == 0 && o[4] == 0 && o[5] == 0 && o[6] == 0
        && o[7] == 0 && o[8] == 0 && o[9] == 0 && o[10] == 0xff && o[11] == 0xff {
        push_char(&mut s, ':');
        push_char(&mut s, ':');
        push_char(&mut s, 'f');
        push_char(&mut s, 'f');
        push_char(&mut s, 'f');
        push_char(&mut s, 'f');
        push_char(&mut s, ':');
        push_decimal(&mut s, o[12] as u64);
        push_char(&mut s, '.');
        push_decimal(&mut s, o[13] as u64);
        push_char(&mut s, '.');
        push_decimal(&mut s, o[14] as u64);
        push_char(&mut s, '.');
        push_decimal(&mut s, o[15] as u64);
        assert(s@ =~= spec_ipv6_text(o@));
        return s;
    }
    let mut g: [u16; 8] = [0u16; 8];
    let mut k: usize = 0;
    while k < 8
        invariant
            0 <= k <= 8,
            g@.len() == 8,
            forall|j: int| 0 <= j < k ==> g@[j] == be16_value(o@[2 * j], o@[2 * j + 1]),
        decreases 8 - k,
    {
        g[k] = (o[2 * k] as u16) * 256 + (o[2 * k + 1] as u16);
        k = k + 1;
    }
    assert(g@ =~= ipv6_groups(o@));
    let mut cur_start: usize = 0;
    let mut cur_len: usize = 0;
    let mut best_start: usize = 0;
    let mut best_len: usize = 0;
    let mut i: usize = 0;
    while i < 8
        invariant
            0 <= i <= 8,
            g@ == ipv6_groups(o@),
            cur_len > 0 ==> cur_start + cur_len == i,
            cur_len <= i,
            best_start + best_len <= i,
            cur_len <= best_len || cur_len == 0,
            zero_run_scan(g@, i as int, cur_start as int, cur_len as int, best_start as int, best_len as int)
                == longest_zero_run(g@),
        decreases 8 - i,
    {
        if g[i] == 0 {
            if cur_len == 0 {
                cur_start = i;
            }
            cur_len = cur_len + 1;
            if cur_len > best_len {
                best_start = cur_start;
                best_len = cur_len;
            }
        } else {
            cur_start = 0;
            cur_len = 0;
        }
        i = i + 1;
    }
    if best_len > 1 {
        push_groups(&mut s, &g, 0, best_start);
        push_char(&mut s, ':');
        push_char(&mut s, ':');
        push_groups(&mut s, &g, best_start + best_len, 8);
    } else {
        push_groups(&mut s, &g, 0, 8);
        assert(g@.subrange(0, 8) =~= g@);
    }
    assert(s@ =~= spec_ipv6_text(o@));
    s
}

} // verus!
