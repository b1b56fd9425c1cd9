//! Byte-sequence helpers: ASCII case folding, prefix and substring tests.

use vstd::prelude::*;

verus! {

/// ASCII lower-casing of a single byte.
pub open spec fn lower_byte(b: u8) -> u8 {
    if 65 <= b && b <= 90 {
        (b + 32) as u8
    } else {
        b
    }
}

/// ASCII lower-casing of a whole byte sequence.
pub open spec fn lower_bytes(s: Seq<u8>) -> Seq<u8> {
    s.map_values(|b: u8| lower_byte(b))
}

pub fn to_lower(v: &Vec<u8>) -> (r: Vec<u8>)
    ensures
        r@ == lower_bytes(v@),
{
    let mut r: Vec<u8> = Vec::new();
    let mut i: usize = 0;
    while i < v.len()
        invariant
            i <= v.len(),
            r@ == lower_bytes(v@.subrange(0, i as int)),
        decreases v.len() - i,
    {
        let b = v[i];
        let lb: u8 = if 65 <= b && b <= 90 {
            b + 32
        } else {
            b
        };
        r.push(lb);
        proof {
            assert(r@ =~= lower_bytes(v@.subrange(0, i as int + 1)));
        }
        i = i + 1;
    }
    proof {
        assert(v@.subrange(0, v@.len() as int) =~= v@);
    }
    r
}

/// `p` is a prefix of `s`.
pub open spec fn has_prefix(s: Seq<u8>, p: Seq<u8>) -> bool {
    p.len() <= s.len() && s.subrange(0, p.len() as int) == p
}

pub fn starts_with(v: &Vec<u8>, p: &Vec<u8>) -> (r: bool)
    ensures
        r == has_prefix(v@, p@),
{
    if p.len() > v.len() {
        return false;
    }
    let mut i: usize = 0;
    while i < p.len()
        invariant
            p@.len() <= v@.len(),
            i <= p.len(),
            forall|j: int| 0 <= j < i ==> v@[j] == p@[j],
        decreases p.len() - i,
    {
        if v[i] != p[i] {
            assert(v@.subrange(0, p@.len() as int)[i as int] != p@[i as int]);
            return false;
        }
        i = i + 1;
    }
    proof {
        assert(v@.subrange(0, p@.len() as int) =~= p@);
    }
    true
}

/// `n` occurs in `s` starting at position `i`.
pub open spec fn matches_at(s: Seq<u8>, n: Seq<u8>, i: int) -> bool {
    0 <= i && i + n.len() <= s.len() && s.subrange(i, i + n.len()) == n
}

/// `n` occurs somewhere in `s` as a contiguous subsequence.
pub open spec fn contains_seq(s: Seq<u8>, n: Seq<u8>) -> bool {
    exists|i: int| matches_at(s, n, i)
}

fn match_at(s: &Vec<u8>, n: &Vec<u8>, i: usize) -> (r: bool)
    requires
        i + n@.len() <= s@.len(),
        s@.len() <= usize::MAX,
    ensures
        r == matches_at(s@, n@, i as int),
{
    let mut j: usize = 0;
    while j < n.len()
        invariant
            i + n@.len() <= s@.len(),
            s@.len() <= usize::MAX,
            j <= n.len(),
            forall|m: int| 0 <= m < j ==> s@[i + m] == n@[m],
        decreases n.len() - j,
    {
        if s[i + j] != n[j] {
            proof {
                assert(s@.subrange(i as int, i + n@.len())[j as int] != n@[j as int]);
            }
            return false;
        }
        j = j + 1;
    }
    proof {
        assert(s@.subrange(i as int, i + n@.len()) =~= n@);
    }
    true
}

pub fn contains_sub(s: &Vec<u8>, n: &Vec<u8>) -> (r: bool)
    ensures
        r == contains_seq(s@, n@),
{
    if n.len() > s.len() {
        assert(forall|i: int| !matches_at(s@, n@, i));
        return false;
    }
    let last_start: usize = s.len() - n.len();
    let mut i: usize = 0;
    loop
        invariant
            n@.len() <= s@.len(),
            s@.len() <= usize::MAX,
            last_start == s@.len() - n@.len(),
            i <= last_start,
            forall|k: int| 0 <= k < i ==> !matches_at(s@, n@, k),
        decreases last_start - i,
    {
        if match_at(s, n, i) {
            return true;
        }
        if i == last_start {
            proof {
                assert(forall|k: int| matches_at(s@, n@, k) ==> 0 <= k <= last_start);
            }
            return false;
        }
        i = i + 1;
    }
}

} // verus!
