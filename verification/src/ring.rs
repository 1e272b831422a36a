//! The ring of profiles: the profile names found among the files of the
//! profiles directory, in order, and the neighbours that the arrows switch to.

use vstd::prelude::*;
use crate::text::{string_of, to_chars};

verus! {

broadcast use vstd::seq_lib::to_multiset_insert, vstd::seq_lib::to_multiset_build;

/// Whether `a` comes strictly before `b` in the order of `String` (by bytes,
/// which is the order of the characters' code points).
pub open spec fn lex_lt(a: Seq<char>, b: Seq<char>) -> bool
    decreases a.len(),
{
    if a.len() == 0 {
        b.len() > 0
    } else if b.len() == 0 {
        false
    } else if (a[0] as u32) < (b[0] as u32) {
        true
    } else if a[0] == b[0] {
        lex_lt(a.drop_first(), b.drop_first())
    } else {
        false
    }
}

pub open spec fn lex_le(a: Seq<char>, b: Seq<char>) -> bool {
    a == b || lex_lt(a, b)
}

/// `s` is in ascending order.
pub open spec fn sorted(s: Seq<Seq<char>>) -> bool {
    forall|i: int, j: int| 0 <= i < j < s.len() ==> lex_le(#[trigger] s[i], #[trigger] s[j])
}

pub open spec fn names(v: Seq<String>) -> Seq<Seq<char>> {
    v.map_values(|s: String| s@)
}

proof fn lemma_lex_trans(a: Seq<char>, b: Seq<char>, c: Seq<char>)
    requires
        lex_lt(a, b),
        lex_lt(b, c),
    ensures
        lex_lt(a, c),
    decreases a.len(),
{
    if a.len() > 0 && b.len() > 0 && c.len() > 0 && a[0] == b[0] && b[0] == c[0] {
        lemma_lex_trans(a.drop_first(), b.drop_first(), c.drop_first());
    }
}

proof fn lemma_lex_total(a: Seq<char>, b: Seq<char>)
    ensures
        a == b || lex_lt(a, b) || lex_lt(b, a),
    decreases a.len(),
{
    if a.len() > 0 && b.len() > 0 && a[0] == b[0] {
        lemma_lex_total(a.drop_first(), b.drop_first());
        if a.drop_first() == b.drop_first() {
            assert(a =~= seq![a[0]] + a.drop_first());
            assert(b =~= seq![b[0]] + b.drop_first());
        }
    } else if a.len() > 0 && b.len() > 0 {
        vstd::utf8::char_u32_cast(a[0], a[0] as u32);
        vstd::utf8::char_u32_cast(b[0], b[0] as u32);
        assert((a[0] as u32) != (b[0] as u32));
    } else if a.len() == 0 && b.len() == 0 {
        assert(a =~= b);
    }
}

proof fn lemma_lex_irrefl(a: Seq<char>)
    ensures
        !lex_lt(a, a),
    decreases a.len(),
{
    if a.len() > 0 {
        lemma_lex_irrefl(a.drop_first());
    }
}

/// Whether `a` comes strictly before `b`.
pub fn lex_less(a: &Vec<char>, b: &Vec<char>) -> (r: bool)
    ensures
        r == lex_lt(a@, b@),
{
    let mut i: usize = 0;
    assert(a@.skip(0) =~= a@);
    assert(b@.skip(0) =~= b@);
    while i < a.len() && i < b.len() && a[i] == b[i]
        invariant
            i <= a.len(),
            i <= b.len(),
            lex_lt(a@, b@) == lex_lt(a@.skip(i as int), b@.skip(i as int)),
        decreases a.len() - i,
    {
        let ghost sa = a@.skip(i as int);
        let ghost sb = b@.skip(i as int);
        assert(sa.drop_first() =~= a@.skip(i + 1));
        assert(sb.drop_first() =~= b@.skip(i + 1));
        i += 1;
    }
    let ghost sa = a@.skip(i as int);
    let ghost sb = b@.skip(i as int);
    if i == a.len() {
        assert(sa.len() == 0);
        i < b.len()
    } else if i == b.len() {
        false
    } else {
        assert(sa[0] == a@[i as int]);
        assert(sb[0] == b@[i as int]);
        (a[i] as u32) < (b[i] as u32)
    }
}

/// The profile names among the file names: those ending in `.toml`, without it.
pub open spec fn toml_stems(files: Seq<Seq<char>>) -> Seq<Seq<char>>
    decreases files.len(),
{
    if files.len() == 0 {
        seq![]
    } else {
        let prev = toml_stems(files.drop_last());
        let f = files.last();
        if f.len() >= 5 && f.skip(f.len() - 5) == ".toml"@ {
            prev.push(f.take(f.len() - 5))
        } else {
            prev
        }
    }
}

/// Whether `f` ends in `.toml`.
fn is_toml(f: &Vec<char>) -> (r: bool)
    ensures
        r == (f@.len() >= 5 && f@.skip(f@.len() - 5) == ".toml"@),
{
    if f.len() < 5 {
        return false;
    }
    let tail = string_of(f, f.len() - 5, f.len());
    assert(f@.subrange(f@.len() - 5, f@.len() as int) =~= f@.skip(f@.len() - 5));
    crate::text::str_is(tail.as_str(), ".toml")
}

/// The profile names among the file names of the profiles directory — each
/// name that ends in `.toml`, without it — in ascending order.
pub fn profile_names(files: &Vec<String>) -> (r: Vec<String>)
    ensures
        sorted(names(r@)),
        names(r@).to_multiset() == toml_stems(names(files@)).to_multiset(),
{
    let mut out: Vec<String> = Vec::new();
    let mut i: usize = 0;
    assert(names(out@) =~= toml_stems(names(files@).take(0)));
    while i < files.len()
        invariant
            i <= files.len(),
            sorted(names(out@)),
            names(out@).to_multiset() == toml_stems(names(files@).take(i as int)).to_multiset(),
        decreases files.len() - i,
    {
        let ghost fs = names(files@);
        assert(fs.take(i + 1).drop_last() =~= fs.take(i as int));
        assert(fs.take(i + 1).last() == files@[i as int]@);
        let f = to_chars(files[i].as_str());
        if is_toml(&f) {
            let stem = string_of(&f, 0, f.len() - 5);
            assert(f@.subrange(0, f@.len() - 5) =~= f@.take(f@.len() - 5));
            let x = to_chars(stem.as_str());
            let mut p: usize = 0;
            while p < out.len() && !lex_less(&x, &to_chars(out[p].as_str()))
                invariant
                    p <= out.len(),
                    x@ == stem@,
                    forall|k: int| 0 <= k < p ==> !lex_lt(x@, #[trigger] names(out@)[k]),
                decreases out.len() - p,
            {
                p += 1;
            }
            let ghost before = names(out@);
            proof {
                if p < out.len() {
                    assert(lex_lt(x@, before[p as int]));
                }
            }
            out.insert(p, stem);
            assert(names(out@) =~= before.insert(p as int, x@));
            proof {
                let after = names(out@);
                assert forall|a: int, b: int| 0 <= a < b < after.len() implies lex_le(
                    #[trigger] after[a],
                    #[trigger] after[b],
                ) by {
                    if b < p {
                        assert(after[a] == before[a] && after[b] == before[b]);
                    } else if b == p {
                        assert(after[a] == before[a]);
                        lemma_lex_total(before[a], x@);
                    } else if a == p {
                        assert(after[b] == before[b - 1]);
                        if b - 1 > p {
                            assert(lex_le(before[p as int], before[b - 1]));
                            if before[p as int] != before[b - 1] {
                                lemma_lex_trans(x@, before[p as int], before[b - 1]);
                            }
                        }
                    } else if a < p {
                        assert(after[a] == before[a] && after[b] == before[b - 1]);
                    } else {
                        assert(after[a] == before[a - 1] && after[b] == before[b - 1]);
                    }
                }
            }
        }
        i += 1;
    }
    assert(names(files@).take(files.len() as int) =~= names(files@));
    out
}

/// The position of the first `name` in `all`.
pub open spec fn find_first(all: Seq<Seq<char>>, name: Seq<char>) -> Option<int>
    decreases all.len(),
{
    if all.len() == 0 {
        None
    } else if all[0] == name {
        Some(0)
    } else {
        match find_first(all.drop_first(), name) {
            Some(k) => Some(k + 1),
            None => None,
        }
    }
}

/// The positions of the previous and the next profile around `name` in the
/// ring `all`; a name that is not in the ring counts as the first.
pub open spec fn spec_ring_neighbours(all: Seq<Seq<char>>, name: Seq<char>) -> (int, int) {
    let n = all.len() as int;
    let idx = match find_first(all, name) {
        Some(k) => k,
        None => 0,
    };
    ((idx + n - 1) % n, (idx + 1) % n)
}

proof fn lemma_find_first_bounds(all: Seq<Seq<char>>, name: Seq<char>)
    ensures
        find_first(all, name) matches Some(k) ==> 0 <= k < all.len() && all[k] == name && forall|j: int|
            0 <= j < k ==> all[j] != name,
        find_first(all, name) is None ==> forall|j: int| 0 <= j < all.len() ==> all[j] != name,
    decreases all.len(),
{
    if all.len() > 0 {
        lemma_find_first_bounds(all.drop_first(), name);
        assert forall|j: int| 1 <= j < all.len() implies all[j] == all.drop_first()[j - 1] by {}
    }
}

/// The positions of the previous and the next profile around `name`.
pub fn ring_neighbours(all: &Vec<String>, name: &str) -> (r: (usize, usize))
    requires
        all.len() >= 1,
    ensures
        r.0 as int == spec_ring_neighbours(names(all@), name@).0,
        r.1 as int == spec_ring_neighbours(names(all@), name@).1,
        r.0 < all.len(),
        r.1 < all.len(),
{
    let n = all.len();
    let mut idx: usize = 0;
    let mut found = false;
    let ghost ns = names(all@);
    proof {
        lemma_find_first_bounds(ns, name@);
    }
    while idx < n
        invariant_except_break
            !found,
        invariant
            n == all.len(),
            ns == names(all@),
            idx <= n,
            forall|j: int| 0 <= j < idx ==> ns[j] != name@,
        ensures
            found ==> idx < n && ns[idx as int] == name@,
            !found ==> idx == n,
            forall|j: int| 0 <= j < idx ==> ns[j] != name@,
        decreases n - idx,
    {
        if crate::text::str_is(all[idx].as_str(), name) {
            found = true;
            break;
        }
        idx += 1;
    }
    proof {
        lemma_find_first_bounds(ns, name@);
        if found {
            assert(find_first(ns, name@) == Some(idx as int)) by {
                match find_first(ns, name@) {
                    Some(k) => {
                        if k < idx {
                        } else if k > idx {
                            assert(ns[idx as int] != name@);
                        }
                    },
                    None => {
                        assert(ns[idx as int] != name@);
                    },
                }
            }
        } else {
            assert(find_first(ns, name@) is None) by {
                match find_first(ns, name@) {
                    Some(k) => {
                        assert(ns[k] != name@);
                    },
                    None => {},
                }
            }
        }
    }
    if !found {
        idx = 0;
    }
    proof {
        lemma_ring_mod(idx as int, n as int);
    }
    let prev = if idx == 0 { n - 1 } else { idx - 1 };
    let next = if idx + 1 == n { 0 } else { idx + 1 };
    (prev, next)
}

proof fn lemma_ring_mod(idx: int, n: int)
    requires
        0 <= idx < n,
    ensures
        (idx + n - 1) % n == if idx == 0 { n - 1 } else { idx - 1 },
        (idx + 1) % n == if idx + 1 == n { 0 } else { idx + 1 },
{
    if idx == 0 {
        vstd::arithmetic::div_mod::lemma_small_mod((n - 1) as nat, n as nat);
    } else {
        vstd::arithmetic::div_mod::lemma_mod_add_multiples_vanish(idx - 1, n);
        vstd::arithmetic::div_mod::lemma_small_mod((idx - 1) as nat, n as nat);
    }
    if idx + 1 == n {
        vstd::arithmetic::div_mod::lemma_mod_self_0(n);
    } else {
        vstd::arithmetic::div_mod::lemma_small_mod((idx + 1) as nat, n as nat);
    }
}

/// The arrows are inverse: among distinct profile names, the previous profile of
/// the next profile after `all[i]` is `all[i]`, and the next of its previous is too.
pub proof fn lemma_ring_inverse(all: Seq<Seq<char>>, i: int)
    requires
        0 <= i < all.len(),
        forall|a: int, b: int| 0 <= a < b < all.len() ==> all[a] != all[b],
    ensures
        spec_ring_neighbours(all, all[spec_ring_neighbours(all, all[i]).1]).0 == i,
        spec_ring_neighbours(all, all[spec_ring_neighbours(all, all[i]).0]).1 == i,
{
    let n = all.len() as int;
    lemma_position_of_distinct(all, i);
    lemma_ring_mod(i, n);
    let nx = spec_ring_neighbours(all, all[i]).1;
    let pv = spec_ring_neighbours(all, all[i]).0;
    assert(nx == if i + 1 == n { 0 } else { i + 1 });
    assert(pv == if i == 0 { n - 1 } else { i - 1 });
    lemma_position_of_distinct(all, nx);
    lemma_position_of_distinct(all, pv);
    lemma_ring_mod(nx, n);
    lemma_ring_mod(pv, n);
}

/// The position reached from position `i` of the ring `all` by pressing the
/// next-profile arrow `k` times.
pub open spec fn ring_walk(all: Seq<Seq<char>>, i: int, k: nat) -> int
    decreases k,
{
    if k == 0 {
        i
    } else {
        spec_ring_neighbours(all, all[ring_walk(all, i, (k - 1) as nat)]).1
    }
}

proof fn lemma_ring_walk(all: Seq<Seq<char>>, i: int, k: nat)
    requires
        0 <= i < all.len(),
        forall|a: int, b: int| 0 <= a < b < all.len() ==> all[a] != all[b],
    ensures
        ring_walk(all, i, k) == (i + k) % (all.len() as int),
    decreases k,
{
    let n = all.len() as int;
    if k == 0 {
        vstd::arithmetic::div_mod::lemma_small_mod(i as nat, n as nat);
    } else {
        lemma_ring_walk(all, i, (k - 1) as nat);
        let p = (i + k - 1) % n;
        assert(0 <= p < n);
        lemma_position_of_distinct(all, p);
        vstd::arithmetic::div_mod::lemma_add_mod_noop(i + k - 1, 1, n);
        if n > 1 {
            vstd::arithmetic::div_mod::lemma_small_mod(1, n as nat);
        } else {
            assert((p + 1) % 1 == 0 && (i + k) % 1 == 0);
        }
    }
}

/// The arrows cycle through the whole ring: among distinct profile names,
/// pressing the next-profile arrow from `all[i]` reaches every profile `all[j]`
/// within fewer presses than there are profiles.
pub proof fn lemma_ring_visits_all(all: Seq<Seq<char>>, i: int, j: int)
    requires
        0 <= i < all.len(),
        0 <= j < all.len(),
        forall|a: int, b: int| 0 <= a < b < all.len() ==> all[a] != all[b],
    ensures
        0 <= (j - i + all.len()) % (all.len() as int) < all.len(),
        ring_walk(all, i, ((j - i + all.len()) % (all.len() as int)) as nat) == j,
{
    let n = all.len() as int;
    let k = (j - i + n) % n;
    lemma_ring_walk(all, i, k as nat);
    vstd::arithmetic::div_mod::lemma_add_mod_noop(i, j - i + n, n);
    vstd::arithmetic::div_mod::lemma_small_mod(i as nat, n as nat);
    vstd::arithmetic::div_mod::lemma_mod_add_multiples_vanish(j, n);
    vstd::arithmetic::div_mod::lemma_small_mod(j as nat, n as nat);
    vstd::arithmetic::div_mod::lemma_mod_twice(i + (j - i + n), n);
}

proof fn lemma_position_of_distinct(all: Seq<Seq<char>>, i: int)
    requires
        0 <= i < all.len(),
        forall|a: int, b: int| 0 <= a < b < all.len() ==> all[a] != all[b],
    ensures
        find_first(all, all[i]) == Some(i),
{
    lemma_find_first_bounds(all, all[i]);
    match find_first(all, all[i]) {
        Some(k) => {
            if k < i {
                assert(all[k] != all[i]);
            } else if k > i {
                assert(all[i] != all[k]);
            }
        },
        None => {},
    }
}

} // verus!
