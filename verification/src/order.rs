//! The order of strings (that of `str`), and sorted string lists.
use vstd::prelude::*;

use crate::manifest::strs_of;
use crate::text::str_eq;
use vstd::relations::{sorted_by, total_ordering};

verus! {

/// Lexicographic order on character sequences (the order of `str`).
pub open spec fn str_lt(a: Seq<char>, b: Seq<char>) -> bool
    decreases a.len(),
{
    if a.len() == 0 {
        b.len() > 0
    } else if b.len() == 0 {
        false
    } else if a[0] != b[0] {
        (a[0] as int) < (b[0] as int)
    } else {
        str_lt(a.drop_first(), b.drop_first())
    }
}

/// Each element is smaller than the next.
pub open spec fn strictly_sorted(s: Seq<Seq<char>>) -> bool {
    forall|i: int, j: int| 0 <= i < j < s.len() ==> str_lt(s[i], s[j])
}

pub proof fn lemma_str_lt_irreflexive(a: Seq<char>)
    ensures
        !str_lt(a, a),
    decreases a.len(),
{
    if a.len() > 0 {
        lemma_str_lt_irreflexive(a.drop_first());
    }
}

pub proof fn lemma_str_lt_total(a: Seq<char>, b: Seq<char>)
    ensures
        a != b ==> str_lt(a, b) || str_lt(b, a),
    decreases a.len(),
{
    if a.len() > 0 && b.len() > 0 && a[0] == b[0] {
        lemma_str_lt_total(a.drop_first(), b.drop_first());
        if a.drop_first() == b.drop_first() {
            assert(a =~= seq![a[0]] + a.drop_first());
            assert(b =~= seq![b[0]] + b.drop_first());
        }
    } else if a.len() == 0 && b.len() == 0 {
        assert(a =~= b);
    }
}

pub proof fn lemma_str_lt_transitive(a: Seq<char>, b: Seq<char>, c: Seq<char>)
    requires
        str_lt(a, b),
        str_lt(b, c),
    ensures
        str_lt(a, c),
    decreases a.len(),
{
    if a.len() > 0 && b.len() > 0 && c.len() > 0 && a[0] == b[0] && b[0] == c[0] {
        lemma_str_lt_transitive(a.drop_first(), b.drop_first(), c.drop_first());
    }
}

pub proof fn lemma_str_lt_asymmetric(a: Seq<char>, b: Seq<char>)
    requires
        str_lt(a, b),
    ensures
        !str_lt(b, a),
{
    if str_lt(b, a) {
        lemma_str_lt_transitive(a, b, a);
        lemma_str_lt_irreflexive(a);
    }
}

/// Whether `a` orders before `b`.
pub fn str_less(a: &str, b: &str) -> (r: bool)
    ensures
        r == str_lt(a@, b@),
{
    let x = crate::text::chars_of(a);
    let y = crate::text::chars_of(b);
    let mut i: usize = 0;
    assert(x@.skip(0) =~= x@);
    assert(y@.skip(0) =~= y@);
    while i < x.len() && i < y.len() && x[i] == y[i]
        invariant
            i <= x@.len(),
            i <= y@.len(),
            str_lt(x@, y@) == str_lt(x@.skip(i as int), y@.skip(i as int)),
        decreases x@.len() - i,
    {
        assert(x@.skip(i as int).drop_first() =~= x@.skip(i + 1));
        assert(y@.skip(i as int).drop_first() =~= y@.skip(i + 1));
        i = i + 1;
    }
    if i == x.len() {
        i < y.len()
    } else if i == y.len() {
        false
    } else {
        x[i] < y[i]
    }
}

/// Inserting `x` at the first position whose element is not below it keeps
/// a strictly sorted sequence strictly sorted and adds exactly `x`.
pub proof fn lemma_sorted_insert(old_s: Seq<Seq<char>>, i: int, x: Seq<char>)
    requires
        strictly_sorted(old_s),
        0 <= i <= old_s.len(),
        forall|j: int| 0 <= j < i ==> str_lt(#[trigger] old_s[j], x),
        i < old_s.len() ==> str_lt(x, old_s[i]),
    ensures
        strictly_sorted(old_s.insert(i, x)),
        old_s.insert(i, x).to_set() == old_s.to_set().insert(x),
{
    let new_s = old_s.insert(i, x);
    assert forall|a: int, b: int| 0 <= a < b < new_s.len() implies str_lt(new_s[a], new_s[b]) by {
        if b < i {
        } else if b == i {
        } else if a < i {
            if b == i + 1 {
                lemma_str_lt_transitive(new_s[a], x, new_s[b]);
            } else {
                lemma_str_lt_transitive(new_s[a], x, old_s[i]);
                lemma_str_lt_transitive(new_s[a], old_s[i], new_s[b]);
            }
        } else if a == i {
            if b > i + 1 {
                lemma_str_lt_transitive(x, old_s[i], new_s[b]);
            }
        }
    }
    assert forall|y: Seq<char>| new_s.to_set().contains(y) <==> old_s.to_set().insert(x).contains(y) by {
        if new_s.contains(y) {
            let k = choose|k: int| 0 <= k < new_s.len() && new_s[k] == y;
            if k < i {
                assert(old_s[k] == y);
            } else if k > i {
                assert(old_s[k - 1] == y);
            }
        }
        if old_s.contains(y) {
            let k = choose|k: int| 0 <= k < old_s.len() && old_s[k] == y;
            if k < i {
                assert(new_s[k] == y);
            } else {
                assert(new_s[k + 1] == y);
            }
        }
        if y == x {
            assert(new_s[i] == y);
        }
    }
    assert(new_s.to_set() =~= old_s.to_set().insert(x));
}

/// Where `x` belongs in a strictly sorted sequence, given the place found
/// by scanning past the elements below it.
proof fn lemma_insert_place(old_s: Seq<Seq<char>>, i: int, x: Seq<char>)
    requires
        0 <= i <= old_s.len(),
        forall|j: int| 0 <= j < i ==> str_lt(#[trigger] old_s[j], x),
        i < old_s.len() ==> !str_lt(old_s[i], x),
        i < old_s.len() ==> old_s[i] != x,
    ensures
        i < old_s.len() ==> str_lt(x, old_s[i]),
{
    if i < old_s.len() {
        lemma_str_lt_total(old_s[i], x);
    }
}

/// Adds `s` to a strictly sorted list of strings unless it is already there.
pub fn insert_sorted(v: &mut Vec<&'static str>, s: &'static str)
    requires
        strictly_sorted(strs_of(old(v)@)),
    ensures
        strictly_sorted(strs_of(final(v)@)),
        strs_of(final(v)@).to_set() == strs_of(old(v)@).to_set().insert(s@),
{
    let ghost old_s = strs_of(v@);
    let mut i: usize = 0;
    while i < v.len() && str_less(v[i], s)
        invariant
            i <= v@.len(),
            v@ == old(v)@,
            old_s == strs_of(v@),
            forall|j: int| 0 <= j < i ==> str_lt(#[trigger] old_s[j], s@),
        decreases v@.len() - i,
    {
        i = i + 1;
    }
    if i < v.len() && str_eq(v[i], s) {
        assert(old_s.to_set().insert(s@) =~= old_s.to_set()) by {
            assert(old_s[i as int] == s@);
        }
        return;
    }
    proof {
        lemma_insert_place(old_s, i as int, s@);
        lemma_sorted_insert(old_s, i as int, s@);
    }
    v.insert(i, s);
    assert(strs_of(v@) =~= old_s.insert(i as int, s@));
}

/// The characters of each string.
pub open spec fn strings_view(v: Seq<String>) -> Seq<Seq<char>> {
    v.map_values(|s: String| s@)
}

/// Adds `s` to a strictly sorted list of owned strings unless it is already there.
pub fn insert_sorted_string(v: &mut Vec<String>, s: String)
    requires
        strictly_sorted(strings_view(old(v)@)),
    ensures
        strictly_sorted(strings_view(final(v)@)),
        strings_view(final(v)@).to_set() == strings_view(old(v)@).to_set().insert(s@),
{
    let ghost old_s = strings_view(v@);
    let mut i: usize = 0;
    while i < v.len() && str_less(v[i].as_str(), s.as_str())
        invariant
            i <= v@.len(),
            v@ == old(v)@,
            old_s == strings_view(v@),
            forall|j: int| 0 <= j < i ==> str_lt(#[trigger] old_s[j], s@),
        decreases v@.len() - i,
    {
        i = i + 1;
    }
    if i < v.len() && str_eq(v[i].as_str(), s.as_str()) {
        assert(old_s.to_set().insert(s@) =~= old_s.to_set()) by {
            assert(old_s[i as int] == s@);
        }
        return;
    }
    proof {
        lemma_insert_place(old_s, i as int, s@);
        lemma_sorted_insert(old_s, i as int, s@);
    }
    let ghost sv = s@;
    v.insert(i, s);
    assert(strings_view(v@) =~= old_s.insert(i as int, sv));
}

/// `a` orders before `b` or equals it.
pub open spec fn str_le(a: Seq<char>, b: Seq<char>) -> bool {
    !str_lt(b, a)
}

/// The order of strings as a relation.
pub open spec fn str_order() -> spec_fn(Seq<char>, Seq<char>) -> bool {
    |a: Seq<char>, b: Seq<char>| str_le(a, b)
}

/// The order of strings is a total order.
pub proof fn lemma_str_order_total()
    ensures
        total_ordering(str_order()),
{
    assert forall|a: Seq<char>| #[trigger] str_order()(a, a) by {
        lemma_str_lt_irreflexive(a);
    }
    assert forall|a: Seq<char>, b: Seq<char>| #[trigger] str_order()(a, b) && #[trigger] str_order()(
        b,
        a,
    ) implies a == b by {
        lemma_str_lt_total(a, b);
    }
    assert forall|a: Seq<char>, b: Seq<char>, c: Seq<char>| #[trigger] str_order()(a, b)
        && #[trigger] str_order()(b, c) implies str_order()(a, c) by {
        if str_lt(c, a) {
            lemma_str_lt_total(a, b);
            if a == b {
            } else if str_lt(a, b) {
                lemma_str_lt_transitive(c, a, b);
            }
        }
    }
    assert forall|a: Seq<char>, b: Seq<char>| #[trigger] str_order()(a, b) || #[trigger] str_order()(
        b,
        a,
    ) by {
        if str_lt(a, b) {
            lemma_str_lt_asymmetric(a, b);
        }
    }
}

/// Sorts owned strings by the order of `str`.
pub fn sort_strings(v: Vec<String>) -> (r: Vec<String>)
    ensures
        strings_view(r@) == strings_view(v@).sort_by(str_order()),
{
    broadcast use vstd::seq_lib::group_to_multiset_ensures;

    let ghost input = strings_view(v@);
    let mut out: Vec<String> = Vec::new();
    let mut i: usize = 0;
    proof {
        assert(input.take(0) =~= Seq::<Seq<char>>::empty());
        assert(strings_view(out@) =~= Seq::<Seq<char>>::empty());
    }
    while i < v.len()
        invariant
            i <= v@.len(),
            input == strings_view(v@),
            sorted_by(strings_view(out@), str_order()),
            strings_view(out@).to_multiset() == input.take(i as int).to_multiset(),
        decreases v@.len() - i,
    {
        let x = v[i].clone();
        assert(x@ == input[i as int]);
        let ghost o = strings_view(out@);
        let mut k: usize = 0;
        while k < out.len() && !str_less(x.as_str(), out[k].as_str())
            invariant
                k <= out@.len(),
                o == strings_view(out@),
                forall|j: int| 0 <= j < k ==> !str_lt(x@, #[trigger] o[j]),
            decreases out@.len() - k,
        {
            k = k + 1;
        }
        let ghost xv = x@;
        out.insert(k, x);
        let ghost n = strings_view(out@);
        assert(n =~= o.insert(k as int, xv));
        assert forall|a: int, b: int| 0 <= a < b < n.len() implies #[trigger] str_order()(n[a], n[b]) by {
            lemma_str_order_total();
            if b < k {
                assert(n[a] == o[a] && n[b] == o[b]);
                assert(str_order()(o[a], o[b]));
            } else if b == k {
                assert(n[a] == o[a] && n[b] == xv);
                assert(!str_lt(xv, o[a]));
            } else if a < k {
                assert(n[a] == o[a] && n[b] == o[b - 1]);
                assert(str_order()(o[a], o[b - 1]));
            } else if a == k {
                assert(n[a] == xv && n[b] == o[b - 1]);
                assert(str_lt(xv, o[k as int]));
                lemma_str_lt_asymmetric(xv, o[k as int]);
                assert(str_order()(xv, o[k as int]));
                if b - 1 > k {
                    assert(str_order()(o[k as int], o[b - 1]));
                }
            } else {
                assert(n[a] == o[a - 1] && n[b] == o[b - 1]);
                assert(str_order()(o[a - 1], o[b - 1]));
            }
        }
        assert(input.take(i + 1) =~= input.take(i as int).push(xv));
        proof {
            vstd::seq_lib::to_multiset_build(input.take(i as int), xv);
        }
        assert(n.to_multiset() =~= o.to_multiset().insert(xv)) by {
            vstd::seq_lib::to_multiset_insert(o, k as int, xv);
        }
        i = i + 1;
    }
    proof {
        assert(input.take(i as int) =~= input);
        lemma_str_order_total();
        input.lemma_sort_by_ensures(str_order());
        vstd::seq_lib::lemma_sorted_unique(strings_view(out@), input.sort_by(str_order()), str_order());
    }
    out
}

/// Two strictly sorted sequences with the same elements are equal.
pub proof fn lemma_strictly_sorted_unique(a: Seq<Seq<char>>, b: Seq<Seq<char>>)
    requires
        strictly_sorted(a),
        strictly_sorted(b),
        a.to_set() == b.to_set(),
    ensures
        a == b,
    decreases a.len(),
{
    if a.len() == 0 {
        if b.len() > 0 {
            assert(b.to_set().contains(b[0]));
        }
        assert(a =~= b);
    } else {
        assert(a.to_set().contains(a[0]));
        assert(b.len() > 0);
        assert(b.to_set().contains(b[0]));
        let k = choose|k: int| 0 <= k < b.len() && b[k] == a[0];
        let m = choose|m: int| 0 <= m < a.len() && a[m] == b[0];
        if k > 0 {
            if m == 0 {
                lemma_str_lt_irreflexive(a[0]);
            } else {
                lemma_str_lt_asymmetric(a[0], a[m]);
            }
        }
        let a2 = a.drop_first();
        let b2 = b.drop_first();
        assert forall|x: Seq<char>| a2.to_set().contains(x) <==> b2.to_set().contains(x) by {
            if a2.contains(x) {
                let i = choose|i: int| 0 <= i < a2.len() && a2[i] == x;
                assert(a[i + 1] == x);
                assert(b.to_set().contains(x));
                let j = choose|j: int| 0 <= j < b.len() && b[j] == x;
                if j == 0 {
                    lemma_str_lt_irreflexive(a[0]);
                }
                assert(b2[j - 1] == x);
            }
            if b2.contains(x) {
                let i = choose|i: int| 0 <= i < b2.len() && b2[i] == x;
                assert(b[i + 1] == x);
                assert(a.to_set().contains(x));
                let j = choose|j: int| 0 <= j < a.len() && a[j] == x;
                if j == 0 {
                    lemma_str_lt_irreflexive(b[0]);
                }
                assert(a2[j - 1] == x);
            }
        }
        assert(a2.to_set() =~= b2.to_set());
        lemma_strictly_sorted_unique(a2, b2);
        assert(a =~= seq![a[0]] + a2);
        assert(b =~= seq![b[0]] + b2);
    }
}

/// The strictly sorted sequence of the elements of `s`.
pub open spec fn sorted_set(s: Set<Seq<char>>) -> Seq<Seq<char>> {
    choose|r: Seq<Seq<char>>| strictly_sorted(r) && r.to_set() == s
}

/// A strictly sorted sequence is the sorted sequence of its elements.
pub proof fn lemma_sorted_set(r: Seq<Seq<char>>)
    requires
        strictly_sorted(r),
    ensures
        sorted_set(r.to_set()) == r,
{
    let c = sorted_set(r.to_set());
    assert(strictly_sorted(c) && c.to_set() == r.to_set());
    lemma_strictly_sorted_unique(c, r);
}

} // verus!
