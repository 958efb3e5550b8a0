//! Lexicographic order on character sequences and the sorts built on it.

use vstd::prelude::*;
use vstd::relations::*;
use vstd::seq_lib::*;
use crate::json::string_views;
use crate::text::{chars_of, string_of};

verus! {

broadcast use vstd::seq_lib::group_to_multiset_ensures;

/// Lexicographic order by code point (the order of `str`'s `Ord`).
pub open spec fn lex_le(a: Seq<char>, b: Seq<char>) -> bool
    decreases a.len(),
{
    if a.len() == 0 {
        true
    } else if b.len() == 0 {
        false
    } else if a[0] != b[0] {
        a[0] < b[0]
    } else {
        lex_le(a.drop_first(), b.drop_first())
    }
}

/// Strictly before in the lexicographic order.
pub open spec fn lex_lt(a: Seq<char>, b: Seq<char>) -> bool {
    lex_le(a, b) && a != b
}

/// The order as a relation value, for `sort_by` and `sorted_by`.
pub open spec fn lex_order() -> spec_fn(Seq<char>, Seq<char>) -> bool {
    |a: Seq<char>, b: Seq<char>| lex_le(a, b)
}

/// Every text precedes or equals itself.
pub proof fn lemma_lex_reflexive(a: Seq<char>)
    ensures
        lex_le(a, a),
    decreases a.len(),
{
    if a.len() > 0 {
        lemma_lex_reflexive(a.drop_first());
    }
}

/// Two texts that precede each other are equal.
pub proof fn lemma_lex_antisymmetric(a: Seq<char>, b: Seq<char>)
    requires
        lex_le(a, b),
        lex_le(b, a),
    ensures
        a == b,
    decreases a.len(),
{
    if a.len() > 0 && b.len() > 0 {
        if a[0] == b[0] {
            lemma_lex_antisymmetric(a.drop_first(), b.drop_first());
            assert(a =~= seq![a[0]] + a.drop_first());
            assert(b =~= seq![b[0]] + b.drop_first());
        } else {

        }
    } else {
        assert(a.len() == 0 && b.len() == 0);
        assert(a =~= b);
    }
}

/// The order is transitive.
pub proof fn lemma_lex_transitive(a: Seq<char>, b: Seq<char>, c: Seq<char>)
    requires
        lex_le(a, b),
        lex_le(b, c),
    ensures
        lex_le(a, c),
    decreases a.len(),
{
    if a.len() > 0 && b.len() > 0 && c.len() > 0 {
        if a[0] == b[0] && b[0] == c[0] {
            lemma_lex_transitive(a.drop_first(), b.drop_first(), c.drop_first());
        }
    }
}

/// Any two texts are comparable.
pub proof fn lemma_lex_total(a: Seq<char>, b: Seq<char>)
    ensures
        lex_le(a, b) || lex_le(b, a),
    decreases a.len(),
{
    if a.len() > 0 && b.len() > 0 {
        if a[0] == b[0] {
            lemma_lex_total(a.drop_first(), b.drop_first());
        } else {

        }
    }
}

/// The code-point lexicographic order is a total order.
pub proof fn lemma_lex_total_ordering()
    ensures
        total_ordering(lex_order()),
{
    assert forall|x: Seq<char>| #[trigger] lex_order()(x, x) by {
        lemma_lex_reflexive(x);
    }
    assert forall|x: Seq<char>, y: Seq<char>| #[trigger]
        lex_order()(x, y) && #[trigger] lex_order()(y, x) implies x == y by {
        lemma_lex_antisymmetric(x, y);
    }
    assert forall|x: Seq<char>, y: Seq<char>, z: Seq<char>| #[trigger]
        lex_order()(x, y) && #[trigger] lex_order()(y, z) implies lex_order()(x, z) by {
        lemma_lex_transitive(x, y, z);
    }
    assert forall|x: Seq<char>, y: Seq<char>| #[trigger]
        lex_order()(x, y) || #[trigger] lex_order()(y, x) by {
        lemma_lex_total(x, y);
    }
}

proof fn lemma_lex_skip(a: Seq<char>, b: Seq<char>, i: int)
    requires
        0 <= i <= a.len(),
        i <= b.len(),
        a.take(i) == b.take(i),
    ensures
        lex_le(a, b) == lex_le(a.skip(i), b.skip(i)),
    decreases i,
{
    if i > 0 {
        assert(a[0] == a.take(i)[0]);
        assert(b[0] == b.take(i)[0]);
        assert(a.drop_first().take(i - 1) =~= a.take(i).drop_first());
        assert(b.drop_first().take(i - 1) =~= b.take(i).drop_first());
        lemma_lex_skip(a.drop_first(), b.drop_first(), i - 1);
        assert(a.drop_first().skip(i - 1) =~= a.skip(i));
        assert(b.drop_first().skip(i - 1) =~= b.skip(i));
    } else {
        assert(a.skip(0) =~= a);
        assert(b.skip(0) =~= b);
    }
}

/// Decides `lex_le`.
pub fn lex_le_exec(a: &Vec<char>, b: &Vec<char>) -> (r: bool)
    ensures
        r == lex_le(a@, b@),
{
    let mut i: usize = 0;
    assert(a@.skip(0) =~= a@);
    assert(b@.skip(0) =~= b@);
    while i < a.len() && i < b.len()
        invariant
            i <= a.len(),
            i <= b.len(),
            a@.take(i as int) == b@.take(i as int),
            lex_le(a@, b@) == lex_le(a@.skip(i as int), b@.skip(i as int)),
        decreases a.len() - i,
    {
        if a[i] != b[i] {
            assert(a@.skip(i as int)[0] == a@[i as int]);
            assert(b@.skip(i as int)[0] == b@[i as int]);
            return a[i] < b[i];
        }
        proof {
            assert(a@.take(i + 1) =~= a@.take(i as int).push(a@[i as int]));
            assert(b@.take(i + 1) =~= b@.take(i as int).push(b@[i as int]));
            lemma_lex_skip(a@, b@, i + 1);
        }
        i += 1;
    }
    i == a.len()
}

/// The character-sequence views of a vector of character vectors.
pub open spec fn views(v: Seq<Vec<char>>) -> Seq<Seq<char>> {
    Seq::new(v.len(), |i: int| v[i]@)
}

/// Sorts character sequences (`sort` / `sort_unstable` on strings).
pub fn sort_chars(v: Vec<Vec<char>>) -> (r: Vec<Vec<char>>)
    ensures
        views(r@) == views(v@).sort_by(lex_order()),
        sorted_by(views(r@), lex_order()),
        views(r@).to_multiset() == views(v@).to_multiset(),
{
    let mut r: Vec<Vec<char>> = Vec::new();
    let mut i: usize = 0;
    proof {
        lemma_lex_total_ordering();
    }
    while i < v.len()
        invariant
            i <= v.len(),
            total_ordering(lex_order()),
            sorted_by(views(r@), lex_order()),
            views(r@).to_multiset() == views(v@.take(i as int)).to_multiset(),
        decreases v.len() - i,
    {
        let x = v[i].clone();
        assert(x@ == v@[i as int]@);
        let mut j: usize = 0;
        while j < r.len() && lex_le_exec(&r[j], &x)
            invariant
                j <= r.len(),
                forall|k: int| 0 <= k < j ==> lex_le(r@[k]@, x@),
            decreases r.len() - j,
        {
            j += 1;
        }
        let ghost old_r = views(r@);
        r.insert(j, x);
        proof {
            assert(views(r@) =~= old_r.insert(j as int, x@));
            to_multiset_insert(old_r, j as int, x@);
            assert(views(v@.take(i + 1)) =~= views(v@.take(i as int)).push(x@));
            assert forall|a: int, b: int| 0 <= a < b < views(r@).len() implies #[trigger]
                lex_order()(views(r@)[a], views(r@)[b]) by {
                if a < j && b == j {
                } else if a == j && b > j {
                    let y = old_r[b - 1];
                    if j < old_r.len() {
                        assert(!lex_le(old_r[j as int], x@));
                        assert(lex_le(x@, old_r[j as int])) by {
                            lemma_lex_total(x@, old_r[j as int]);
                        }
                        if b - 1 > j {
                            assert(lex_order()(old_r[j as int], old_r[b - 1]));
                            lemma_lex_transitive(x@, old_r[j as int], y);
                        }
                    }
                } else if a < j && b > j {
                    assert(lex_order()(old_r[a], old_r[b - 1]));
                } else if a > j {
                    assert(lex_order()(old_r[a - 1], old_r[b - 1]));
                }
            }
        }
        i += 1;
    }
    proof {
        assert(v@.take(v.len() as int) =~= v@);
        views(v@).lemma_sort_by_ensures(lex_order());
        lemma_sorted_unique(views(r@), views(v@).sort_by(lex_order()), lex_order());
    }
    r
}


/// Removes adjacent repetitions (`Vec::dedup`).
pub open spec fn dedup_adjacent(s: Seq<Seq<char>>) -> Seq<Seq<char>>
    decreases s.len(),
{
    if s.len() <= 1 {
        s
    } else {
        let d = dedup_adjacent(s.drop_last());
        if s.last() == s[s.len() - 2] {
            d
        } else {
            d.push(s.last())
        }
    }
}

/// Sorted and without repetitions (`sort` followed by `dedup`).
pub open spec fn sort_unique(s: Seq<Seq<char>>) -> Seq<Seq<char>> {
    dedup_adjacent(s.sort_by(lex_order()))
}

proof fn lemma_dedup_last(s: Seq<Seq<char>>)
    requires
        s.len() > 0,
    ensures
        dedup_adjacent(s).len() > 0,
        dedup_adjacent(s).last() == s.last(),
    decreases s.len(),
{
    if s.len() > 1 {
        lemma_dedup_last(s.drop_last());
    }
}

/// Removing adjacent repetitions from a sorted list leaves a strictly
/// ascending list with the same members.
proof fn lemma_dedup_sorted(s: Seq<Seq<char>>)
    requires
        sorted_by(s, lex_order()),
    ensures
        forall|a: int, b: int| 0 <= a < b < dedup_adjacent(s).len()
            ==> lex_lt(#[trigger] dedup_adjacent(s)[a], #[trigger] dedup_adjacent(s)[b]),
        forall|x: Seq<char>| dedup_adjacent(s).contains(x) <==> s.contains(x),
    decreases s.len(),
{
    if s.len() <= 1 {
    } else {
        let n = s.len();
        let init = s.drop_last();
        assert forall|i: int, j: int| 0 <= i < j < init.len() implies #[trigger] lex_order()(init[i], init[j]) by {
            assert(lex_order()(s[i], s[j]));
        }
        lemma_dedup_sorted(init);
        lemma_dedup_last(init);
        let d0 = dedup_adjacent(init);
        let d = dedup_adjacent(s);
        assert(init.last() == s[n - 2]);
        assert forall|x: Seq<char>| s.contains(x) <==> (init.contains(x) || x == s.last()) by {
            if s.contains(x) {
                let k = choose|k: int| 0 <= k < s.len() && s[k] == x;
                if k < n - 1 {
                    assert(init[k] == x);
                }
            }
            if init.contains(x) {
                let k = choose|k: int| 0 <= k < init.len() && init[k] == x;
                assert(s[k] == x);
            }
            if x == s.last() {
                assert(s[n - 1] == x);
            }
        }
        if s.last() == s[n - 2] {
            assert(d == d0);
            assert(init.contains(init[n - 2]));
        } else {
            assert(d == d0.push(s.last()));
            assert(lex_order()(s[n - 2], s[n - 1]));
            assert forall|a: int, b: int| 0 <= a < b < d.len() implies lex_lt(#[trigger] d[a], #[trigger] d[b]) by {
                if b < d0.len() {
                    assert(d[a] == d0[a] && d[b] == d0[b]);
                } else {
                    assert(d[a] == d0[a]);
                    assert(d[b] == s.last());
                    assert(d0.contains(d0[a]));
                    assert(init.contains(d0[a]));
                    let k = choose|k: int| 0 <= k < init.len() && init[k] == d0[a];
                    assert(s[k] == init[k]);
                    assert(lex_order()(s[k], s[n - 1]));
                    assert(lex_le(d0[a], s.last()));
                    if d0[a] == s.last() {
                        if a < d0.len() - 1 {
                            assert(lex_lt(d0[a], d0[d0.len() - 1]));
                            lemma_lex_antisymmetric(s[n - 2], s[n - 1]);
                        }
                    }
                }
            }
            assert forall|x: Seq<char>| d.contains(x) <==> s.contains(x) by {
                if d.contains(x) {
                    let k = choose|k: int| 0 <= k < d.len() && d[k] == x;
                    if k < d0.len() {
                        assert(d0[k] == x);
                        assert(d0.contains(x));
                    }
                }
                if d0.contains(x) {
                    let k = choose|k: int| 0 <= k < d0.len() && d0[k] == x;
                    assert(d[k] == x);
                }
                if x == s.last() {
                    assert(d[d.len() - 1] == x);
                }
            }
        }
    }
}

/// A sorted-and-unique list is strictly ascending and holds exactly the
/// members of the list it was made from.
pub proof fn lemma_sort_unique_ascending(s: Seq<Seq<char>>)
    ensures
        forall|a: int, b: int| 0 <= a < b < sort_unique(s).len()
            ==> lex_lt(#[trigger] sort_unique(s)[a], #[trigger] sort_unique(s)[b]),
        forall|x: Seq<char>| sort_unique(s).contains(x) <==> s.contains(x),
{
    lemma_lex_total_ordering();
    s.lemma_sort_by_ensures(lex_order());
    let t = s.sort_by(lex_order());
    lemma_dedup_sorted(t);
    assert forall|x: Seq<char>| t.contains(x) <==> s.contains(x) by {
        if s.contains(x) {
            assert(s.to_multiset().count(x) > 0);
            assert(t.to_multiset().count(x) > 0);
        }
    }
}

/// Sorts and removes repeated character sequences.
pub fn sort_unique_chars(v: Vec<Vec<char>>) -> (r: Vec<Vec<char>>)
    ensures
        views(r@) == sort_unique(views(v@)),
{
    let sorted = sort_chars(v);
    let ghost s = views(sorted@);
    let mut r: Vec<Vec<char>> = Vec::new();
    let mut i: usize = 0;
    while i < sorted.len()
        invariant
            i <= sorted.len(),
            s == views(sorted@),
            views(r@) == dedup_adjacent(s.take(i as int)),
        decreases sorted.len() - i,
    {
        let x = sorted[i].clone();
        assert(x@ == s[i as int]);
        proof {
            assert(s.take(i + 1).drop_last() =~= s.take(i as int));
        }
        if i == 0 {
            r.push(x);
            assert(views(r@) =~= seq![s[0]]);
            assert(s.take(1) =~= seq![s[0]]);
        } else {
            proof {
                lemma_dedup_last(s.take(i as int));
            }
            let same = crate::text::chars_eq(&sorted[i - 1], &x);
            let ghost before = views(r@);
            if !same {
                r.push(x);
                assert(views(r@) =~= before.push(x@));
            }
        }
        i += 1;
    }
    assert(s.take(sorted.len() as int) =~= s);
    r
}

/// Sorts and removes repeated strings (`sort` followed by `dedup` on `Vec<String>`).
pub fn sort_unique_strings(v: Vec<String>) -> (r: Vec<String>)
    ensures
        string_views(r@) == sort_unique(string_views(v@)),
{
    let mut chars: Vec<Vec<char>> = Vec::new();
    let mut i: usize = 0;
    while i < v.len()
        invariant
            i <= v.len(),
            views(chars@) == string_views(v@).take(i as int),
        decreases v.len() - i,
    {
        let c = chars_of(v[i].as_str());
        let ghost prev = chars@;
        chars.push(c);
        assert(views(chars@) =~= views(prev).push(v@[i as int]@));
        i += 1;
        assert(views(chars@) =~= string_views(v@).take(i as int));
    }
    assert(string_views(v@).take(v.len() as int) =~= string_views(v@));
    let sorted = sort_unique_chars(chars);
    let mut r: Vec<String> = Vec::new();
    let mut j: usize = 0;
    while j < sorted.len()
        invariant
            j <= sorted.len(),
            string_views(r@) == views(sorted@).take(j as int),
        decreases sorted.len() - j,
    {
        let s = string_of(&sorted[j]);
        let ghost prev = r@;
        r.push(s);
        assert(string_views(r@) =~= string_views(prev).push(sorted@[j as int]@));
        j += 1;
        assert(string_views(r@) =~= views(sorted@).take(j as int));
    }
    assert(views(sorted@).take(sorted.len() as int) =~= views(sorted@));
    r
}

} // verus!
