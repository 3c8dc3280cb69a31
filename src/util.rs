//! Small helpers: the sorted difference of two lists, shell quoting, and
//! splitting and joining text.
use vstd::prelude::*;
use vstd::multiset::Multiset;
use crate::shell::{replace_quotes, shell_quoted};
use crate::order::{
    lex_le, lex_lt, sorted, sort_strings, str_lt, lemma_lex_irreflexive, lemma_lex_total,
    lemma_le_transitive, lemma_lt_le_transitive,
};

verus! {

/// Each element once per occurrence.
pub open spec fn bag(s: Seq<Seq<char>>) -> Multiset<Seq<char>> {
    s.to_multiset()
}

proof fn lemma_take_push(s: Seq<Seq<char>>, i: int)
    requires
        0 <= i < s.len(),
    ensures
        bag(s.take(i + 1)) =~= bag(s.take(i)).insert(s[i]),
{
    broadcast use vstd::seq_lib::group_to_multiset_ensures;

    assert(s.take(i + 1) =~= s.take(i).push(s[i]));
}

proof fn lemma_push_bag(s: Seq<Seq<char>>, a: Seq<char>)
    ensures
        bag(s.push(a)) =~= bag(s).insert(a),
{
    broadcast use vstd::seq_lib::group_to_multiset_ensures;

}

/// `d0` and `d1` are what `set_diff` gives for `l` and `r`: each keeps the
/// surplus occurrences of its side, sorted where both sides hold elements,
/// and both sides are returned as they are where one of them is empty.
pub open spec fn diff_of(
    l: Seq<Seq<char>>,
    r: Seq<Seq<char>>,
    d0: Seq<Seq<char>>,
    d1: Seq<Seq<char>>,
) -> bool {
    &&& l.len() == 0 || r.len() == 0 ==> d0 == l && d1 == r
    &&& l.len() > 0 && r.len() > 0 ==> sorted(d0) && sorted(d1)
    &&& bag(d0) == bag(l).sub(bag(r))
    &&& bag(d1) == bag(r).sub(bag(l))
}

/// On lists without repeated elements the split is the set difference both
/// ways: the first result holds what only `a` holds, the second what only
/// `b` holds, no element is in both, and with what both hold they cover
/// everything in `a` or `b`.
pub proof fn lemma_diff_as_sets(
    a: Seq<Seq<char>>,
    b: Seq<Seq<char>>,
    d0: Seq<Seq<char>>,
    d1: Seq<Seq<char>>,
)
    requires
        a.no_duplicates(),
        b.no_duplicates(),
        diff_of(a, b, d0, d1),
    ensures
        d0.to_set() == a.to_set().difference(b.to_set()),
        d1.to_set() == b.to_set().difference(a.to_set()),
        d0.to_set().disjoint(d1.to_set()),
        a.to_set().union(b.to_set()).subset_of(
            d0.to_set().union(d1.to_set()).union(a.to_set().intersect(b.to_set())),
        ),
{
    broadcast use vstd::seq_lib::group_to_multiset_ensures;

    a.lemma_multiset_has_no_duplicates();
    b.lemma_multiset_has_no_duplicates();
    assert forall|x: Seq<char>| d0.contains(x) <==> a.contains(x) && !b.contains(x) by {
        assert(bag(d0).count(x) > 0 <==> bag(a).count(x) > 0 && bag(b).count(x) == 0);
    }
    assert forall|x: Seq<char>| d1.contains(x) <==> b.contains(x) && !a.contains(x) by {
        assert(bag(d1).count(x) > 0 <==> bag(b).count(x) > 0 && bag(a).count(x) == 0);
    }
    assert(d0.to_set() =~= a.to_set().difference(b.to_set()));
    assert(d1.to_set() =~= b.to_set().difference(a.to_set()));
}

/// Comparing a list with itself leaves nothing on either side.
pub proof fn lemma_diff_with_itself(s: Seq<Seq<char>>, d0: Seq<Seq<char>>, d1: Seq<Seq<char>>)
    requires
        diff_of(s, s, d0, d1),
    ensures
        d0.len() == 0,
        d1.len() == 0,
{
    broadcast use vstd::seq_lib::group_to_multiset_ensures;

    if s.len() > 0 {
        assert(bag(s).sub(bag(s)) =~= Multiset::empty());
        assert(d0.to_multiset().len() == d0.len());
        assert(d1.to_multiset().len() == d1.len());
    }
}

/// Splits two lists into what only the first holds and what only the second
/// holds, counting occurrences: an element that occurs `m` times in `left`
/// and `n` times in `right` is kept `m - n` times in the first result, or
/// `n - m` times in the second. Where both lists hold elements, both results
/// come out sorted; where one is empty, both lists come back unchanged.
pub fn set_diff(left: Vec<String>, right: Vec<String>) -> (r: (Vec<String>, Vec<String>))
    ensures
        diff_of(left.deep_view(), right.deep_view(), r.0.deep_view(), r.1.deep_view()),
{
    broadcast use vstd::seq_lib::group_to_multiset_ensures;

    if left.len() == 0 || right.len() == 0 {
        proof {
            if left.len() == 0 {
                assert(left.deep_view() =~= Seq::<Seq<char>>::empty());
            } else {
                assert(right.deep_view() =~= Seq::<Seq<char>>::empty());
            }
            assert(bag(left.deep_view()).sub(bag(right.deep_view())) =~= bag(left.deep_view()));
            assert(bag(right.deep_view()).sub(bag(left.deep_view())) =~= bag(right.deep_view()));
        }
        return (left, right);
    }
    let ls = sort_strings(left);
    let rs = sort_strings(right);
    let ghost a = ls.deep_view();
    let ghost b = rs.deep_view();
    let mut nl: Vec<String> = Vec::new();
    let mut nr: Vec<String> = Vec::new();
    let mut i: usize = 0;
    let mut j: usize = 0;
    let ghost mut common: Multiset<Seq<char>> = Multiset::empty();
    proof {
        assert(nl.deep_view() =~= Seq::<Seq<char>>::empty());
        assert(nr.deep_view() =~= Seq::<Seq<char>>::empty());
        assert(a.take(0) =~= Seq::<Seq<char>>::empty());
        assert(b.take(0) =~= Seq::<Seq<char>>::empty());
    }
    while i < ls.len() || j < rs.len()
        invariant
            a == ls.deep_view(),
            b == rs.deep_view(),
            sorted(a),
            sorted(b),
            i <= a.len(),
            j <= b.len(),
            bag(nl.deep_view()).add(common) =~= bag(a.take(i as int)),
            bag(nr.deep_view()).add(common) =~= bag(b.take(j as int)),
            sorted(nl.deep_view()),
            sorted(nr.deep_view()),
            forall|k: int|
                0 <= k < nl.len() ==> (i < a.len() ==> lex_le(#[trigger] nl.deep_view()[k], a[i as int]))
                    && (j < b.len() ==> lex_lt(nl.deep_view()[k], b[j as int])),
            forall|k: int|
                0 <= k < nr.len() ==> (i < a.len() ==> lex_lt(#[trigger] nr.deep_view()[k], a[i as int]))
                    && (j < b.len() ==> lex_le(nr.deep_view()[k], b[j as int])),
            forall|p: int, q: int|
                0 <= p < nl.len() && 0 <= q < nr.len() ==> #[trigger] nl.deep_view()[p]
                    != #[trigger] nr.deep_view()[q],
        decreases a.len() - i + b.len() - j,
    {
        let ghost old_nl = nl.deep_view();
        let ghost old_nr = nr.deep_view();
        let take_left = if i < ls.len() && j < rs.len() {
            str_lt(ls[i].as_str(), rs[j].as_str())
        } else {
            i < ls.len()
        };
        let take_right = if i < ls.len() && j < rs.len() {
            str_lt(rs[j].as_str(), ls[i].as_str())
        } else {
            j < rs.len()
        };
        if take_left {
            let ghost x = a[i as int];
            nl.push(ls[i].clone());
            proof {
                assert(nl.deep_view() =~= old_nl.push(x));
                lemma_push_bag(old_nl, x);
                lemma_take_push(a, i as int);
                assert forall|k: int| 0 <= k < nl.len() implies (i + 1 < a.len() ==> lex_le(
                    #[trigger] nl.deep_view()[k],
                    a[i + 1],
                )) && (j < b.len() ==> lex_lt(nl.deep_view()[k], b[j as int])) by {
                    if i + 1 < a.len() {
                        assert(lex_le(a[i as int], a[i + 1]));
                        lemma_le_transitive(nl.deep_view()[k], a[i as int], a[i + 1]);
                    }
                }
                assert forall|k: int| 0 <= k < nr.len() && i + 1 < a.len() implies lex_lt(
                    #[trigger] nr.deep_view()[k],
                    a[i + 1],
                ) by {
                    assert(lex_le(a[i as int], a[i + 1]));
                    lemma_lt_le_transitive(nr.deep_view()[k], a[i as int], a[i + 1]);
                }
                assert forall|p: int, q: int|
                    0 <= p < nl.len() && 0 <= q < nr.len() implies #[trigger] nl.deep_view()[p]
                    != #[trigger] nr.deep_view()[q] by {
                    if p == old_nl.len() {
                        lemma_lex_irreflexive(x);
                    }
                }
            }
            i = i + 1;
        } else if take_right {
            let ghost y = b[j as int];
            nr.push(rs[j].clone());
            proof {
                assert(nr.deep_view() =~= old_nr.push(y));
                lemma_push_bag(old_nr, y);
                lemma_take_push(b, j as int);
                assert forall|k: int| 0 <= k < nr.len() implies (j + 1 < b.len() ==> lex_le(
                    #[trigger] nr.deep_view()[k],
                    b[j + 1],
                )) && (i < a.len() ==> lex_lt(nr.deep_view()[k], a[i as int])) by {
                    if j + 1 < b.len() {
                        assert(lex_le(b[j as int], b[j + 1]));
                        lemma_le_transitive(nr.deep_view()[k], b[j as int], b[j + 1]);
                    }
                }
                assert forall|k: int| 0 <= k < nl.len() && j + 1 < b.len() implies lex_lt(
                    #[trigger] nl.deep_view()[k],
                    b[j + 1],
                ) by {
                    assert(lex_le(b[j as int], b[j + 1]));
                    lemma_lt_le_transitive(nl.deep_view()[k], b[j as int], b[j + 1]);
                }
                assert forall|p: int, q: int|
                    0 <= p < nl.len() && 0 <= q < nr.len() implies #[trigger] nl.deep_view()[p]
                    != #[trigger] nr.deep_view()[q] by {
                    if q == old_nr.len() {
                        lemma_lex_irreflexive(y);
                    }
                }
            }
            j = j + 1;
        } else {
            proof {
                lemma_lex_total(a[i as int], b[j as int]);
                lemma_take_push(a, i as int);
                lemma_take_push(b, j as int);
                let x = a[i as int];
                assert forall|k: int| 0 <= k < nl.len() implies (i + 1 < a.len() ==> lex_le(
                    #[trigger] nl.deep_view()[k],
                    a[i + 1],
                )) && (j + 1 < b.len() ==> lex_lt(nl.deep_view()[k], b[j + 1])) by {
                    if i + 1 < a.len() {
                        assert(lex_le(a[i as int], a[i + 1]));
                        lemma_le_transitive(nl.deep_view()[k], a[i as int], a[i + 1]);
                    }
                    if j + 1 < b.len() {
                        assert(lex_le(b[j as int], b[j + 1]));
                        lemma_lt_le_transitive(nl.deep_view()[k], b[j as int], b[j + 1]);
                    }
                }
                assert forall|k: int| 0 <= k < nr.len() implies (i + 1 < a.len() ==> lex_lt(
                    #[trigger] nr.deep_view()[k],
                    a[i + 1],
                )) && (j + 1 < b.len() ==> lex_le(nr.deep_view()[k], b[j + 1])) by {
                    if i + 1 < a.len() {
                        assert(lex_le(a[i as int], a[i + 1]));
                        lemma_lt_le_transitive(nr.deep_view()[k], a[i as int], a[i + 1]);
                    }
                    if j + 1 < b.len() {
                        assert(lex_le(b[j as int], b[j + 1]));
                        lemma_le_transitive(nr.deep_view()[k], b[j as int], b[j + 1]);
                    }
                }
                common = common.insert(x);
            }
            i = i + 1;
            j = j + 1;
        }
    }
    proof {
        assert(a.take(a.len() as int) =~= a);
        assert(b.take(b.len() as int) =~= b);
        let dl = nl.deep_view();
        let dr = nr.deep_view();
        assert forall|x: Seq<char>| #[trigger] bag(dl).count(x) == 0 || bag(dr).count(x) == 0 by {
            if bag(dl).count(x) > 0 && bag(dr).count(x) > 0 {
                let p = dl.index_of(x);
                let q = dr.index_of(x);
                assert(dl.contains(x));
                assert(dr.contains(x));
                assert(dl[p] != dr[q]);
            }
        }
        assert(bag(dl) =~= bag(a).sub(bag(b)));
        assert(bag(dr) =~= bag(b).sub(bag(a)));
    }
    (nl, nr)
}


/// Whether `s` begins with `p`.
pub fn starts_with(s: &str, p: &str) -> (r: bool)
    ensures
        r == p@.is_prefix_of(s@),
{
    let ls = s.unicode_len();
    let lp = p.unicode_len();
    if lp > ls {
        return false;
    }
    let mut i: usize = 0;
    while i < lp
        invariant
            i <= lp <= ls,
            ls == s@.len(),
            lp == p@.len(),
            forall|k: int| 0 <= k < i ==> s@[k] == p@[k],
        decreases lp - i,
    {
        if s.get_char(i) != p.get_char(i) {
            return false;
        }
        i = i + 1;
    }
    assert(p@ =~= s@.subrange(0, p@.len() as int));
    true
}


/// Single quotes a string for the shell.
pub fn shell_escape(s: &str) -> (r: String)
    ensures
        r@ == shell_quoted(s@),
{
    let q = replace_quotes(s);
    let mut r = String::from_str("'");
    r.append(q.as_str());
    r.append("'");
    proof {
        reveal_strlit("'");
    }
    r
}

/// Whether two strings are the same text.
pub fn same_text(a: &str, b: &str) -> (r: bool)
    ensures
        r == (a@ == b@),
{
    let r = a.unicode_len() == b.unicode_len() && starts_with(a, b);
    proof {
        if a@.len() == b@.len() && b@.is_prefix_of(a@) {
            assert(a@ =~= b@);
        }
    }
    r
}

/// The strings joined with single spaces.
pub open spec fn join_spaces(v: Seq<Seq<char>>) -> Seq<char>
    decreases v.len(),
{
    if v.len() == 0 {
        Seq::empty()
    } else if v.len() == 1 {
        v[0]
    } else {
        join_spaces(v.drop_last()) + " "@ + v.last()
    }
}

/// Joins the strings with single spaces.
pub fn join_with_spaces(v: &[String]) -> (r: String)
    ensures
        r@ == join_spaces(v@.map_values(|s: String| s@)),
{
    let ghost d = v@.map_values(|s: String| s@);
    let mut r = String::new();
    let mut i: usize = 0;
    assert(d.take(0) =~= Seq::<Seq<char>>::empty());
    while i < v.len()
        invariant
            i <= v.len(),
            d == v@.map_values(|s: String| s@),
            r@ == join_spaces(d.take(i as int)),
        decreases v.len() - i,
    {
        if i > 0 {
            r.append(" ");
        }
        r.append(v[i].as_str());
        proof {
            let t = d.take(i + 1);
            assert(t.drop_last() =~= d.take(i as int));
            if i == 0 {
                assert(t =~= seq![d[0]]);
                assert(r@ =~= d[0]);
            } else {
                assert(r@ =~= join_spaces(t.drop_last()) + " "@ + t.last());
            }
        }
        i = i + 1;
    }
    assert(d.take(d.len() as int) =~= d);
    r
}

/// `t` cut at every line feed, as `str::split('\n')` cuts it: what follows
/// the last line feed is the last piece, even when empty.
pub open spec fn split_nl(t: Seq<char>) -> Seq<Seq<char>>
    decreases t.len(),
{
    if t.len() == 0 {
        seq![Seq::empty()]
    } else {
        let rest = split_nl(t.drop_last());
        if t.last() == '\n' {
            rest.push(Seq::empty())
        } else {
            rest.update(rest.len() - 1, rest.last().push(t.last()))
        }
    }
}

/// Cuts the text at every line feed.
pub fn split_lines(t: &str) -> (r: Vec<String>)
    ensures
        r.deep_view() == split_nl(t@),
{
    let n = t.unicode_len();
    let mut r: Vec<String> = Vec::new();
    let mut start: usize = 0;
    let mut i: usize = 0;
    assert(t@.take(0) =~= Seq::<char>::empty());
    assert(r.deep_view().push(t@.subrange(0, 0)) =~= split_nl(t@.take(0)));
    while i < n
        invariant
            start <= i <= n,
            n == t@.len(),
            r.deep_view().push(t@.subrange(start as int, i as int)) == split_nl(t@.take(i as int)),
        decreases n - i,
    {
        let ghost piece = t@.subrange(start as int, i as int);
        let ghost before = r.deep_view();
        assert(t@.take(i + 1).drop_last() =~= t@.take(i as int));
        assert(t@.take(i + 1).last() == t@[i as int]);
        if t.get_char(i) == '\n' {
            let s = String::from_str(t.substring_char(start, i));
            r.push(s);
            start = i + 1;
            assert(r.deep_view() =~= before.push(piece));
            assert(t@.subrange(start as int, i + 1) =~= Seq::<char>::empty());
            assert(split_nl(t@.take(i + 1)) == split_nl(t@.take(i as int)).push(Seq::empty()));
            assert(r.deep_view().push(t@.subrange(start as int, i + 1)) =~= split_nl(
                t@.take(i + 1),
            ));
        } else {
            assert(t@.subrange(start as int, i + 1) =~= piece.push(t@[i as int]));
            assert(r.deep_view().push(t@.subrange(start as int, i + 1)) =~= before.push(
                piece,
            ).update(before.len() as int, piece.push(t@[i as int])));
        }
        i = i + 1;
    }
    let s = String::from_str(t.substring_char(start, n));
    r.push(s);
    assert(t@.take(n as int) =~= t@);
    r
}

} // verus!
