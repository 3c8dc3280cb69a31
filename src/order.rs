//! Lexicographic order on strings, by code point, and sorting by it.
use vstd::prelude::*;

verus! {

/// `a` comes strictly before `b`: at the first position where they differ
/// `a` has the smaller code point, or `a` is a proper prefix of `b`.
/// This is the order of `str`'s `Ord`, since UTF-8 keeps code point order.
pub open spec fn lex_lt(a: Seq<char>, b: Seq<char>) -> bool
    decreases a.len(),
{
    if a.len() == 0 {
        b.len() > 0
    } else if b.len() == 0 {
        false
    } else if a[0] != b[0] {
        (a[0] as int) < (b[0] as int)
    } else {
        lex_lt(a.drop_first(), b.drop_first())
    }
}

/// `a` comes before `b` or is `b`.
pub open spec fn lex_le(a: Seq<char>, b: Seq<char>) -> bool {
    a == b || lex_lt(a, b)
}

/// Every element is at most every later one.
pub open spec fn sorted(s: Seq<Seq<char>>) -> bool {
    forall|i: int, j: int| 0 <= i < j < s.len() ==> lex_le(#[trigger] s[i], #[trigger] s[j])
}

/// No string comes before itself.
pub proof fn lemma_lex_irreflexive(a: Seq<char>)
    ensures
        !lex_lt(a, a),
    decreases a.len(),
{
    if a.len() > 0 {
        lemma_lex_irreflexive(a.drop_first());
    }
}

/// Of two different strings one comes before the other.
pub proof fn lemma_lex_total(a: Seq<char>, b: Seq<char>)
    ensures
        a == b || lex_lt(a, b) || lex_lt(b, a),
    decreases a.len(),
{
    if a.len() == 0 && b.len() == 0 {
        assert(a =~= b);
    } else if a.len() > 0 && b.len() > 0 && a[0] != b[0] {
        assert((a[0] as int) != (b[0] as int));
    } else if a.len() > 0 && b.len() > 0 {
        lemma_lex_total(a.drop_first(), b.drop_first());
        if a.drop_first() == b.drop_first() {
            assert(a =~= seq![a[0]] + a.drop_first());
            assert(b =~= seq![b[0]] + b.drop_first());
        }
    }
}

/// The order is transitive.
pub proof fn lemma_lex_transitive(a: Seq<char>, b: Seq<char>, c: Seq<char>)
    requires
        lex_lt(a, b),
        lex_lt(b, c),
    ensures
        lex_lt(a, c),
    decreases a.len(),
{
    if a.len() > 0 && b.len() > 0 && c.len() > 0 && a[0] == b[0] && b[0] == c[0] {
        lemma_lex_transitive(a.drop_first(), b.drop_first(), c.drop_first());
    }
}

/// Transitivity, allowing equal strings.
pub proof fn lemma_le_transitive(a: Seq<char>, b: Seq<char>, c: Seq<char>)
    requires
        lex_le(a, b),
        lex_le(b, c),
    ensures
        lex_le(a, c),
{
    if lex_lt(a, b) && lex_lt(b, c) {
        lemma_lex_transitive(a, b, c);
    }
}

/// Before, then before or equal, is before.
pub proof fn lemma_lt_le_transitive(a: Seq<char>, b: Seq<char>, c: Seq<char>)
    requires
        lex_lt(a, b),
        lex_le(b, c),
    ensures
        lex_lt(a, c),
{
    if lex_lt(b, c) {
        lemma_lex_transitive(a, b, c);
    }
}

/// Whether `a` comes strictly before `b`.
pub fn str_lt(a: &str, b: &str) -> (r: bool)
    ensures
        r == lex_lt(a@, b@),
{
    let la = a.unicode_len();
    let lb = b.unicode_len();
    let mut i: usize = 0;
    assert(a@.skip(0) =~= a@);
    assert(b@.skip(0) =~= b@);
    while i < la && i < lb
        invariant
            i <= la,
            i <= lb,
            la == a@.len(),
            lb == b@.len(),
            lex_lt(a@, b@) == lex_lt(a@.skip(i as int), b@.skip(i as int)),
        decreases la - i,
    {
        let ca = a.get_char(i);
        let cb = b.get_char(i);
        if ca != cb {
            return (ca as u32) < (cb as u32);
        }
        assert(a@.skip(i as int).drop_first() =~= a@.skip(i + 1));
        assert(b@.skip(i as int).drop_first() =~= b@.skip(i + 1));
        i = i + 1;
    }
    i == la && i < lb
}

/// Inserting an element adds one occurrence of it and leaves the others.
pub proof fn lemma_insert_to_multiset<A>(s: Seq<A>, k: int, a: A)
    requires
        0 <= k <= s.len(),
    ensures
        s.insert(k, a).to_multiset() =~= s.to_multiset().insert(a),
{
    broadcast use vstd::seq_lib::group_to_multiset_ensures;

    let t = s.insert(k, a);
    assert(t.remove(k) =~= s);
    assert(t[k] == a);
    assert(t.contains(a));
}

/// Taking the last element off leaves the rest of the multiset.
pub proof fn lemma_drop_last_to_multiset<A>(s: Seq<A>)
    requires
        s.len() > 0,
    ensures
        s.to_multiset() =~= s.drop_last().to_multiset().insert(s.last()),
{
    broadcast use vstd::seq_lib::group_to_multiset_ensures;

    assert(s.drop_last().push(s.last()) =~= s);
}

/// Sorts the strings into ascending order, keeping every occurrence.
pub fn sort_strings(v: Vec<String>) -> (r: Vec<String>)
    ensures
        sorted(r.deep_view()),
        r.deep_view().to_multiset() == v.deep_view().to_multiset(),
{
    broadcast use vstd::seq_lib::group_to_multiset_ensures;

    let mut rest = v;
    let mut out: Vec<String> = Vec::new();
    assert(out.deep_view() =~= Seq::<Seq<char>>::empty());
    while rest.len() > 0
        invariant
            sorted(out.deep_view()),
            out.deep_view().to_multiset().add(rest.deep_view().to_multiset())
                =~= v.deep_view().to_multiset(),
        decreases rest.len(),
    {
        let ghost before = rest.deep_view();
        let s = rest.pop().unwrap();
        proof {
            assert(rest.deep_view() =~= before.drop_last());
            lemma_drop_last_to_multiset(before);
        }
        let mut k: usize = 0;
        while k < out.len() && !str_lt(s.as_str(), out[k].as_str())
            invariant
                k <= out.len(),
                forall|i: int| 0 <= i < k ==> lex_le(#[trigger] out.deep_view()[i], s@),
            decreases out.len() - k,
        {
            proof {
                lemma_lex_total(s@, out.deep_view()[k as int]);
            }
            k = k + 1;
        }
        let ghost old_out = out.deep_view();
        out.insert(k, s);
        proof {
            assert(out.deep_view() =~= old_out.insert(k as int, s@));
            lemma_insert_to_multiset(old_out, k as int, s@);
            let d = out.deep_view();
            assert forall|i: int, j: int| 0 <= i < j < d.len() implies lex_le(
                #[trigger] d[i],
                #[trigger] d[j],
            ) by {
                if j == k {
                } else if i == k {
                    assert(lex_lt(s@, old_out[k as int]));
                    assert(lex_le(old_out[k as int], old_out[j - 1]));
                    lemma_lt_le_transitive(s@, old_out[k as int], old_out[j - 1]);
                } else if i < k && j > k {
                    assert(lex_lt(s@, old_out[k as int]));
                    assert(lex_le(old_out[k as int], old_out[j - 1]));
                    lemma_lt_le_transitive(s@, old_out[k as int], old_out[j - 1]);
                    lemma_le_transitive(old_out[i], s@, old_out[j - 1]);
                } else if i > k {
                    assert(lex_le(old_out[i - 1], old_out[j - 1]));
                } else {
                    assert(lex_le(old_out[i], old_out[j]));
                }
            }
        }
    }
    assert(rest.deep_view() =~= Seq::<Seq<char>>::empty());
    out
}

} // verus!
