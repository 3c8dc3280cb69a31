//! Single quoting for a POSIX shell, and how the shell reads quoted text
//! back.
use vstd::prelude::*;

verus! {

/// `s` with every single quote written as `'\''`: close the quoted text,
/// an escaped quote, open it again.
pub open spec fn escape_quotes(s: Seq<char>) -> Seq<char>
    decreases s.len(),
{
    if s.len() == 0 {
        Seq::empty()
    } else {
        (if s[0] == '\'' {
            seq!['\'', '\\', '\'', '\'']
        } else {
            seq![s[0]]
        }) + escape_quotes(s.drop_first())
    }
}

/// `s` in single quotes, as `shell_escape` writes it.
pub open spec fn shell_quoted(s: Seq<char>) -> Seq<char> {
    seq!['\''] + escape_quotes(s) + seq!['\'']
}

/// Characters that a POSIX shell treats specially outside quotes.
pub open spec fn sh_special(c: char) -> bool {
    c == ' ' || c == '\t' || c == '\n' || c == '|' || c == '&' || c == ';' || c == '<' || c
        == '>' || c == '(' || c == ')' || c == '$' || c == '`' || c == '"' || c == '*' || c
        == '?' || c == '[' || c == '#' || c == '~'
}

/// `a` put before what `o` holds.
pub open spec fn prepend(a: Seq<char>, o: Option<Seq<char>>) -> Option<Seq<char>> {
    match o {
        Some(r) => Some(a + r),
        None => None,
    }
}

/// How a POSIX shell reads `w` as one word made of single-quoted text,
/// backslash escapes and plain characters, starting inside single quotes
/// where `quoted` holds. Nothing is read where a quote is left open, a
/// backslash ends the text, or a plain character would be special.
pub open spec fn sh_read(w: Seq<char>, quoted: bool) -> Option<Seq<char>>
    decreases w.len(),
{
    if w.len() == 0 {
        if quoted {
            None
        } else {
            Some(Seq::empty())
        }
    } else if quoted {
        if w[0] == '\'' {
            sh_read(w.drop_first(), false)
        } else {
            prepend(seq![w[0]], sh_read(w.drop_first(), true))
        }
    } else if w[0] == '\'' {
        sh_read(w.drop_first(), true)
    } else if w[0] == '\\' {
        if w.len() < 2 {
            None
        } else {
            prepend(seq![w[1]], sh_read(w.skip(2), false))
        }
    } else if sh_special(w[0]) {
        None
    } else {
        prepend(seq![w[0]], sh_read(w.drop_first(), false))
    }
}

/// Inside single quotes, the escaped text of `s` reads as `s`, and the
/// shell goes on inside quotes after it.
pub proof fn lemma_read_escaped(s: Seq<char>, x: Seq<char>)
    ensures
        sh_read(escape_quotes(s) + x, true) == prepend(s, sh_read(x, true)),
    decreases s.len(),
{
    if s.len() == 0 {
        assert(escape_quotes(s) + x =~= x);
        match sh_read(x, true) {
            Some(r) => assert(s + r =~= r),
            None => {},
        }
    } else {
        let t = s.drop_first();
        lemma_read_escaped(t, x);
        let w = escape_quotes(s) + x;
        if s[0] == '\'' {
            let e = seq!['\'', '\\', '\'', '\''];
            assert(w =~= e + (escape_quotes(t) + x));
            assert(w.drop_first() =~= seq!['\\', '\'', '\''] + (escape_quotes(t) + x));
            assert(w.drop_first().skip(2) =~= seq!['\''] + (escape_quotes(t) + x));
            assert(w.drop_first().skip(2).drop_first() =~= escape_quotes(t) + x);
            let w1 = w.drop_first();
            let w2 = w1.skip(2);
            assert(w[0] == '\'');
            assert(sh_read(w, true) == sh_read(w1, false));
            assert(w1[0] == '\\' && w1[1] == '\'');
            assert(sh_read(w1, false) == prepend(seq!['\''], sh_read(w2, false)));
            assert(w2[0] == '\'');
            assert(sh_read(w2, false) == sh_read(w2.drop_first(), true));
        } else {
            assert(w =~= seq![s[0]] + (escape_quotes(t) + x));
            assert(w.drop_first() =~= escape_quotes(t) + x);
            assert(sh_read(w, true) == prepend(seq![s[0]], sh_read(w.drop_first(), true)));
        }
        match sh_read(x, true) {
            Some(r) => {
                assert(seq![s[0]] + (t + r) =~= s + r);
            },
            None => {},
        }
    }
}

/// Text without single quotes is copied by the escaping as it is.
pub proof fn lemma_escape_plain_prefix(p: Seq<char>, s: Seq<char>)
    requires
        !p.contains('\''),
    ensures
        escape_quotes(p + s) == p + escape_quotes(s),
    decreases p.len(),
{
    if p.len() == 0 {
        assert(p + s =~= s);
        assert(p + escape_quotes(s) =~= escape_quotes(s));
    } else {
        let q = p.drop_first();
        assert(!q.contains('\'')) by {
            if q.contains('\'') {
                let i = choose|i: int| 0 <= i < q.len() && q[i] == '\'';
                assert(p[i + 1] == '\'');
            }
        }
        lemma_escape_plain_prefix(q, s);
        assert((p + s).drop_first() =~= q + s);
        assert(p[0] != '\'');
        assert(p + escape_quotes(s) =~= seq![p[0]] + (q + escape_quotes(s)));
    }
}

/// A quoted text reads back as itself, whatever quotes it holds, and the
/// shell goes on outside quotes after it.
pub proof fn lemma_read_quoted(s: Seq<char>, x: Seq<char>)
    ensures
        sh_read(shell_quoted(s) + x, false) == prepend(s, sh_read(x, false)),
{
    let w = shell_quoted(s) + x;
    assert(w.drop_first() =~= escape_quotes(s) + (seq!['\''] + x));
    lemma_read_escaped(s, seq!['\''] + x);
    assert((seq!['\''] + x).drop_first() =~= x);
}

/// What `shell_escape` writes for `s` is read by the shell as the one word
/// `s`.
pub proof fn lemma_shell_escape_reads_back(s: Seq<char>)
    ensures
        sh_read(shell_quoted(s), false) == Some(s),
{
    lemma_read_quoted(s, Seq::empty());
    assert(shell_quoted(s) + Seq::<char>::empty() =~= shell_quoted(s));
    assert(s + Seq::<char>::empty() =~= s);
}

/// Escaping a concatenation escapes each part.
pub proof fn lemma_escape_concat(a: Seq<char>, b: Seq<char>)
    ensures
        escape_quotes(a + b) == escape_quotes(a) + escape_quotes(b),
    decreases a.len(),
{
    if a.len() == 0 {
        assert(a + b =~= b);
        assert(escape_quotes(a) + escape_quotes(b) =~= escape_quotes(b));
    } else {
        lemma_escape_concat(a.drop_first(), b);
        assert((a + b).drop_first() =~= a.drop_first() + b);
        assert((a + b)[0] == a[0]);
        let h = if a[0] == '\'' {
            seq!['\'', '\\', '\'', '\'']
        } else {
            seq![a[0]]
        };
        assert(h + (escape_quotes(a.drop_first()) + escape_quotes(b)) =~= (h + escape_quotes(
            a.drop_first(),
        )) + escape_quotes(b));
    }
}

/// Text without single quotes is its own escaping.
pub proof fn lemma_escape_plain(p: Seq<char>)
    requires
        !p.contains('\''),
    ensures
        escape_quotes(p) == p,
{
    lemma_escape_plain_prefix(p, Seq::empty());
    assert(p + Seq::<char>::empty() =~= p);
}

/// Writes every single quote of `s` as `'\''`, and copies the rest.
pub fn replace_quotes(s: &str) -> (r: String)
    ensures
        r@ == escape_quotes(s@),
{
    let n = s.unicode_len();
    let mut r = String::new();
    let mut start: usize = 0;
    let mut i: usize = 0;
    assert(s@.take(0) =~= Seq::<char>::empty());
    while i < n
        invariant
            start <= i <= n,
            n == s@.len(),
            r@ == escape_quotes(s@.take(start as int)),
            forall|k: int| start <= k < i ==> s@[k] != '\'',
        decreases n - i,
    {
        if s.get_char(i) == '\'' {
            let plain = s.substring_char(start, i);
            proof {
                assert(!plain@.contains('\'')) by {
                    if plain@.contains('\'') {
                        let k = choose|k: int| 0 <= k < plain@.len() && plain@[k] == '\'';
                        assert(s@[start + k] == '\'');
                    }
                }
                lemma_escape_plain(plain@);
                assert(s@.take(i + 1) =~= s@.take(start as int) + plain@ + seq!['\'']);
                lemma_escape_concat(s@.take(start as int), plain@);
                lemma_escape_concat(s@.take(start as int) + plain@, seq!['\'']);
                let q = seq!['\''];
                assert(q.drop_first() =~= Seq::<char>::empty());
                assert(escape_quotes(q.drop_first()) == Seq::<char>::empty());
                assert(q[0] == '\'');
                assert(escape_quotes(q) =~= seq!['\'', '\\', '\'', '\''] + Seq::<char>::empty());
            }
            r.append(plain);
            r.append("'\\''");
            proof {
                reveal_strlit("'\\''");
                assert(r@ =~= escape_quotes(s@.take(start as int)) + plain@ + seq![
                    '\'',
                    '\\',
                    '\'',
                    '\'',
                ]);
            }
            start = i + 1;
        }
        i = i + 1;
    }
    let plain = s.substring_char(start, n);
    proof {
        assert(!plain@.contains('\'')) by {
            if plain@.contains('\'') {
                let k = choose|k: int| 0 <= k < plain@.len() && plain@[k] == '\'';
                assert(s@[start + k] == '\'');
            }
        }
        lemma_escape_plain(plain@);
        assert(s@ =~= s@.take(start as int) + plain@);
        lemma_escape_concat(s@.take(start as int), plain@);
    }
    r.append(plain);
    r
}

} // verus!
