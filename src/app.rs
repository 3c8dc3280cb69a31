//! Reconciling the previous aliases with the configured ones, and what the
//! user is told after the aliases file is rewritten.
use vstd::prelude::*;
use crate::alias::ra::{self, read_message};
use crate::alias::wa::{self, write_message};
use crate::config::FullConfig;
use crate::exitcode::{self, ExitCode};
use crate::slang::{Metadata, Split2};
use crate::util::{diff_of, lemma_diff_with_itself, set_diff, split_lines, split_nl};

verus! {

/// Computes which aliases were dropped from the configuration and which are
/// new. Without a previous list there is nothing to compare with, and both
/// results are absent.
pub fn reconcile(previous: Option<Vec<String>>, current: &Vec<String>) -> (r: (
    Option<Vec<String>>,
    Option<Vec<String>>,
))
    ensures
        previous is None ==> r.0 is None && r.1 is None,
        previous matches Some(p) ==> r.0 matches Some(d) && r.1 matches Some(a) && diff_of(
            p.deep_view(),
            current.deep_view(),
            d.deep_view(),
            a.deep_view(),
        ),
{
    let diff = match previous {
        Some(p) => {
            let c = current.clone();
            assert(c.deep_view() =~= current.deep_view());
            Some(set_diff(p, c))
        },
        None => None,
    };
    diff.split2()
}

/// The names in single quotes, separated by spaces: `'a' 'b'`.
pub open spec fn quoted_list(v: Seq<Seq<char>>) -> Seq<char>
    decreases v.len(),
{
    if v.len() == 0 {
        Seq::empty()
    } else if v.len() == 1 {
        "'"@ + v[0] + "'"@
    } else {
        quoted_list(v.drop_last()) + " '"@ + v.last() + "'"@
    }
}

/// The list of names, if there is one.
pub open spec fn names(o: Option<Vec<String>>) -> Option<Seq<Seq<char>>> {
    match o {
        Some(v) => Some(v.deep_view()),
        None => None,
    }
}

/// The notice that the file at `file` was written; it says "new" where
/// aliases were added.
pub open spec fn written_notice(new: bool, file: Seq<char>) -> Seq<char> {
    if new {
        "New aliases written to '"@ + file + "'"@
    } else {
        "Aliases written to '"@ + file + "'"@
    }
}

/// The first line of the removal notice.
pub open spec fn removed_notice(d: Seq<Seq<char>>) -> Seq<char> {
    "The following aliases have been removed: "@ + quoted_list(d)
}

/// What the user is told once the aliases file at `file` is written: the
/// written notice, then, where aliases were removed, which ones, and that
/// they are still loaded.
pub open spec fn notices(
    to_remove: Option<Seq<Seq<char>>>,
    to_add: Option<Seq<Seq<char>>>,
    file: Seq<char>,
) -> Seq<Seq<char>> {
    let first = written_notice(to_add matches Some(a) && a.len() > 0, file);
    match to_remove {
        Some(d) if d.len() > 0 => seq![
            first,
            removed_notice(d),
            "They are still loaded so unalias them by hand"@,
        ],
        _ => seq![first],
    }
}

/// Quotes each name and joins them with spaces.
fn quote_names(v: &Vec<String>) -> (r: String)
    ensures
        r@ == quoted_list(v.deep_view()),
{
    let ghost d = v.deep_view();
    let mut r = String::new();
    let mut i: usize = 0;
    assert(d.take(0) =~= Seq::<Seq<char>>::empty());
    while i < v.len()
        invariant
            i <= v.len(),
            d == v.deep_view(),
            r@ == quoted_list(d.take(i as int)),
        decreases v.len() - i,
    {
        let ghost before = r@;
        if i == 0 {
            r.append("'");
        } else {
            r.append(" '");
        }
        r.append(v[i].as_str());
        r.append("'");
        proof {
            let t = d.take(i + 1);
            assert(t.drop_last() =~= d.take(i as int));
            assert(t.last() == d[i as int]);
            if i == 0 {
                assert(t =~= seq![d[0]]);
                assert(before =~= Seq::<char>::empty());
                assert(r@ =~= "'"@ + t[0] + "'"@);
            } else {
                assert(r@ =~= quoted_list(t.drop_last()) + " '"@ + t.last() + "'"@);
            }
        }
        i = i + 1;
    }
    assert(d.take(d.len() as int) =~= d);
    r
}

/// The notices for a reload that wrote `aliases_file`, given what
/// `reconcile` found.
pub fn reload_notices(
    to_remove: &Option<Vec<String>>,
    to_add: &Option<Vec<String>>,
    aliases_file: &str,
) -> (r: Vec<String>)
    ensures
        r.deep_view() == notices(names(*to_remove), names(*to_add), aliases_file@),
{
    let new = match to_add {
        Some(a) => a.len() > 0,
        None => false,
    };
    let mut first = if new {
        String::from_str("New aliases written to '")
    } else {
        String::from_str("Aliases written to '")
    };
    first.append(aliases_file);
    first.append("'");
    let mut r: Vec<String> = Vec::new();
    r.push(first);
    match to_remove {
        Some(d) => {
            if d.len() > 0 {
                let mut removed = String::from_str("The following aliases have been removed: ");
                let q = quote_names(d);
                removed.append(q.as_str());
                r.push(removed);
                r.push(String::from_str("They are still loaded so unalias them by hand"));
            }
        },
        None => {},
    }
    assert(r.deep_view() =~= notices(names(*to_remove), names(*to_add), aliases_file@));
    r
}

/// Rewriting the aliases with an unchanged configuration, once the list the
/// last write recorded is read back, finds nothing removed and nothing
/// added, and only the plain written notice is given.
pub proof fn lemma_unchanged_rewrite_reports_nothing(
    v: Seq<Seq<char>>,
    d0: Seq<Seq<char>>,
    d1: Seq<Seq<char>>,
    file: Seq<char>,
)
    requires
        diff_of(v, v, d0, d1),
    ensures
        d0.len() == 0,
        d1.len() == 0,
        notices(Some(d0), Some(d1), file) == seq![written_notice(false, file)],
{
    lemma_diff_with_itself(v, d0, d1);
}

/// Without a previous list only the plain written notice is given; with an
/// empty previous list and no configured aliases nothing is removed or
/// added, and again only the plain notice is given.
pub proof fn lemma_empty_boundary(file: Seq<char>, d0: Seq<Seq<char>>, d1: Seq<Seq<char>>)
    requires
        crate::util::diff_of(Seq::empty(), Seq::empty(), d0, d1),
    ensures
        notices(None, None, file) == seq![written_notice(false, file)],
        d0.len() == 0 && d1.len() == 0,
        notices(Some(d0), Some(d1), file) == seq![written_notice(false, file)],
{
}

/// Whether `regex::Regex::new` accepts the pattern `p`.
pub uninterp spec fn regex_valid(p: Seq<char>) -> bool;

/// What `regex::Regex::is_match` answers on `s` for the regex compiled
/// from `p`.
pub uninterp spec fn regex_match(p: Seq<char>, s: Seq<char>) -> bool;

/// Relies on `regex::Regex::new` and `regex::Regex::is_match`: whether the
/// pattern compiles and, where it does, whether it matches somewhere in
/// `s`. Both depend on the pattern and the text alone.
#[verifier::external_body]
pub(crate) fn regex_is_match(p: &str, s: &str) -> (r: Option<bool>)
    ensures
        r is Some <==> regex_valid(p@),
        r is Some ==> r->Some_0 == regex_match(p@, s@),
{
    match regex::Regex::new(p) {
        Ok(re) => Some(re.is_match(s)),
        Err(_) => None,
    }
}

/// Pattern `i` compiles and matches `s`.
pub open spec fn hits(m: Seq<Seq<char>>, s: Seq<char>, i: int) -> bool {
    regex_valid(m[i]) && regex_match(m[i], s)
}

/// Some pattern compiles and matches `s`.
pub open spec fn any_hit(m: Seq<Seq<char>>, s: Seq<char>) -> bool {
    exists|i: int| 0 <= i < m.len() && hits(m, s, i)
}

/// A pattern met before the first match, or anywhere where none matches,
/// fails to compile.
pub open spec fn failed_before_hit(m: Seq<Seq<char>>, s: Seq<char>) -> bool {
    exists|j: int|
        0 <= j < m.len() && !regex_valid(#[trigger] m[j]) && forall|i: int|
            0 <= i < j ==> !hits(m, s, i)
}

/// Tests whether the command matches any of the configured patterns, in
/// order, stopping at the first that does. The metadata tells whether a
/// pattern met before that point failed to compile.
pub fn matches_command(config: &FullConfig, s: &str) -> (r: Metadata<bool, bool>)
    ensures
        r.1 == any_hit(config.match_.deep_view(), s@),
        r.0 == failed_before_hit(config.match_.deep_view(), s@),
{
    let ghost m = config.match_.deep_view();
    let mut failed = false;
    let mut i: usize = 0;
    while i < config.match_.len()
        invariant
            i <= config.match_.len(),
            m == config.match_.deep_view(),
            forall|k: int| 0 <= k < i ==> !hits(m, s@, k),
            failed <==> exists|j: int| 0 <= j < i && !regex_valid(#[trigger] m[j]),
        decreases config.match_.len() - i,
    {
        match regex_is_match(config.match_[i].as_str(), s) {
            Some(true) => {
                assert(hits(m, s@, i as int));
                return Metadata(failed, true);
            },
            Some(false) => {
                assert(regex_valid(m[i as int]));
            },
            None => {
                assert(!regex_valid(m[i as int]));
                failed = true;
            },
        }
        i = i + 1;
    }
    Metadata(failed, false)
}

/// Groups 1 and 2 of the first match that `regex::Regex::captures` finds
/// in `s` for the regex compiled from `p`, where both groups take part.
pub uninterp spec fn regex_pair(p: Seq<char>, s: Seq<char>) -> Option<(Seq<char>, Seq<char>)>;

/// Relies on `regex::Regex::new` and `regex::Regex::captures`: groups 1 and
/// 2 of the first match of `p` in `s`, where `p` compiles, matches, and
/// both groups take part. This depends on the pattern and the text alone.
#[verifier::external_body]
fn captures_pair(p: &str, s: &str) -> (r: Option<(String, String)>)
    ensures
        match r {
            Some((a, b)) => regex_valid(p@) && regex_pair(p@, s@) == Some((a@, b@)),
            None => !regex_valid(p@) || regex_pair(p@, s@) is None,
        },
{
    let re = match regex::Regex::new(p) {
        Ok(re) => re,
        Err(_) => return None,
    };
    let c = re.captures(s)?;
    match (c.get(1), c.get(2)) {
        (Some(a), Some(b)) => Some((a.as_str().to_string(), b.as_str().to_string())),
        _ => None,
    }
}

/// The pattern of a provider line of `xrandr --listproviders`: the
/// provider's number, and its name up to a `;` or the end of the line.
pub const PROVIDER_RE: &'static str = "(?x) Provider \\  (\\d+) : .*? name: \\  (.*?) (?: ; | $)";

/// The `DRI_PRIME` value and description that a line gives, if any.
pub open spec fn provider_of(line: Seq<char>) -> Option<(Seq<char>, Seq<char>)> {
    if regex_valid(PROVIDER_RE@) {
        regex_pair(PROVIDER_RE@, line)
    } else {
        None
    }
}

/// The providers that the lines give, in order.
pub open spec fn providers(lines: Seq<Seq<char>>) -> Seq<(Seq<char>, Seq<char>)>
    decreases lines.len(),
{
    if lines.len() == 0 {
        Seq::empty()
    } else {
        providers(lines.drop_last()) + match provider_of(lines.last()) {
            Some(x) => seq![x],
            None => Seq::empty(),
        }
    }
}

/// Reads the (DRI_PRIME value, GPU description) pairs out of the output of
/// `xrandr --listproviders`, one per line that names a provider; lines
/// without a description are passed over.
pub fn parse_providers(output: &str) -> (r: Vec<(String, String)>)
    ensures
        r.deep_view() == providers(split_nl(output@)),
{
    let lines = split_lines(output);
    let ghost d = lines.deep_view();
    let mut r: Vec<(String, String)> = Vec::new();
    let mut i: usize = 0;
    assert(d.take(0) =~= Seq::<Seq<char>>::empty());
    assert(r.deep_view() =~= providers(d.take(0)));
    while i < lines.len()
        invariant
            i <= lines.len(),
            d == lines.deep_view(),
            r.deep_view() == providers(d.take(i as int)),
        decreases lines.len() - i,
    {
        let ghost before = r.deep_view();
        assert(d.take(i + 1).drop_last() =~= d.take(i as int));
        assert(d.take(i + 1).last() == d[i as int]);
        match captures_pair(PROVIDER_RE, lines[i].as_str()) {
            Some(pair) => {
                let ghost x = pair.deep_view();
                r.push(pair);
                assert(r.deep_view() =~= before + seq![x]);
            },
            None => {
                assert(before + Seq::<(Seq<char>, Seq<char>)>::empty() =~= before);
            },
        }
        i = i + 1;
    }
    assert(d.take(d.len() as int) =~= d);
    r
}

/// What a reload tells the user once the aliases file at `aliases_file` is
/// written: without a previous list (the old file could not be read), only
/// the plain written notice; with one, the notices for what was removed and
/// added since.
pub fn reload_messages(previous: Option<Vec<String>>, current: &Vec<String>, aliases_file: &str) -> (r:
    Vec<String>)
    ensures
        previous is None ==> r.deep_view() == notices(None, None, aliases_file@),
        previous matches Some(p) ==> exists|d0: Seq<Seq<char>>, d1: Seq<Seq<char>>|
            diff_of(p.deep_view(), current.deep_view(), d0, d1) && r.deep_view() == notices(
                Some(d0),
                Some(d1),
                aliases_file@,
            ),
{
    let (to_remove, to_add) = reconcile(previous, current);
    reload_notices(&to_remove, &to_add, aliases_file)
}

/// The line reporting a failed read of the old aliases file, if it failed,
/// with `t` as the text of its path.
pub open spec fn read_report(previous: &ra::Result<Vec<String>>, t: Seq<char>) -> Seq<Seq<char>> {
    match previous {
        Ok(_) => Seq::empty(),
        Err(e) => seq![read_message(e, t)],
    }
}

/// Decides how a reload ends, from what reading the old aliases file and
/// writing the new one gave. A failed read is reported and taken as no
/// previous list; the reload goes on. A failed write is reported and ends
/// the reload with `BAD_IO`. Otherwise the notices follow and the written
/// path is returned.
pub fn reload_outcome(
    previous: ra::Result<Vec<String>>,
    current: &Vec<String>,
    written: wa::Result<String>,
) -> (r: (Vec<String>, Result<String, ExitCode>))
    ensures
        r.1 == (match written {
            Ok(f) => Ok::<String, ExitCode>(f),
            Err(_) => Err::<String, ExitCode>(exitcode::BAD_IO),
        }),
        match written {
            Err(e) => exists|t1: Seq<char>, t2: Seq<char>|
                r.0.deep_view() == read_report(&previous, t1) + seq![write_message(&e, t2)],
            Ok(f) => match previous {
                Err(_) => exists|t1: Seq<char>|
                    r.0.deep_view() == read_report(&previous, t1) + notices(None, None, f@),
                Ok(p) => exists|d0: Seq<Seq<char>>, d1: Seq<Seq<char>>|
                    diff_of(p.deep_view(), current.deep_view(), d0, d1) && r.0.deep_view()
                        == notices(Some(d0), Some(d1), f@),
            },
        },
{
    let ghost prev_in = previous;
    let mut out: Vec<String> = Vec::new();
    let ghost mut t1 = Seq::<char>::empty();
    let prev = match previous {
        Ok(v) => Some(v),
        Err(e) => {
            let m = e.message();
            proof {
                t1 = choose|t: Seq<char>| m@ == read_message(&e, t);
            }
            out.push(m);
            None
        },
    };
    assert(out.deep_view() =~= read_report(&prev_in, t1));
    match written {
        Err(e) => {
            let m = e.message();
            let ghost t2 = choose|t: Seq<char>| m@ == write_message(&e, t);
            let ghost before = out.deep_view();
            out.push(m);
            assert(out.deep_view() =~= before + seq![write_message(&e, t2)]);
            (out, Err(exitcode::BAD_IO))
        },
        Ok(f) => {
            let mut m = reload_messages(prev, current, f.as_str());
            let ghost before = out.deep_view();
            let ghost added = m.deep_view();
            out.append(&mut m);
            assert(out.deep_view() =~= before + added);
            (out, Ok(f))
        },
    }
}

} // verus!
