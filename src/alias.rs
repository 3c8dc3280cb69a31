//! The aliases file: a header, a snapshot line that records the aliased
//! commands as a JSON list, a blank line, one shell alias per command, and
//! a footer. Only the snapshot line is read back.
use vstd::prelude::*;
use std::io;
use std::path::PathBuf;
use crate::config::FullConfig;
use crate::shell::{
    escape_quotes, lemma_escape_plain_prefix, lemma_read_quoted, prepend, replace_quotes, sh_read,
    shell_quoted,
};
use crate::util::starts_with;

pub mod ra;
pub mod wa;

use ra::ReadError;
use wa::WriteError;

verus! {

/// The start of the snapshot line.
pub const JSON_PREFIX: &'static str = "# Generated from: ";

/// The first line of the file.
pub const HEADER: &'static str = "# Generated by switchable, modifications will be overwritten";

/// The last line of the file, with no line break after it.
pub const FOOTER: &'static str = "# End of file";

/// What `serde_json::to_string` writes for a list of strings.
pub uninterp spec fn json_of(v: Seq<Seq<char>>) -> Seq<char>;

/// What `serde_json::from_str` reads out of `s` as a list of strings, or
/// none where it fails.
pub uninterp spec fn json_list_of(s: Seq<char>) -> Option<Seq<Seq<char>>>;

/// Relies on `serde_json::to_string` on a list of strings: it succeeds, as
/// it writes into a `Vec` and neither `String` nor `Vec` fails to
/// serialize; the text is the list's JSON, written compactly, with every
/// control character inside a string escaped, so no line feed or carriage
/// return occurs in it.
#[verifier::external_body]
fn to_json(v: &Vec<String>) -> (r: Result<String, serde_json::Error>)
    ensures
        r is Ok,
        r is Ok ==> r->Ok_0@ == json_of(v.deep_view()),
        r is Ok ==> !r->Ok_0@.contains('\n') && !r->Ok_0@.contains('\r'),
{
    serde_json::to_string(v)
}

/// Relies on `serde_json::from_str` into a list of strings: its result
/// depends on the text alone; empty text fails (end of input where a value
/// was due), and the text that `serde_json::to_string` wrote for a list
/// reads back as that list.
#[verifier::external_body]
fn from_json(s: &str) -> (r: Result<Vec<String>, serde_json::Error>)
    ensures
        r is Ok <==> json_list_of(s@) is Some,
        r is Ok ==> json_list_of(s@) == Some(r->Ok_0.deep_view()),
        s@.len() == 0 ==> r is Err,
        forall|v: Seq<Seq<char>>|
            s@ == #[trigger] json_of(v) ==> r is Ok && r->Ok_0.deep_view() == v,
{
    serde_json::from_str(s)
}

/// Whether a line is the snapshot line.
pub open spec fn is_snapshot_line(l: Seq<char>) -> bool {
    JSON_PREFIX@.is_prefix_of(l)
}

/// What follows the prefix in a snapshot line.
pub open spec fn payload(l: Seq<char>) -> Seq<char> {
    l.skip(JSON_PREFIX@.len() as int)
}

/// The snapshot line written for the commands `v`.
pub open spec fn snapshot_line(v: Seq<Seq<char>>) -> Seq<char> {
    JSON_PREFIX@ + json_of(v)
}

/// Encodes the commands as a snapshot line; this always succeeds.
pub fn encode(commands: &Vec<String>) -> (r: Result<String, serde_json::Error>)
    ensures
        r is Ok,
        r is Ok ==> r->Ok_0@ == snapshot_line(commands.deep_view()),
        r is Ok ==> !json_of(commands.deep_view()).contains('\n') && !json_of(
            commands.deep_view(),
        ).contains('\r'),
{
    match to_json(commands) {
        Ok(j) => {
            let mut line = String::from_str(JSON_PREFIX);
            line.append(j.as_str());
            Ok(line)
        },
        Err(e) => Err(e),
    }
}

/// Decodes a snapshot line back into the commands: the payload as
/// `serde_json` reads a list of strings, failing where it does. An empty
/// payload is an error, not an empty list.
pub fn decode(line: &str) -> (r: Result<Vec<String>, serde_json::Error>)
    requires
        is_snapshot_line(line@),
    ensures
        r is Ok <==> json_list_of(payload(line@)) is Some,
        r is Ok ==> json_list_of(payload(line@)) == Some(r->Ok_0.deep_view()),
        payload(line@).len() == 0 ==> r is Err,
        forall|v: Seq<Seq<char>>|
            payload(line@) == #[trigger] json_of(v) ==> r is Ok && r->Ok_0.deep_view() == v,
{
    let n = JSON_PREFIX.unicode_len();
    let rest = line.substring_char(n, line.unicode_len());
    assert(rest@ =~= payload(line@));
    from_json(rest)
}

/// Decoding what `encode` wrote for `s` gives back `s`: the line is a
/// snapshot line whose payload is exactly the JSON of `s`.
pub proof fn lemma_snapshot_round_trip(s: Seq<Seq<char>>)
    ensures
        is_snapshot_line(snapshot_line(s)),
        payload(snapshot_line(s)) == json_of(s),
{
    assert(snapshot_line(s).subrange(0, JSON_PREFIX@.len() as int) =~= JSON_PREFIX@);
    assert(payload(snapshot_line(s)) =~= json_of(s));
}

/// Names a failure to open the aliases file at `p`, where `not_found`
/// tells whether the file was missing (the error's kind is `NotFound`): a
/// missing file gives `NoFileF`, any other failure `ReadFileF` with its
/// cause kept.
#[allow(non_snake_case)]
pub fn IoF(p: PathBuf, e: io::Error, not_found: bool) -> (r: ReadError)
    ensures
        not_found ==> r == ReadError::NoFileF(p),
        !not_found ==> r == ReadError::ReadFileF(p, e),
{
    if not_found {
        ReadError::NoFileF(p)
    } else {
        ReadError::ReadFileF(p, e)
    }
}

/// No line before `k` is a snapshot line.
pub open spec fn none_before(lines: Seq<Seq<char>>, k: int) -> bool {
    forall|i: int| 0 <= i < k ==> !is_snapshot_line(#[trigger] lines[i])
}

/// Line `k` is the first snapshot line.
pub open spec fn first_snapshot_at(lines: Seq<Seq<char>>, k: int) -> bool {
    0 <= k < lines.len() && is_snapshot_line(lines[k]) && none_before(lines, k)
}

/// Finds the first snapshot line among the lines read from the file at
/// `path`. Reading stopped at `read_error`, if that is given: where no line
/// read before it is a snapshot line, the error is reported.
fn find_prefix_line(lines: &Vec<String>, read_error: Option<io::Error>, path: PathBuf) -> (r:
    ra::Result<(String, PathBuf)>)
    ensures
        match r {
            Ok((l, q)) => q == path && exists|k: int|
                first_snapshot_at(lines.deep_view(), k) && lines.deep_view()[k] == l@,
            Err(ReadError::ReadFileF(q, e)) => q == path && read_error == Some(e) && none_before(
                lines.deep_view(),
                lines.len() as int,
            ),
            Err(ReadError::NoJsonLine(q)) => q == path && read_error is None && none_before(
                lines.deep_view(),
                lines.len() as int,
            ),
            _ => false,
        },
{
    let mut i: usize = 0;
    while i < lines.len()
        invariant
            i <= lines.len(),
            none_before(lines.deep_view(), i as int),
        decreases lines.len() - i,
    {
        if starts_with(lines[i].as_str(), JSON_PREFIX) {
            let l = lines[i].clone();
            assert(first_snapshot_at(lines.deep_view(), i as int));
            return Ok((l, path));
        }
        i = i + 1;
    }
    match read_error {
        Some(e) => Err(ReadError::ReadFileF(path, e)),
        None => Err(ReadError::NoJsonLine(path)),
    }
}

/// Reads the previous list of aliases out of the lines of the aliases file
/// at `path`, read up to the end or up to `read_error`. The first snapshot
/// line decides: its payload as `serde_json` reads a list of strings, or a
/// parse error where it fails; an empty payload fails, and a payload that is
/// the JSON of a list gives that list.
pub fn parse_old_aliases(lines: &Vec<String>, read_error: Option<io::Error>, path: PathBuf) -> (r:
    ra::Result<Vec<String>>)
    ensures
        none_before(lines.deep_view(), lines.len() as int) ==> match read_error {
            Some(e) => r == Err::<Vec<String>, ReadError>(ReadError::ReadFileF(path, e)),
            None => r == Err::<Vec<String>, ReadError>(ReadError::NoJsonLine(path)),
        },
        forall|k: int|
            #![trigger first_snapshot_at(lines.deep_view(), k)]
            first_snapshot_at(lines.deep_view(), k) ==> {
                &&& r is Ok || (r matches Err(ReadError::FromJsonF(q, _)) && q == path)
                &&& r is Ok <==> json_list_of(payload(lines.deep_view()[k])) is Some
                &&& r is Ok ==> json_list_of(payload(lines.deep_view()[k])) == Some(
                    r->Ok_0.deep_view(),
                )
                &&& payload(lines.deep_view()[k]).len() == 0 ==> r is Err
                &&& forall|v: Seq<Seq<char>>|
                    payload(lines.deep_view()[k]) == #[trigger] json_of(v) ==> r is Ok
                        && r->Ok_0.deep_view() == v
            },
{
    let (line, path) = match find_prefix_line(lines, read_error, path) {
        Ok(found) => found,
        Err(e) => return Err(e),
    };
    proof {
        assert forall|k: int, j: int|
            first_snapshot_at(lines.deep_view(), k) && first_snapshot_at(lines.deep_view(), j)
                implies k == j by {
            if k < j {
                assert(!is_snapshot_line(lines.deep_view()[k]));
            } else if j < k {
                assert(!is_snapshot_line(lines.deep_view()[j]));
            }
        }
    }
    match decode(line.as_str()) {
        Ok(v) => Ok(v),
        Err(e) => Err(ReadError::FromJsonF(path, e)),
    }
}

/// The alias statement for one command, quoted on both sides, with its
/// line break.
pub open spec fn alias_line(c: Seq<char>) -> Seq<char> {
    "alias '"@ + escape_quotes(c) + "'='DRI_PRIME=1 "@ + escape_quotes(c) + "'\n"@
}

/// The alias statements for the commands, in order.
pub open spec fn alias_lines(v: Seq<Seq<char>>) -> Seq<char>
    decreases v.len(),
{
    if v.len() == 0 {
        Seq::empty()
    } else {
        alias_lines(v.drop_last()) + alias_line(v.last())
    }
}

/// The word of the alias statement for `c`: the alias's name and, after
/// `=`, its expansion, both quoted.
pub open spec fn alias_word(c: Seq<char>) -> Seq<char> {
    shell_quoted(c) + "="@ + shell_quoted("DRI_PRIME=1 "@ + c)
}

/// The alias statement for `c` is `alias` and one word, which the shell
/// reads as `c=DRI_PRIME=1 c`: whatever quotes `c` holds, the alias is named
/// `c` (where `c` holds no `=`) and runs `c` with `DRI_PRIME=1`.
pub proof fn lemma_alias_line_reads_back(c: Seq<char>)
    ensures
        alias_line(c) == "alias "@ + alias_word(c) + "\n"@,
        sh_read(alias_word(c), false) == Some(c + "="@ + "DRI_PRIME=1 "@ + c),
{
    reveal_strlit("alias '");
    reveal_strlit("'='DRI_PRIME=1 ");
    reveal_strlit("'\n");
    reveal_strlit("alias ");
    reveal_strlit("\n");
    reveal_strlit("=");
    reveal_strlit("DRI_PRIME=1 ");
    let p = "DRI_PRIME=1 "@;
    assert(!p.contains('\'')) by {
        if p.contains('\'') {
            let i = choose|i: int| 0 <= i < p.len() && p[i] == '\'';
        }
    }
    lemma_escape_plain_prefix(p, c);
    assert(alias_line(c) =~= "alias "@ + alias_word(c) + "\n"@);
    let rest = "="@ + shell_quoted(p + c);
    assert(alias_word(c) =~= shell_quoted(c) + rest);
    lemma_read_quoted(c, rest);
    lemma_read_quoted(p + c, Seq::empty());
    assert(shell_quoted(p + c) + Seq::<char>::empty() =~= shell_quoted(p + c));
    assert(rest.drop_first() =~= shell_quoted(p + c));
    assert(sh_read(rest, false) == prepend("="@, sh_read(shell_quoted(p + c), false)));
    assert(c + ("="@ + ((p + c) + Seq::<char>::empty())) =~= c + "="@ + p + c);
}

/// The whole aliases file for the commands `v`.
pub open spec fn file_text(v: Seq<Seq<char>>) -> Seq<char> {
    HEADER@ + "\n"@ + snapshot_line(v) + "\n\n"@ + alias_lines(v) + FOOTER@
}

/// Produces the text of the aliases file for the configured aliases, to be
/// written at `path`, which comes back with it.
pub fn write_aliases_text(config: &FullConfig, path: PathBuf) -> (r: wa::Result<(String, PathBuf)>)
    ensures
        r is Ok,
        match r {
            Ok((t, q)) => {
                &&& q == path
                &&& t@ == file_text(config.alias.deep_view())
                &&& !json_of(config.alias.deep_view()).contains('\n')
                &&& !json_of(config.alias.deep_view()).contains('\r')
            },
            Err(WriteError::ToJsonF(q, _)) => q == path,
            _ => false,
        },
{
    let line = match encode(&config.alias) {
        Ok(l) => l,
        Err(e) => return Err(WriteError::ToJsonF(path, e)),
    };
    let ghost v = config.alias.deep_view();
    let mut text = String::from_str(HEADER);
    text.append("\n");
    text.append(line.as_str());
    text.append("\n\n");
    let ghost head = text@;
    assert(v.take(0) =~= Seq::<Seq<char>>::empty());
    assert(text@ =~= head + alias_lines(v.take(0)));
    let mut i: usize = 0;
    while i < config.alias.len()
        invariant
            i <= config.alias.len(),
            v == config.alias.deep_view(),
            text@ == head + alias_lines(v.take(i as int)),
        decreases config.alias.len() - i,
    {
        let q = replace_quotes(config.alias[i].as_str());
        text.append("alias '");
        text.append(q.as_str());
        text.append("'='DRI_PRIME=1 ");
        text.append(q.as_str());
        text.append("'\n");
        proof {
            assert(v.take(i + 1).drop_last() =~= v.take(i as int));
            assert(v.take(i + 1).last() == v[i as int]);
            assert(text@ =~= head + alias_lines(v.take(i + 1)));
        }
        i = i + 1;
    }
    text.append(FOOTER);
    proof {
        assert(v.take(v.len() as int) =~= v);
        assert(text@ =~= file_text(v));
    }
    Ok((text, path))
}

/// Where the first line feed of `t` is, or the length of `t` if it has none.
pub open spec fn nl_index(t: Seq<char>) -> nat
    decreases t.len(),
{
    if t.len() == 0 || t[0] == '\n' {
        0
    } else {
        1 + nl_index(t.drop_first())
    }
}

/// A line without the carriage return that may end it.
pub open spec fn strip_cr(l: Seq<char>) -> Seq<char> {
    if l.len() > 0 && l.last() == '\r' {
        l.drop_last()
    } else {
        l
    }
}

/// The lines of `t` as `BufRead::lines` gives them: cut after each line
/// feed, without a carriage return before it, and with no empty last line
/// after a final line feed.
pub open spec fn text_lines(t: Seq<char>) -> Seq<Seq<char>>
    decreases t.len(),
{
    if t.len() == 0 {
        Seq::empty()
    } else {
        let k = nl_index(t);
        if k >= t.len() {
            seq![t]
        } else {
            seq![strip_cr(t.take(k as int))] + text_lines(t.skip(k + 1 as int))
        }
    }
}

proof fn lemma_nl_index(a: Seq<char>, b: Seq<char>)
    requires
        !a.contains('\n'),
    ensures
        nl_index(a + seq!['\n'] + b) == a.len(),
    decreases a.len(),
{
    let t = a + seq!['\n'] + b;
    if a.len() > 0 {
        assert(a[0] != '\n');
        let q = a.drop_first();
        assert(!q.contains('\n')) by {
            if q.contains('\n') {
                let i = choose|i: int| 0 <= i < q.len() && q[i] == '\n';
                assert(a[i + 1] == '\n');
            }
        }
        lemma_nl_index(q, b);
        assert(t.drop_first() =~= q + seq!['\n'] + b);
    }
}

proof fn lemma_first_line(a: Seq<char>, b: Seq<char>)
    requires
        !a.contains('\n'),
    ensures
        text_lines(a + seq!['\n'] + b) == seq![strip_cr(a)] + text_lines(b),
{
    let t = a + seq!['\n'] + b;
    lemma_nl_index(a, b);
    assert(t.take(a.len() as int) =~= a);
    assert(t.skip(a.len() + 1 as int) =~= b);
}

/// Reading the written file back line by line finds, on its second line,
/// the snapshot line that was written, and no snapshot line before it; so
/// the reader gets back exactly the aliases that were written. This holds
/// where the JSON holds no line break, which a successful write ensures.
pub proof fn lemma_written_file_reads_back(v: Seq<Seq<char>>)
    requires
        !json_of(v).contains('\n'),
        !json_of(v).contains('\r'),
    ensures
        text_lines(file_text(v)).len() >= 2,
        first_snapshot_at(text_lines(file_text(v)), 1),
        text_lines(file_text(v))[1] == snapshot_line(v),
        payload(text_lines(file_text(v))[1]) == json_of(v),
{
    reveal_strlit("# Generated from: ");
    reveal_strlit("# Generated by switchable, modifications will be overwritten");
    reveal_strlit("\n");
    reveal_strlit("\n\n");
    let h = HEADER@;
    let l = snapshot_line(v);
    let rest = seq!['\n'] + alias_lines(v) + FOOTER@;
    assert(file_text(v) =~= h + seq!['\n'] + (l + seq!['\n'] + rest));
    assert(!h.contains('\n')) by {
        if h.contains('\n') {
            let i = choose|i: int| 0 <= i < h.len() && h[i] == '\n';
        }
    }
    assert(!l.contains('\n')) by {
        if l.contains('\n') {
            let i = choose|i: int| 0 <= i < l.len() && l[i] == '\n';
            if i >= JSON_PREFIX@.len() {
                assert(json_of(v)[i - JSON_PREFIX@.len()] == '\n');
            }
        }
    }
    lemma_first_line(h, l + seq!['\n'] + rest);
    lemma_first_line(l, rest);
    assert(strip_cr(h) == h);
    if json_of(v).len() > 0 {
        assert(l.last() == json_of(v).last());
        assert(json_of(v).contains(json_of(v).last()));
    }
    assert(strip_cr(l) == l);
    let lines = text_lines(file_text(v));
    assert(lines =~= seq![h, l] + text_lines(rest));
    assert(h[12] == 'b' && JSON_PREFIX@[12] == 'f');
    assert(!is_snapshot_line(h)) by {
        if is_snapshot_line(h) {
            assert(h.subrange(0, JSON_PREFIX@.len() as int)[12] == h[12]);
        }
    }
    lemma_snapshot_round_trip(v);
}

} // verus!
