//! The decisions of each subcommand: which one was asked for, what `run`
//! executes, and what the shell hooks print.
use vstd::prelude::*;
use crate::app::{
    any_hit, failed_before_hit, matches_command, names, regex_is_match, regex_match, regex_valid,
};
use crate::config::{ConfigError, FullConfig, RawConfig};
use crate::exitcode::{self, ExitCode};
use crate::shell::escape_quotes;
use crate::util::{join_spaces, join_with_spaces, same_text, shell_escape};

verus! {

/// Name used in the hooks.
pub const INIT_NAME: &'static str = "switchable";

/// The subcommands.
#[derive(Clone, Copy, Debug, PartialEq, Eq, Structural)]
pub enum Subcommand {
    Test,
    Run,
    Init,
    Preexec,
    Precmd,
    Xrandr,
    ShowConfig,
    ReloadAliases,
}

/// The subcommand of each name.
pub open spec fn subcommand_named(name: Seq<char>) -> Option<Subcommand> {
    if name == "_test"@ {
        Some(Subcommand::Test)
    } else if name == "run"@ {
        Some(Subcommand::Run)
    } else if name == "init"@ {
        Some(Subcommand::Init)
    } else if name == "preexec"@ {
        Some(Subcommand::Preexec)
    } else if name == "precmd"@ {
        Some(Subcommand::Precmd)
    } else if name == "xrandr"@ {
        Some(Subcommand::Xrandr)
    } else if name == "show-config"@ {
        Some(Subcommand::ShowConfig)
    } else if name == "reload-aliases"@ {
        Some(Subcommand::ReloadAliases)
    } else {
        None
    }
}

/// Finds the subcommand by its name; an unknown name gives none.
pub fn parse_subcommand(name: &str) -> (r: Option<Subcommand>)
    ensures
        r == subcommand_named(name@),
{
    if same_text(name, "_test") {
        Some(Subcommand::Test)
    } else if same_text(name, "run") {
        Some(Subcommand::Run)
    } else if same_text(name, "init") {
        Some(Subcommand::Init)
    } else if same_text(name, "preexec") {
        Some(Subcommand::Preexec)
    } else if same_text(name, "precmd") {
        Some(Subcommand::Precmd)
    } else if same_text(name, "xrandr") {
        Some(Subcommand::Xrandr)
    } else if same_text(name, "show-config") {
        Some(Subcommand::ShowConfig)
    } else if same_text(name, "reload-aliases") {
        Some(Subcommand::ReloadAliases)
    } else {
        None
    }
}

/// The value of `DRI_PRIME` for `run`: the option given, else the
/// configured driver, else "1".
pub fn choose_driver(option: Option<String>, configured: Option<String>) -> (r: String)
    ensures
        r@ == (match option {
            Some(d) => d@,
            None => match configured {
                Some(c) => c@,
                None => "1"@,
            },
        }),
{
    match option {
        Some(d) => d,
        None => match configured {
            Some(c) => c,
            None => String::from_str("1"),
        },
    }
}

/// The program and arguments that `run` executes for the free arguments:
/// with `expand`, the words joined into one string for `sh -c`; otherwise
/// the first word with the others as its arguments. Nothing is run, and
/// the help is shown, where help was asked for or no command was given.
pub fn plan_run(help: bool, expand: bool, free: &Vec<String>) -> (r: Option<(String, Vec<String>)>)
    ensures
        r is None <==> help || free.len() == 0,
        r matches Some((p, a)) ==> if expand {
            p@ == "sh"@ && a.len() == 2 && a[0]@ == "-c"@ && a[1]@ == join_spaces(
                free.deep_view(),
            )
        } else {
            p@ == free[0]@ && a.deep_view() == free.deep_view().skip(1)
        },
{
    if help || free.len() == 0 {
        return None;
    }
    if expand {
        let joined = join_with_spaces(free.as_slice());
        assert(free@.map_values(|s: String| s@) =~= free.deep_view());
        let mut args: Vec<String> = Vec::new();
        args.push(String::from_str("-c"));
        args.push(joined);
        Some((String::from_str("sh"), args))
    } else {
        let mut args: Vec<String> = Vec::new();
        let mut i: usize = 1;
        while i < free.len()
            invariant
                1 <= i <= free.len(),
                args.deep_view() == free.deep_view().subrange(1, i as int),
            decreases free.len() - i,
        {
            let ghost before = args.deep_view();
            let c = free[i].clone();
            args.push(c);
            assert(args.deep_view() =~= before.push(free.deep_view()[i as int]));
            assert(args.deep_view() =~= free.deep_view().subrange(1, i + 1));
            i = i + 1;
        }
        assert(free.deep_view().subrange(1, free.len() as int) =~= free.deep_view().skip(1));
        Some((free[0].clone(), args))
    }
}

/// The pattern of a command line that reloads the aliases.
pub const RELOAD_RE: &'static str = "(?x)
		^ \\s* (?: (?: \\w | [/.] )* )? switchable      # switchable
		\\s+ reload-aliases      # followed by the `reload-aliases` subcommand";

/// Whether the command line entered in the shell reloads the aliases.
pub fn is_reload_command(command: &str) -> (r: bool)
    ensures
        r == (regex_valid(RELOAD_RE@) && regex_match(RELOAD_RE@, command@)),
{
    match regex_is_match(RELOAD_RE, command) {
        Some(b) => b,
        None => false,
    }
}

/// A shell command that shows `v` to the user.
pub open spec fn say_line(v: Seq<char>) -> Seq<char> {
    "echo "@ + seq!['\''] + escape_quotes(v) + seq!['\'']
}

/// Makes a shell command that shows `v` to the user.
pub fn say_in_shell(v: &str) -> (r: String)
    ensures
        r@ == say_line(v@),
{
    let q = shell_escape(v);
    let mut r = String::from_str("echo ");
    r.append(q.as_str());
    assert(r@ =~= say_line(v@));
    r
}

/// The lines that set `DRI_PRIME` to `driver`, keeping a value set before.
pub open spec fn driver_lines(driver: Seq<char>) -> Seq<Seq<char>> {
    seq![
        "if [ -n \"${DRI_PRIME+x}\" ]"@,
        "then"@,
        "\texport SWITCHABLE_DP_BAK=\"$DRI_PRIME\""@,
        "fi"@,
        "export DRI_PRIME="@ + seq!['\''] + escape_quotes(driver) + seq!['\''],
    ]
}

/// The warning shown when a pattern does not compile.
pub open spec fn invalid_regex_line() -> Seq<char> {
    "echo 'switchable: Invalid regex found, see `switchable show-config`' >&2"@
}

/// The line that marks the hook as run.
pub open spec fn ran_line() -> Seq<char> {
    "export SWITCHABLE_RAN=1"@
}

/// What the preexec hook prints for `command`, after any reload: where a
/// configuration was loaded, the lines that set the driver if a pattern
/// matches, and a warning if a pattern met before the match did not
/// compile; then, in every case, the mark that the hook ran.
pub open spec fn preexec_script(config: Option<&FullConfig>, command: Seq<char>) -> Seq<Seq<char>> {
    match config {
        Some(c) => {
            let m = c.match_.deep_view();
            (if any_hit(m, command) {
                driver_lines(c.driver@)
            } else {
                Seq::empty()
            }) + (if failed_before_hit(m, command) {
                seq![invalid_regex_line()]
            } else {
                Seq::empty()
            }) + seq![ran_line()]
        },
        None => seq![ran_line()],
    }
}

/// The lines the preexec hook prints for `command`, after any reload.
pub fn preexec_lines(config: Option<&FullConfig>, command: &str) -> (r: Vec<String>)
    ensures
        r.deep_view() == preexec_script(config, command@),
{
    let mut r: Vec<String> = Vec::new();
    match config {
        Some(c) => {
            let m = matches_command(c, command);
            let ghost hit = any_hit(c.match_.deep_view(), command@);
            if m.1 {
                r.push(String::from_str("if [ -n \"${DRI_PRIME+x}\" ]"));
                r.push(String::from_str("then"));
                r.push(String::from_str("\texport SWITCHABLE_DP_BAK=\"$DRI_PRIME\""));
                r.push(String::from_str("fi"));
                let mut e = String::from_str("export DRI_PRIME=");
                let q = shell_escape(c.driver.as_str());
                e.append(q.as_str());
                assert(e@ =~= driver_lines(c.driver@)[4]);
                r.push(e);
                assert(r.deep_view() =~= driver_lines(c.driver@));
            }
            let ghost first = r.deep_view();
            assert(first =~= if hit {
                driver_lines(c.driver@)
            } else {
                Seq::empty()
            });
            if m.0 {
                r.push(
                    String::from_str(
                        "echo 'switchable: Invalid regex found, see `switchable show-config`' >&2",
                    ),
                );
            }
        },
        None => {},
    }
    r.push(String::from_str("export SWITCHABLE_RAN=1"));
    assert(r.deep_view() =~= preexec_script(config, command@));
    r
}

/// The exit code of `show-config` when the configuration cannot be loaded:
/// a missing or unreadable file is an I/O failure, the rest a plain failure.
pub fn config_error_code(e: &ConfigError) -> (r: ExitCode)
    ensures
        r == (match e {
            ConfigError::FindFileF | ConfigError::ParseF(..) => exitcode::FAIL,
            ConfigError::NoFileF(_) | ConfigError::ReadFileF(..) => exitcode::BAD_IO,
        }),
{
    match e {
        ConfigError::FindFileF | ConfigError::ParseF(..) => exitcode::FAIL,
        ConfigError::NoFileF(_) | ConfigError::ReadFileF(..) => exitcode::BAD_IO,
    }
}

/// A listing: its title and one `- ` line per entry, a note where it is
/// empty, or the `absent` line where the key is not set.
pub open spec fn listing(v: Option<Seq<Seq<char>>>, title: Seq<char>, absent: Seq<char>) -> Seq<
    Seq<char>,
> {
    match v {
        Some(l) => if l.len() == 0 {
            seq![title, "  (None defined)"@]
        } else {
            seq![title] + l.map_values(|x: Seq<char>| "- "@ + x)
        },
        None => seq![absent],
    }
}

/// What `show-config` prints for the configuration read from `path`, where
/// `ignored` is a configuration file that was passed over.
pub open spec fn config_report(path: Seq<char>, ignored: Option<Seq<char>>, c: &RawConfig) -> Seq<
    Seq<char>,
> {
    seq!["Configuration file: "@ + path] + (match ignored {
        Some(d) => seq!["  (File \""@ + d + "\" was ignored)"@],
        None => Seq::empty(),
    }) + seq![Seq::<char>::empty()] + (match c.preexec {
        Some(p) => seq!["Preexec path: "@ + p@],
        None => Seq::empty(),
    }) + seq![
        "Default GPU id: "@ + match c.driver {
            Some(d) => d@,
            None => "1 ('driver' not set)"@,
        },
    ] + listing(names(c.match_), "Commands matches:"@, "No commands matches defined in the 'match' key"@)
        + listing(names(c.alias), "Aliases:"@, "No aliases defined by the 'alias' key"@)
}

fn push_listing(r: &mut Vec<String>, v: &Option<Vec<String>>, title: &str, absent: &str)
    ensures
        final(r).deep_view() == old(r).deep_view() + listing(names(*v), title@, absent@),
{
    let ghost start = r.deep_view();
    match v {
        Some(l) => {
            r.push(String::from_str(title));
            if l.len() == 0 {
                r.push(String::from_str("  (None defined)"));
            } else {
                let ghost f = |x: Seq<char>| "- "@ + x;
                let ghost d = l.deep_view();
                let mut i: usize = 0;
                assert(r.deep_view() =~= start + seq![title@] + d.take(0).map_values(f));
                while i < l.len()
                    invariant
                        i <= l.len(),
                        d == l.deep_view(),
                        f == (|x: Seq<char>| "- "@ + x),
                        r.deep_view() == start + seq![title@] + d.take(i as int).map_values(f),
                    decreases l.len() - i,
                {
                    let ghost before = r.deep_view();
                    let mut line = String::from_str("- ");
                    line.append(l[i].as_str());
                    assert(line@ == f(d[i as int]));
                    r.push(line);
                    assert(r.deep_view() =~= before.push(f(d[i as int])));
                    assert(d.take(i + 1).map_values(f) =~= d.take(i as int).map_values(f).push(
                        f(d[i as int]),
                    ));
                    assert(r.deep_view() =~= start + seq![title@] + d.take(i + 1).map_values(f));
                    i = i + 1;
                }
                assert(d.take(d.len() as int) =~= d);
            }
        },
        None => {
            r.push(String::from_str(absent));
        },
    }
    assert(r.deep_view() =~= start + listing(names(*v), title@, absent@));
}

/// The lines `show-config` prints for the configuration read from the file
/// whose path reads `path`; `ignored` is the path of a configuration file
/// that exists but was passed over.
pub fn config_report_lines(path: &str, ignored: Option<&str>, config: &RawConfig) -> (r: Vec<String>)
    ensures
        r.deep_view() == config_report(path@, match ignored {
            Some(d) => Some(d@),
            None => None,
        }, config),
{
    let mut r: Vec<String> = Vec::new();
    let mut first = String::from_str("Configuration file: ");
    first.append(path);
    r.push(first);
    match ignored {
        Some(d) => {
            let mut l = String::from_str("  (File \"");
            l.append(d);
            l.append("\" was ignored)");
            r.push(l);
        },
        None => {},
    }
    r.push(String::new());
    match &config.preexec {
        Some(p) => {
            let mut l = String::from_str("Preexec path: ");
            l.append(p.as_str());
            r.push(l);
        },
        None => {},
    }
    let mut gpu = String::from_str("Default GPU id: ");
    match &config.driver {
        Some(d) => gpu.append(d.as_str()),
        None => gpu.append("1 ('driver' not set)"),
    }
    r.push(gpu);
    push_listing(&mut r, &config.match_, "Commands matches:", "No commands matches defined in the 'match' key");
    push_listing(&mut r, &config.alias, "Aliases:", "No aliases defined by the 'alias' key");
    assert(r.deep_view() =~= config_report(path@, match ignored {
        Some(d) => Some(d@),
        None => None,
    }, config));
    r
}

} // verus!
