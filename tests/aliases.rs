use std::io;
use std::path::PathBuf;
use switchable::alias::ra::ReadError;
use switchable::alias::wa::WriteError;
use switchable::alias::{decode, encode, parse_old_aliases, write_aliases_text, IoF, JSON_PREFIX};
use switchable::app::{reconcile, reload_messages, reload_notices, reload_outcome};
use switchable::exitcode;
use switchable::config::FullConfig;
use switchable::util::split_lines;

fn strings(v: &[&str]) -> Vec<String> {
    v.iter().map(|s| s.to_string()).collect()
}

fn config_with(aliases: &[&str]) -> FullConfig {
    FullConfig {
        driver: "1".to_string(),
        match_: Vec::new(),
        alias: strings(aliases),
        preexec: None,
    }
}

fn written_text(aliases: &[&str]) -> String {
    match write_aliases_text(&config_with(aliases), PathBuf::from("/tmp/aliases.bash")) {
        Ok((text, path)) => {
            assert_eq!(path, PathBuf::from("/tmp/aliases.bash"));
            text
        }
        Err(_) => panic!("the aliases could not be written as JSON"),
    }
}

fn read_back(text: &str) -> Vec<String> {
    let lines: Vec<String> = text.lines().map(|l| l.to_string()).collect();
    match parse_old_aliases(&lines, None, PathBuf::from("/tmp/aliases.bash")) {
        Ok(v) => v,
        Err(e) => panic!("{}", e.message()),
    }
}

#[test]
fn encode_writes_prefix_and_compact_json() {
    let line = encode(&strings(&["cmd1", "cmd2"])).unwrap();
    assert_eq!(line, "# Generated from: [\"cmd1\",\"cmd2\"]");
}

#[test]
fn snapshot_round_trip_keeps_order() {
    let s = strings(&["zeta", "alpha", "it's", "quote\"d", "back\\slash", "tab\there"]);
    let line = encode(&s).unwrap();
    assert!(line.starts_with(JSON_PREFIX));
    assert_eq!(decode(&line).unwrap(), s);
}

#[test]
fn snapshot_round_trip_of_empty_list() {
    let line = encode(&Vec::new()).unwrap();
    assert_eq!(line, "# Generated from: []");
    assert_eq!(decode(&line).unwrap(), Vec::<String>::new());
}

#[test]
fn decode_empty_payload_fails() {
    assert!(decode("# Generated from: ").is_err());
}

#[test]
fn decode_malformed_json_fails() {
    assert!(decode("# Generated from: [\"a\",").is_err());
    assert!(decode("# Generated from: {\"a\": 1}").is_err());
}

#[test]
fn written_file_has_exact_layout() {
    let text = written_text(&["glxgears", "vkcube"]);
    assert_eq!(
        text,
        "# Generated by switchable, modifications will be overwritten\n\
         # Generated from: [\"glxgears\",\"vkcube\"]\n\
         \n\
         alias 'glxgears'='DRI_PRIME=1 glxgears'\n\
         alias 'vkcube'='DRI_PRIME=1 vkcube'\n\
         # End of file"
    );
}

#[test]
fn written_file_with_no_aliases() {
    let text = written_text(&[]);
    assert_eq!(
        text,
        "# Generated by switchable, modifications will be overwritten\n\
         # Generated from: []\n\
         \n\
         # End of file"
    );
    assert_eq!(read_back(&text), Vec::<String>::new());
}

#[test]
fn alias_line_escapes_single_quotes() {
    let text = written_text(&["it's-a-cmd"]);
    assert!(text.contains("\nalias 'it'\\''s-a-cmd'='DRI_PRIME=1 it'\\''s-a-cmd'\n"));
    assert_eq!(read_back(&text), strings(&["it's-a-cmd"]));
}

#[test]
fn alias_line_hardcodes_driver_one() {
    let mut config = config_with(&["glxgears"]);
    config.driver = "2".to_string();
    let (text, _) = write_aliases_text(&config, PathBuf::from("a")).ok().unwrap();
    assert!(text.contains("alias 'glxgears'='DRI_PRIME=1 glxgears'\n"));
}

#[test]
fn written_file_reads_back() {
    let text = written_text(&["b", "c"]);
    assert_eq!(read_back(&text), strings(&["b", "c"]));
}

#[test]
fn reading_takes_first_snapshot_line() {
    let lines = strings(&["junk", "# Generated from: [\"x\"]", "# Generated from: [\"y\"]"]);
    let r = parse_old_aliases(&lines, None, PathBuf::from("p")).ok().unwrap();
    assert_eq!(r, strings(&["x"]));
}

#[test]
fn reading_without_snapshot_line() {
    let lines = strings(&["# Generated by switchable", "alias 'a'='b'"]);
    match parse_old_aliases(&lines, None, PathBuf::from("p")) {
        Err(ReadError::NoJsonLine(p)) => assert_eq!(p, PathBuf::from("p")),
        _ => panic!("expected a missing snapshot line"),
    }
}

#[test]
fn reading_stopped_by_error_before_snapshot() {
    let lines = strings(&["# Generated by switchable"]);
    let e = io::Error::new(io::ErrorKind::InvalidData, "bad");
    match parse_old_aliases(&lines, Some(e), PathBuf::from("p")) {
        Err(ReadError::ReadFileF(p, e)) => {
            assert_eq!(p, PathBuf::from("p"));
            assert_eq!(e.kind(), io::ErrorKind::InvalidData);
        }
        _ => panic!("expected a read failure"),
    }
}

#[test]
fn reading_error_after_snapshot_is_ignored() {
    let lines = strings(&["# Generated from: [\"a\"]"]);
    let e = io::Error::new(io::ErrorKind::InvalidData, "bad");
    let r = parse_old_aliases(&lines, Some(e), PathBuf::from("p")).ok().unwrap();
    assert_eq!(r, strings(&["a"]));
}

#[test]
fn reading_corrupted_snapshot() {
    let lines = strings(&["# Generated from: [\"a\", oops"]);
    match parse_old_aliases(&lines, None, PathBuf::from("p")) {
        Err(e @ ReadError::FromJsonF(..)) => {
            assert_eq!(e.message(), "Failed to parse the list of old aliases as JSON in 'p'");
        }
        _ => panic!("expected a parse failure"),
    }
}

#[test]
fn reading_empty_snapshot_payload_fails() {
    let lines = strings(&["# Generated from: "]);
    assert!(matches!(
        parse_old_aliases(&lines, None, PathBuf::from("p")),
        Err(ReadError::FromJsonF(..))
    ));
}

#[test]
fn open_failure_not_found_is_told_apart() {
    let e = io::Error::new(io::ErrorKind::NotFound, "gone");
    match IoF(PathBuf::from("f"), e, true) {
        ReadError::NoFileF(p) => assert_eq!(p, PathBuf::from("f")),
        _ => panic!("expected a missing file"),
    }
    let e = io::Error::new(io::ErrorKind::PermissionDenied, "no");
    match IoF(PathBuf::from("f"), e, false) {
        ReadError::ReadFileF(p, e) => {
            assert_eq!(p, PathBuf::from("f"));
            assert_eq!(e.kind(), io::ErrorKind::PermissionDenied);
        }
        _ => panic!("expected a read failure"),
    }
}

#[test]
fn read_error_messages() {
    let p = || PathBuf::from("/h/a.bash");
    let e = || io::Error::new(io::ErrorKind::Other, "x");
    assert_eq!(
        ReadError::FindFileF.message(),
        "Failed to find aliases file because the home directory could not be determined"
    );
    assert_eq!(ReadError::NoFileF(p()).message(), "Aliases file '/h/a.bash' doesn't exist");
    assert_eq!(
        ReadError::ReadFileF(p(), e()).message(),
        "Failed to read from aliases file '/h/a.bash'"
    );
    assert_eq!(
        ReadError::NoJsonLine(p()).message(),
        "\"Generated from\" line not found in aliases file '/h/a.bash'"
    );
}

#[test]
fn write_error_messages() {
    let p = || PathBuf::from("/h/a.bash");
    assert_eq!(
        WriteError::FindFileF.message(),
        "Failed to find aliases file because the home directory could not be determined"
    );
    assert_eq!(
        WriteError::WriteFileF(p(), io::Error::new(io::ErrorKind::Other, "x")).message(),
        "Failed to write to aliases file '/h/a.bash'"
    );
    assert_eq!(
        WriteError::PathNotUtf8(p()).message(),
        "Aliases path '/h/a.bash' is not valid utf8"
    );
    assert_eq!(
        WriteError::FindFileF.message_with("ignored"),
        "Failed to find aliases file because the home directory could not be determined"
    );
}

#[test]
fn scenario_previous_ab_current_bc() {
    let (drop, add) = reconcile(Some(strings(&["a", "b"])), &strings(&["b", "c"]));
    assert_eq!(drop, Some(strings(&["a"])));
    assert_eq!(add, Some(strings(&["c"])));
    let text = written_text(&["b", "c"]);
    assert_eq!(read_back(&text), strings(&["b", "c"]));
    let notices = reload_notices(&drop, &add, "/h/aliases.bash");
    assert_eq!(
        notices,
        strings(&[
            "New aliases written to '/h/aliases.bash'",
            "The following aliases have been removed: 'a'",
            "They are still loaded so unalias them by hand",
        ])
    );
}

#[test]
fn scenario_no_prior_file() {
    let lines: Vec<String> = Vec::new();
    let e = io::Error::new(io::ErrorKind::NotFound, "gone");
    let previous = match IoF(PathBuf::from("/h/aliases.bash"), e, true) {
        ReadError::NoFileF(_) => None,
        _ => Some(lines),
    };
    let messages = reload_messages(previous, &strings(&["x"]), "/h/aliases.bash");
    assert_eq!(messages, strings(&["Aliases written to '/h/aliases.bash'"]));
    assert_eq!(read_back(&written_text(&["x"])), strings(&["x"]));
}

#[test]
fn scenario_corrupted_snapshot() {
    let lines = strings(&[
        "# Generated by switchable, modifications will be overwritten",
        "# Generated from: [\"a\",,]",
    ]);
    let read = parse_old_aliases(&lines, None, PathBuf::from("/h/aliases.bash"));
    let previous = match read {
        Ok(v) => Some(v),
        Err(e) => {
            assert_eq!(
                e.message(),
                "Failed to parse the list of old aliases as JSON in '/h/aliases.bash'"
            );
            None
        }
    };
    assert!(previous.is_none());
    let text = written_text(&["a"]);
    assert_eq!(read_back(&text), strings(&["a"]));
    let messages = reload_messages(previous, &strings(&["a"]), "/h/aliases.bash");
    assert_eq!(messages, strings(&["Aliases written to '/h/aliases.bash'"]));
}

#[test]
fn empty_boundary_without_previous() {
    let (drop, add) = reconcile(None, &Vec::new());
    assert!(drop.is_none() && add.is_none());
    assert_eq!(
        reload_messages(None, &Vec::new(), "f"),
        strings(&["Aliases written to 'f'"])
    );
}

#[test]
fn empty_boundary_with_empty_previous() {
    let (drop, add) = reconcile(Some(Vec::new()), &Vec::new());
    assert_eq!(drop, Some(Vec::new()));
    assert_eq!(add, Some(Vec::new()));
    assert_eq!(
        reload_messages(Some(Vec::new()), &Vec::new(), "f"),
        strings(&["Aliases written to 'f'"])
    );
}

#[test]
fn rewriting_unchanged_configuration_reports_nothing() {
    let current = strings(&["glxgears", "vkcube", "blender"]);
    let first = written_text(&["glxgears", "vkcube", "blender"]);
    let previous = read_back(&first);
    let (drop, add) = reconcile(Some(previous.clone()), &current);
    assert_eq!(drop, Some(Vec::new()));
    assert_eq!(add, Some(Vec::new()));
    assert_eq!(
        reload_messages(Some(previous), &current, "f"),
        strings(&["Aliases written to 'f'"])
    );
}

#[test]
fn removal_notice_lists_every_name() {
    let notices = reload_notices(&Some(strings(&["a", "b", "c"])), &Some(Vec::new()), "f");
    assert_eq!(
        notices,
        strings(&[
            "Aliases written to 'f'",
            "The following aliases have been removed: 'a' 'b' 'c'",
            "They are still loaded so unalias them by hand",
        ])
    );
}

#[test]
fn split_lines_keeps_empty_pieces() {
    assert_eq!(split_lines("a\n\nb\n"), strings(&["a", "", "b", ""]));
    assert_eq!(split_lines(""), strings(&[""]));
}

#[test]
fn decode_accepts_json_with_spaces() {
    assert_eq!(decode("# Generated from: [ \"a\" , \"b\" ]").unwrap(), strings(&["a", "b"]));
    let lines = strings(&["# Generated from:  [\"x\"] "]);
    let r = parse_old_aliases(&lines, None, PathBuf::from("p")).ok().unwrap();
    assert_eq!(r, strings(&["x"]));
}

#[test]
fn reload_goes_on_after_corrupted_snapshot() {
    let lines = strings(&["# Generated from: [\"a\",,]"]);
    let previous = parse_old_aliases(&lines, None, PathBuf::from("/h/aliases.bash"));
    let (out, outcome) =
        reload_outcome(previous, &strings(&["a"]), Ok("/h/aliases.bash".to_string()));
    assert_eq!(outcome, Ok("/h/aliases.bash".to_string()));
    assert_eq!(
        out,
        strings(&[
            "Failed to parse the list of old aliases as JSON in '/h/aliases.bash'",
            "Aliases written to '/h/aliases.bash'",
        ])
    );
}

#[test]
fn reload_with_previous_list_reports_changes() {
    let (out, outcome) =
        reload_outcome(Ok(strings(&["a", "b"])), &strings(&["b", "c"]), Ok("f".to_string()));
    assert_eq!(outcome, Ok("f".to_string()));
    assert_eq!(
        out,
        strings(&[
            "New aliases written to 'f'",
            "The following aliases have been removed: 'a'",
            "They are still loaded so unalias them by hand",
        ])
    );
}

#[test]
fn reload_write_failure_is_fatal() {
    let e = io::Error::new(io::ErrorKind::PermissionDenied, "no");
    let written = Err(WriteError::WriteFileF(PathBuf::from("/h/a.bash"), e));
    let previous = Err(ReadError::NoFileF(PathBuf::from("/h/a.bash")));
    let (out, outcome) = reload_outcome(previous, &strings(&["x"]), written);
    assert_eq!(outcome, Err(exitcode::BAD_IO));
    assert_eq!(
        out,
        strings(&[
            "Aliases file '/h/a.bash' doesn't exist",
            "Failed to write to aliases file '/h/a.bash'",
        ])
    );
}
