use std::io;
use std::path::PathBuf;
use switchable::app::{matches_command, parse_providers};
use switchable::commands::{
    choose_driver, config_error_code, config_report_lines, is_reload_command, parse_subcommand,
    plan_run, preexec_lines, say_in_shell, Subcommand,
};
use switchable::config::{ConfigError, FullConfig, RawConfig};
use switchable::exitcode;
use switchable::file::{choose_location, file_name, under, FileType, Location};
use switchable::slang::Metadata;

fn strings(v: &[&str]) -> Vec<String> {
    v.iter().map(|s| s.to_string()).collect()
}

fn config_matching(patterns: &[&str], driver: &str) -> FullConfig {
    FullConfig {
        driver: driver.to_string(),
        match_: strings(patterns),
        alias: Vec::new(),
        preexec: None,
    }
}

#[test]
fn subcommands_by_name() {
    assert_eq!(parse_subcommand("_test"), Some(Subcommand::Test));
    assert_eq!(parse_subcommand("run"), Some(Subcommand::Run));
    assert_eq!(parse_subcommand("init"), Some(Subcommand::Init));
    assert_eq!(parse_subcommand("preexec"), Some(Subcommand::Preexec));
    assert_eq!(parse_subcommand("precmd"), Some(Subcommand::Precmd));
    assert_eq!(parse_subcommand("xrandr"), Some(Subcommand::Xrandr));
    assert_eq!(parse_subcommand("show-config"), Some(Subcommand::ShowConfig));
    assert_eq!(parse_subcommand("reload-aliases"), Some(Subcommand::ReloadAliases));
    assert_eq!(parse_subcommand("reload"), None);
    assert_eq!(parse_subcommand(""), None);
}

#[test]
fn driver_precedence() {
    assert_eq!(choose_driver(Some("2".to_string()), Some("3".to_string())), "2");
    assert_eq!(choose_driver(None, Some("3".to_string())), "3");
    assert_eq!(choose_driver(None, None), "1");
}

#[test]
fn run_plans() {
    assert!(plan_run(true, false, &strings(&["glxgears"])).is_none());
    assert!(plan_run(false, false, &Vec::new()).is_none());
    let (p, a) = plan_run(false, false, &strings(&["glxgears", "-info", "x"])).unwrap();
    assert_eq!(p, "glxgears");
    assert_eq!(a, strings(&["-info", "x"]));
    let (p, a) = plan_run(false, true, &strings(&["echo", "$HOME", "x"])).unwrap();
    assert_eq!(p, "sh");
    assert_eq!(a, strings(&["-c", "echo $HOME x"]));
}

#[test]
fn command_matching_stops_at_first_match() {
    let c = config_matching(&["^glx", "("], "1");
    let Metadata(failed, matched) = matches_command(&c, "glxgears");
    assert!(matched);
    assert!(!failed);
    let c = config_matching(&["(", "^glx"], "1");
    let Metadata(failed, matched) = matches_command(&c, "glxgears");
    assert!(matched);
    assert!(failed);
    let c = config_matching(&["(", "^vk"], "1");
    let Metadata(failed, matched) = matches_command(&c, "glxgears");
    assert!(!matched);
    assert!(failed);
    let c = config_matching(&[], "1");
    let Metadata(failed, matched) = matches_command(&c, "glxgears");
    assert!(!matched && !failed);
}

#[test]
fn reload_command_detection() {
    assert!(is_reload_command("switchable reload-aliases"));
    assert!(is_reload_command("  /usr/bin/switchable   reload-aliases"));
    assert!(is_reload_command("./switchable reload-aliases --now"));
    assert!(!is_reload_command("switchable show-config"));
    assert!(!is_reload_command("echo switchable reload-aliases"));
}

#[test]
fn preexec_output_for_a_match() {
    let c = config_matching(&["^glx"], "it's");
    assert_eq!(
        preexec_lines(Some(&c), "glxgears"),
        strings(&[
            "if [ -n \"${DRI_PRIME+x}\" ]",
            "then",
            "\texport SWITCHABLE_DP_BAK=\"$DRI_PRIME\"",
            "fi",
            "export DRI_PRIME='it'\\''s'",
            "export SWITCHABLE_RAN=1",
        ])
    );
}

#[test]
fn preexec_output_with_invalid_pattern() {
    let c = config_matching(&["[", "^vk"], "1");
    assert_eq!(
        preexec_lines(Some(&c), "glxgears"),
        strings(&[
            "echo 'switchable: Invalid regex found, see `switchable show-config`' >&2",
            "export SWITCHABLE_RAN=1",
        ])
    );
    assert_eq!(preexec_lines(None, "glxgears"), strings(&["export SWITCHABLE_RAN=1"]));
}

#[test]
fn shell_messages() {
    assert_eq!(say_in_shell("Aliases written to 'f'"), "echo 'Aliases written to '\\''f'\\'''");
}

#[test]
fn show_config_report() {
    let raw = RawConfig {
        driver: None,
        match_: Some(strings(&["^glx", "blender"])),
        alias: Some(Vec::new()),
        preexec: Some("/opt/preexec.sh".to_string()),
    };
    assert_eq!(
        config_report_lines("/h/.config/switchable/config.toml", Some("/h/.switchable/config.toml"), &raw),
        strings(&[
            "Configuration file: /h/.config/switchable/config.toml",
            "  (File \"/h/.switchable/config.toml\" was ignored)",
            "",
            "Preexec path: /opt/preexec.sh",
            "Default GPU id: 1 ('driver' not set)",
            "Commands matches:",
            "- ^glx",
            "- blender",
            "Aliases:",
            "  (None defined)",
        ])
    );
    let raw = RawConfig { driver: Some("2".to_string()), match_: None, alias: None, preexec: None };
    assert_eq!(
        config_report_lines("c", None, &raw),
        strings(&[
            "Configuration file: c",
            "",
            "Default GPU id: 2",
            "No commands matches defined in the 'match' key",
            "No aliases defined by the 'alias' key",
        ])
    );
}

#[test]
fn config_error_exit_codes() {
    let p = || PathBuf::from("c");
    assert_eq!(config_error_code(&ConfigError::FindFileF), exitcode::FAIL);
    assert_eq!(config_error_code(&ConfigError::NoFileF(p())), exitcode::BAD_IO);
    let e = io::Error::new(io::ErrorKind::Other, "x");
    assert_eq!(config_error_code(&ConfigError::ReadFileF(p(), e)), exitcode::BAD_IO);
    let parse = toml::from_str::<toml::Table>("= broken").unwrap_err();
    assert_eq!(config_error_code(&ConfigError::ParseF(p(), parse)), exitcode::FAIL);
}

#[test]
fn config_open_failures() {
    let e = io::Error::new(io::ErrorKind::NotFound, "x");
    assert!(matches!(switchable::config::IoF(PathBuf::from("c"), e, true), ConfigError::NoFileF(_)));
    let e = io::Error::new(io::ErrorKind::PermissionDenied, "x");
    match switchable::config::IoF(PathBuf::from("c"), e, false) {
        ConfigError::ReadFileF(p, e) => {
            assert_eq!(p, PathBuf::from("c"));
            assert_eq!(e.kind(), io::ErrorKind::PermissionDenied);
        }
        _ => panic!("expected a read failure"),
    }
}

#[test]
fn defaults_applied() {
    let raw = RawConfig { driver: None, match_: None, alias: None, preexec: None };
    let full = raw.with_defaults(None);
    assert_eq!(full.driver, "1");
    assert!(full.match_.is_empty() && full.alias.is_empty());
    assert!(full.preexec.is_none());
    let raw = RawConfig { driver: None, match_: None, alias: None, preexec: None };
    let full = raw.with_defaults(Some(PathBuf::from("/home/u")));
    assert_eq!(full.preexec, Some(PathBuf::from("/home/u/.bash-preexec.sh")));
    let raw = RawConfig {
        driver: Some("2".to_string()),
        match_: Some(strings(&["x"])),
        alias: Some(strings(&["y"])),
        preexec: Some("/p.sh".to_string()),
    };
    let full = raw.with_defaults(Some(PathBuf::from("/home/u")));
    assert_eq!(full.driver, "2");
    assert_eq!(full.match_, strings(&["x"]));
    assert_eq!(full.alias, strings(&["y"]));
    assert_eq!(full.preexec, Some(PathBuf::from("/p.sh")));
    let raw = RawConfig { driver: None, match_: None, alias: None, preexec: Some("/q".to_string()) };
    assert_eq!(raw.set_defaults().preexec, Some(PathBuf::from("/q")));
}

#[test]
fn location_choice() {
    assert_eq!(choose_location(Some(true), Some(true)), Some(Location::Xdg));
    assert_eq!(choose_location(Some(false), Some(true)), Some(Location::Dot));
    assert_eq!(choose_location(Some(false), Some(false)), Some(Location::Xdg));
    assert_eq!(choose_location(Some(true), Some(false)), Some(Location::Xdg));
    assert_eq!(choose_location(Some(false), None), Some(Location::Xdg));
    assert_eq!(choose_location(None, Some(false)), Some(Location::Dot));
    assert_eq!(choose_location(None, None), None);
}

#[test]
fn paths_under_a_base() {
    assert_eq!(
        under(Some(PathBuf::from("/h")), ".switchable", file_name(FileType::Aliases)),
        Some(PathBuf::from("/h/.switchable/aliases.bash"))
    );
    assert_eq!(file_name(FileType::Config), "config.toml");
    assert_eq!(under(None, "d", "f"), None);
}

#[test]
fn providers_from_xrandr_output() {
    let out = "Providers: number : 2\n\
               Provider 0: id: 0x47 cap: 0xb, Source Output crtcs: 3 name: Intel HD; extra\n\
               Provider 1: id: 0x5c cap: 0x7 name: AMD Radeon\n\
               Provider 2: id: 0x60 name:NoSpace\n";
    assert_eq!(
        parse_providers(out),
        vec![
            ("0".to_string(), "Intel HD".to_string()),
            ("1".to_string(), "AMD Radeon".to_string()),
        ]
    );
    assert!(parse_providers("").is_empty());
}

#[test]
fn config_error_messages() {
    assert_eq!(
        ConfigError::FindFileF.message_with(""),
        "Failed to find configuration file because the home directory could not be determined"
    );
    assert_eq!(
        ConfigError::NoFileF(PathBuf::from("c")).message_with("\"/h/c.toml\""),
        "Configuration file \"/h/c.toml\" doesn't exist"
    );
    let e = io::Error::new(io::ErrorKind::Other, "x");
    assert_eq!(
        ConfigError::ReadFileF(PathBuf::from("c"), e).message_with("\"c\""),
        "Failed to read from configuration file \"c\""
    );
    let parse = toml::from_str::<toml::Table>("= broken").unwrap_err();
    assert_eq!(
        ConfigError::ParseF(PathBuf::from("c"), parse).message_with("\"c\""),
        "Failed to parse configuration file \"c\""
    );
}
