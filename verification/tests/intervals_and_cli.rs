use linwatch::cli::{interval_arg_value, invalid_arg, parse_args, CliAction, CliOptions, IntervalReading};
use linwatch::interval::{
    interval_seconds_text, interval_text, parse_interval_index, resolve_interval_index, IntervalUnit,
    DEFAULT_INTERVAL_INDEX, REFRESH_INTERVALS_MS,
};

fn no_reading() -> IntervalReading {
    IntervalReading { as_given: None, after_prefix: None }
}

fn args(items: &[&str]) -> Vec<String> {
    items.iter().map(|s| s.to_string()).collect()
}

#[test]
fn supported_intervals_in_order() {
    assert_eq!(REFRESH_INTERVALS_MS, [500, 750, 1000, 2000, 5000]);
    assert_eq!(REFRESH_INTERVALS_MS[DEFAULT_INTERVAL_INDEX], 750);
}

#[test]
fn interval_in_milliseconds() {
    assert_eq!(parse_interval_index("500ms", None).unwrap(), 0);
    assert_eq!(parse_interval_index("750 ms", None).unwrap(), 1);
    assert_eq!(parse_interval_index("5000ms", Some(1)).unwrap(), 4);
}

#[test]
fn interval_without_unit_is_milliseconds() {
    assert_eq!(parse_interval_index("1000", None).unwrap(), 2);
    assert_eq!(parse_interval_index("+2000", None).unwrap(), 3);
}

#[test]
fn interval_case_and_space_do_not_matter() {
    assert_eq!(parse_interval_index("  500MS\t", None).unwrap(), 0);
    assert_eq!(parse_interval_index("\u{a0}750Ms ", None).unwrap(), 1);
}

#[test]
fn interval_in_seconds_uses_the_reading() {
    assert_eq!(parse_interval_index("1s", Some(1000)).unwrap(), 2);
    assert_eq!(parse_interval_index("0.5S", Some(500)).unwrap(), 0);
    let err = parse_interval_index("2s", None).unwrap_err();
    assert_eq!(err.message, "invalid interval value: 2s");
    let err = parse_interval_index("3s", Some(3000)).unwrap_err();
    assert_eq!(err.message, "unsupported interval: 3s. Supported: 500ms, 750ms, 1s, 2s, 5s");
}

#[test]
fn interval_errors() {
    let err = parse_interval_index("fast", None).unwrap_err();
    assert_eq!(err.message, "invalid interval value: fast");
    let err = parse_interval_index(" 300ms", None).unwrap_err();
    assert_eq!(err.message, "unsupported interval:  300ms. Supported: 500ms, 750ms, 1s, 2s, 5s");
    let err = parse_interval_index("-500ms", None).unwrap_err();
    assert_eq!(err.message, "invalid interval value: -500ms");
    let err = parse_interval_index("", None).unwrap_err();
    assert_eq!(err.message, "invalid interval value: ");
    let err = parse_interval_index("99999999999999999999ms", None).unwrap_err();
    assert_eq!(err.message, "invalid interval value: 99999999999999999999ms");
}

#[test]
fn interval_text_parts() {
    let t = interval_text(" 1.5S ");
    assert_eq!(t.unit, IntervalUnit::Seconds);
    assert_eq!(t.number, "1.5");
    let t = interval_text("20 ms");
    assert_eq!(t.unit, IntervalUnit::Milliseconds);
    assert_eq!(t.number, "20");
    let t = interval_text("ABC");
    assert_eq!(t.unit, IntervalUnit::Bare);
    assert_eq!(t.number, "abc");
}

#[test]
fn seconds_text_only_for_seconds() {
    assert_eq!(interval_seconds_text("0.75s"), Some("0.75".to_string()));
    assert_eq!(interval_seconds_text("750ms"), None);
    assert_eq!(interval_seconds_text("750"), None);
}

#[test]
fn resolve_falls_back_to_default() {
    assert_eq!(resolve_interval_index(None, None), 1);
    assert_eq!(resolve_interval_index(Some("bogus"), None), 1);
    assert_eq!(resolve_interval_index(Some("42ms"), None), 1);
    assert_eq!(resolve_interval_index(Some("5000"), None), 4);
    assert_eq!(resolve_interval_index(Some("2s"), Some(2000)), 3);
}

#[test]
fn invalid_arg_keeps_message() {
    assert_eq!(invalid_arg("bad".to_string()).message, "bad");
}

#[test]
fn cli_no_arguments_runs_with_configured_interval() {
    let a: Vec<String> = vec![];
    let r = parse_args(&a, &vec![], 4).unwrap();
    assert_eq!(r, CliAction::Run(CliOptions { refresh_index: 4, json_once: false, json_pretty: false }));
}

#[test]
fn cli_json_flags() {
    let a = args(&["--json"]);
    let r = parse_args(&a, &vec![], 1).unwrap();
    assert_eq!(r, CliAction::Run(CliOptions { refresh_index: 1, json_once: true, json_pretty: false }));
    let a = args(&["--json-pretty"]);
    let r = parse_args(&a, &vec![], 1).unwrap();
    assert_eq!(r, CliAction::Run(CliOptions { refresh_index: 1, json_once: true, json_pretty: true }));
}

#[test]
fn cli_interval_forms() {
    let a = args(&["-i", "500ms", "--json"]);
    let r = parse_args(&a, &vec![no_reading(); 3], 1).unwrap();
    assert_eq!(r, CliAction::Run(CliOptions { refresh_index: 0, json_once: true, json_pretty: false }));
    let a = args(&["--interval", "2s"]);
    let readings = vec![no_reading(), IntervalReading { as_given: Some(2000), after_prefix: Some(2000) }];
    let r = parse_args(&a, &readings, 1).unwrap();
    assert_eq!(r, CliAction::Run(CliOptions { refresh_index: 3, json_once: false, json_pretty: false }));
    let a = args(&["--interval=5s"]);
    let readings = vec![IntervalReading { as_given: None, after_prefix: Some(5000) }];
    let r = parse_args(&a, &readings, 1).unwrap();
    assert_eq!(r, CliAction::Run(CliOptions { refresh_index: 4, json_once: false, json_pretty: false }));
    let a = args(&["--interval=1000", "-i", "750"]);
    let r = parse_args(&a, &vec![], 0).unwrap();
    assert_eq!(r, CliAction::Run(CliOptions { refresh_index: 1, json_once: false, json_pretty: false }));
}

#[test]
fn cli_help_and_version() {
    assert_eq!(parse_args(&args(&["-h", "--bogus"]), &vec![], 1).unwrap(), CliAction::Help);
    assert_eq!(parse_args(&args(&["--json", "--help"]), &vec![], 1).unwrap(), CliAction::Help);
    assert_eq!(parse_args(&args(&["-V"]), &vec![], 1).unwrap(), CliAction::Version);
    assert_eq!(parse_args(&args(&["--version", "-h"]), &vec![], 1).unwrap(), CliAction::Version);
}

#[test]
fn cli_errors() {
    let e = parse_args(&args(&["-i"]), &vec![], 1).unwrap_err();
    assert_eq!(e.message, "--interval requires a value");
    let e = parse_args(&args(&["--bogus", "-h"]), &vec![], 1).unwrap_err();
    assert_eq!(e.message, "unknown argument: --bogus");
    let e = parse_args(&args(&["--interval=fast"]), &vec![], 1).unwrap_err();
    assert_eq!(e.message, "invalid interval value: fast");
    let e = parse_args(&args(&["-i", "42"]), &vec![], 1).unwrap_err();
    assert_eq!(e.message, "unsupported interval: 42. Supported: 500ms, 750ms, 1s, 2s, 5s");
}

#[test]
fn interval_prefix_removed_repeatedly() {
    assert_eq!(interval_arg_value("--interval=--interval=1s"), "1s");
    assert_eq!(interval_arg_value("--interval=500ms"), "500ms");
    assert_eq!(interval_arg_value("500ms"), "500ms");
}

#[test]
fn law_scenario_supported_intervals_read_back() {
    for (i, ms) in REFRESH_INTERVALS_MS.iter().enumerate() {
        assert_eq!(parse_interval_index(&format!("{ms}ms"), None).unwrap(), i);
        assert_eq!(parse_interval_index(&format!("{ms}"), None).unwrap(), i);
    }
}

#[test]
fn law_scenario_pretty_implies_json() {
    for a in [vec!["--json-pretty"], vec!["--json-pretty", "--json"], vec!["-i", "500ms", "--json-pretty"]] {
        let a = args(&a);
        if let CliAction::Run(o) = parse_args(&a, &vec![], 1).unwrap() {
            assert!(o.json_pretty && o.json_once);
        } else {
            panic!("expected a run");
        }
    }
}
