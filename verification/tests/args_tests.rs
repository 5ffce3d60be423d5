use binsize::args::{Argument, ArgumentKind, ArgumentParser, UnexpectedArgumentPolicy};

fn parser(policy: UnexpectedArgumentPolicy) -> ArgumentParser {
    ArgumentParser::new(
        vec![
            Argument::new_flag("help", &["--help", "-h"], "Display help message"),
            Argument::new_value(
                "profile",
                &["--profile", "-p"],
                &["PROFILE"],
                "Cargo profile to build the project with",
            ),
            Argument::new_value(
                "size-threshold",
                &["--size-threshold"],
                &["YELLOW", "RED"],
                "Yellow & red size thresholds in bytes",
            ),
        ],
        policy,
    )
}

fn strings(xs: &[&str]) -> Vec<String> {
    xs.iter().map(|s| s.to_string()).collect()
}

#[test]
fn flags_and_values_parse_in_order() {
    let p = parser(UnexpectedArgumentPolicy::Save);
    let tokens = strings(&["--profile", "release", "extra", "-h"]);
    assert!(p.can_parse(&tokens));
    let parsed = p.parse(tokens);
    assert_eq!(parsed.args.len(), 2);
    assert_eq!(parsed.args[0].name, "profile");
    assert_eq!(parsed.args[0].values, vec!["release".to_string()]);
    assert_eq!(parsed.args[1].name, "help");
    assert_eq!(parsed.args[1].values.len(), 0);
    assert_eq!(parsed.leftover, vec!["extra".to_string()]);
}

#[test]
fn multi_valued_argument_consumes_each_value() {
    let p = parser(UnexpectedArgumentPolicy::Crash);
    let tokens = strings(&["--size-threshold", "200", "500"]);
    assert!(p.can_parse(&tokens));
    let parsed = p.parse(tokens);
    assert_eq!(parsed.args.len(), 1);
    assert_eq!(parsed.args[0].name, "size-threshold");
    assert_eq!(parsed.args[0].values, strings(&["200", "500"]));
}

#[test]
fn ignore_policy_drops_unknown_tokens() {
    let p = parser(UnexpectedArgumentPolicy::Ignore);
    let tokens = strings(&["wat", "-h", "wat2"]);
    assert!(p.can_parse(&tokens));
    let parsed = p.parse(tokens);
    assert_eq!(parsed.args.len(), 1);
    assert_eq!(parsed.args[0].name, "help");
    assert_eq!(parsed.leftover.len(), 0);
}

#[test]
fn crash_policy_refuses_unknown_tokens() {
    let p = parser(UnexpectedArgumentPolicy::Crash);
    assert!(!p.can_parse(&strings(&["--unknown"])));
    assert!(p.can_parse(&strings(&["-h"])));
}

#[test]
fn missing_value_cannot_be_parsed() {
    let p = parser(UnexpectedArgumentPolicy::Crash);
    assert!(!p.can_parse(&strings(&["--profile"])));
    assert!(!p.can_parse(&strings(&["--size-threshold", "200"])));
}

#[test]
fn help_table_holds_keys_and_descriptions() {
    let p = parser(UnexpectedArgumentPolicy::Crash);
    let table = p.help_table();
    assert_eq!(table.rows().len(), 3);
    let row = table.rows()[0].values();
    assert_eq!(row.len(), 4);
    assert_eq!(row[0].string(), "    ");
    assert_eq!(row[1].string(), "--help, -h ");
    assert_eq!(row[2].string(), " - ");
    assert_eq!(row[3].string(), "Display help message");
    let row = table.rows()[1].values();
    assert_eq!(row[1].string(), "--profile, -p PROFILE");
}

#[test]
fn argument_kinds_are_distinct() {
    assert!(ArgumentKind::Flag != ArgumentKind::Value);
}
