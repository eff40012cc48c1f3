use jottrace::cli::{
    parse_compact_command, parse_detail_command, parse_events_command, parse_pack_command,
    parse_settle_command, parse_simple_command, parse_taste_export_command,
    parse_taste_extract_command, parse_taste_show_example_command,
    parse_taste_show_timeline_command, parse_web_command, subcommand, top_command,
    EventsSelection, ParsedCommand, SimpleCommand, Subcommand, TopCommand,
};
use jottrace::compact::CompactMode;

fn args(list: &[&str]) -> Vec<String> {
    list.iter().map(|s| s.to_string()).collect()
}

#[test]
fn first_argument_names_the_command() {
    assert_eq!(top_command(None), TopCommand::Help);
    assert_eq!(top_command(Some("-h")), TopCommand::Help);
    assert_eq!(top_command(Some("-V")), TopCommand::Version);
    assert_eq!(top_command(Some("upgrade")), TopCommand::Update);
    assert_eq!(top_command(Some("__jottrace-auto-update")), TopCommand::AutoUpdate);
    assert_eq!(top_command(Some("frobnicate")), TopCommand::Unknown("frobnicate".to_string()));
}

#[test]
fn taste_subcommands_are_recognised() {
    let names = ["extract", "status", "show", "export"];
    assert_eq!(subcommand(None, &names), Subcommand::Help);
    assert_eq!(subcommand(Some("help"), &names), Subcommand::Help);
    assert_eq!(subcommand(Some("show"), &names), Subcommand::Named("show".to_string()));
    assert_eq!(subcommand(Some("nope"), &names), Subcommand::Unknown("nope".to_string()));
}

#[test]
fn events_requires_source_session_and_a_selection() {
    let ok = parse_events_command(&args(&["--source", "claude_cli", "--session", "s1", "--limit", "5"]));
    match ok {
        Ok(ParsedCommand::Run(o)) => {
            assert_eq!(o.source, "claude_cli");
            assert_eq!(o.source_session_id, "s1");
            assert_eq!(o.selection, EventsSelection::Limit(5));
        }
        other => panic!("unexpected: {other:?}"),
    }
    let all = parse_events_command(&args(&["--all", "--source", "a", "--session", "b"]));
    assert!(matches!(all, Ok(ParsedCommand::Run(ref o)) if o.selection == EventsSelection::All));
    assert_eq!(
        parse_events_command(&args(&["--session", "b"])),
        Err("events requires --source <source>".to_string())
    );
    assert_eq!(
        parse_events_command(&args(&["--source", "a", "--session", "b"])),
        Err("events requires --limit <n> or --all".to_string())
    );
    assert_eq!(
        parse_events_command(&args(&["--source", "a", "--session", "b", "--all", "--limit", "2"])),
        Err("events accepts either --limit <n> or --all, not both".to_string())
    );
    assert_eq!(
        parse_events_command(&args(&["--limit", "0"])),
        Err("invalid limit: 0; expected at least 1".to_string())
    );
    assert_eq!(parse_events_command(&args(&["--limit", "x"])), Err("invalid limit: x".to_string()));
    assert_eq!(parse_events_command(&args(&["--limit"])), Err("--limit requires a value".to_string()));
    assert_eq!(parse_events_command(&args(&["--bogus"])), Err("unknown events option: --bogus".to_string()));
    assert_eq!(parse_events_command(&args(&["--bogus", "-h"])), Err("unknown events option: --bogus".to_string()));
    assert_eq!(parse_events_command(&args(&["-h", "--bogus"])), Ok(ParsedCommand::Help));
}

#[test]
fn web_parses_port_and_once() {
    match parse_web_command(&args(&["--port", "8080", "--once"])) {
        Ok(ParsedCommand::Run(o)) => {
            assert_eq!(o.port, 8080);
            assert!(o.once);
        }
        other => panic!("unexpected: {other:?}"),
    }
    assert_eq!(parse_web_command(&args(&["--port", "70000"])), Err("invalid port: 70000".to_string()));
    match parse_web_command(&args(&[])) {
        Ok(ParsedCommand::Run(o)) => {
            assert_eq!(o.port, 0);
            assert!(!o.once);
        }
        other => panic!("unexpected: {other:?}"),
    }
}

#[test]
fn simple_and_detail_commands() {
    assert_eq!(parse_simple_command("update", &args(&[])), Ok(SimpleCommand::Run));
    assert_eq!(parse_simple_command("update", &args(&["--help"])), Ok(SimpleCommand::Help));
    assert_eq!(
        parse_simple_command("update", &args(&["--x"])),
        Err("unknown update option: --x".to_string())
    );
    match parse_detail_command("status", &args(&["--details"])) {
        Ok(ParsedCommand::Run(o)) => assert!(o.details),
        other => panic!("unexpected: {other:?}"),
    }
    assert_eq!(
        parse_detail_command("status", &args(&["--verbose"])),
        Err("unknown status option: --verbose".to_string())
    );
}

#[test]
fn compact_modes_and_batch_sizes() {
    match parse_compact_command(&args(&[])) {
        Ok(ParsedCommand::Run(o)) => {
            assert_eq!(o.compact_options.mode, CompactMode::DryRun);
            assert_eq!(o.compact_options.batch_size, 1000);
            assert!(!o.details);
        }
        other => panic!("unexpected: {other:?}"),
    }
    match parse_compact_command(&args(&["--apply", "--batch-size", "10", "--details"])) {
        Ok(ParsedCommand::Run(o)) => {
            assert_eq!(o.compact_options.mode, CompactMode::Apply);
            assert_eq!(o.compact_options.batch_size, 10);
            assert!(o.details);
        }
        other => panic!("unexpected: {other:?}"),
    }
    assert_eq!(
        parse_compact_command(&args(&["--apply", "--vacuum"])),
        Err("compact accepts only one of --apply or --vacuum".to_string())
    );
    assert_eq!(
        parse_compact_command(&args(&["--batch-size", "5", "--vacuum"])),
        Err("compact --vacuum does not accept --batch-size".to_string())
    );
    assert_eq!(
        parse_compact_command(&args(&["--vacuum", "--batch-size", "5"])),
        Err("compact --vacuum does not accept --batch-size".to_string())
    );
    assert_eq!(
        parse_compact_command(&args(&["--batch-size", "0"])),
        Err("invalid batch size: 0; expected at least 1".to_string())
    );
    assert_eq!(
        parse_compact_command(&args(&["--batch-size", "10001"])),
        Err("invalid batch size: 10001; expected at most 10000".to_string())
    );
}

#[test]
fn pack_and_settle_arguments() {
    match parse_pack_command(&args(&["-o", "out.tar.gz"])) {
        Ok(ParsedCommand::Run(o)) => assert_eq!(o.output.as_deref(), Some("out.tar.gz")),
        other => panic!("unexpected: {other:?}"),
    }
    assert_eq!(parse_pack_command(&args(&["--output"])).err(), Some("--output requires a value".to_string()));
    match parse_settle_command(&args(&["a.tar.gz", "--force"])) {
        Ok(ParsedCommand::Run(o)) => {
            assert_eq!(o.archive, "a.tar.gz");
            assert!(o.force);
        }
        other => panic!("unexpected: {other:?}"),
    }
    assert_eq!(parse_settle_command(&args(&[])).err(), Some("missing archive path".to_string()));
    assert_eq!(
        parse_settle_command(&args(&["a", "b"])).err(),
        Some("unexpected positional argument: b".to_string())
    );
    assert_eq!(
        parse_settle_command(&args(&["--fast"])).err(),
        Some("unknown settle option: --fast".to_string())
    );
}

#[test]
fn taste_argument_parsers() {
    match parse_taste_export_command(&args(&["--format", "jsonl", "--out", "x.jsonl"])) {
        Ok(ParsedCommand::Run(o)) => assert_eq!(o.output_path.as_deref(), Some("x.jsonl")),
        other => panic!("unexpected: {other:?}"),
    }
    assert_eq!(
        parse_taste_export_command(&args(&["--format", "csv"])).err(),
        Some("unsupported export format: csv".to_string())
    );
    assert_eq!(
        parse_taste_export_command(&args(&["--format", "jsonl", "--format", "jsonl"])).err(),
        Some("taste export accepts only one --format value".to_string())
    );
    assert_eq!(
        parse_taste_export_command(&args(&[])).err(),
        Some("taste export requires --format <format>".to_string())
    );
    assert_eq!(
        parse_taste_export_command(&args(&["stray"])).err(),
        Some("unexpected taste export argument: stray".to_string())
    );
    match parse_taste_extract_command(&args(&["--force", "--session", "s"])) {
        Ok(ParsedCommand::Run(o)) => {
            assert!(o.force);
            assert_eq!(o.source_session_id.as_deref(), Some("s"));
        }
        other => panic!("unexpected: {other:?}"),
    }
    match parse_taste_show_example_command(&args(&["toolu_1", "--session", "s"])) {
        Ok(ParsedCommand::Run(o)) => {
            assert_eq!(o.tool_use_id, "toolu_1");
            assert_eq!(o.source_session_id.as_deref(), Some("s"));
        }
        other => panic!("unexpected: {other:?}"),
    }
    assert_eq!(
        parse_taste_show_example_command(&args(&["a", "b"])).err(),
        Some("taste show example accepts only one tool_use_id argument".to_string())
    );
    assert_eq!(
        parse_taste_show_timeline_command(&args(&["--session", "s"])).err(),
        Some("taste show timeline requires --file <path>".to_string())
    );
    match parse_taste_show_timeline_command(&args(&["--file", "f", "--session", "s"])) {
        Ok(ParsedCommand::Run(o)) => {
            assert_eq!(o.source_session_id, "s");
            assert_eq!(o.file_path, "f");
        }
        other => panic!("unexpected: {other:?}"),
    }
}
