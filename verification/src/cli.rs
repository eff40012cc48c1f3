//! The command line: which command the arguments name, and the options each
//! command's arguments parse to, or the usage error they are refused with.
//!
//! Each parser reads the arguments left to right; `--help` or `-h` anywhere
//! before an error asks for the command's help instead.
use vstd::prelude::*;

use crate::compact::{CompactMode, CompactOptions, DEFAULT_COMPACT_BATCH_SIZE, MAX_COMPACT_BATCH_SIZE};
use crate::taste::export::{TasteExportFormat, TasteExportOptions};
use crate::taste::extract::TasteExtractOptions;
use crate::taste::show::{TasteShowExampleOptions, TasteShowTimelineOptions};
use crate::text::{
    chars_of, decimal, owned, parse_i64, parse_i64_spec, parse_u64, parse_u64_spec, parse_usize,
    parse_usize_spec, push_str, str_eq, string_from_chars,
};

verus! {

/// Run the command with these options, or print its help.
#[derive(Debug, Clone, PartialEq, Eq)]
pub enum ParsedCommand<T> {
    Run(T),
    Help,
}

pub open spec fn is_help_flag(a: Seq<char>) -> bool {
    a == "--help"@ || a == "-h"@
}

fn is_help_arg(a: &str) -> (r: bool)
    ensures
        r == is_help_flag(a@),
{
    str_eq(a, "--help") || str_eq(a, "-h")
}

fn concat2(a: &str, b: &str) -> (r: String)
    ensures
        r@ == a@ + b@,
{
    let mut out: Vec<char> = Vec::new();
    push_str(&mut out, a);
    push_str(&mut out, b);
    proof {
        assert(out@ =~= a@ + b@);
    }
    string_from_chars(out.as_slice())
}

fn concat3(a: &str, b: &str, c: &str) -> (r: String)
    ensures
        r@ == a@ + b@ + c@,
{
    let mut out: Vec<char> = Vec::new();
    push_str(&mut out, a);
    push_str(&mut out, b);
    push_str(&mut out, c);
    proof {
        assert(out@ =~= a@ + b@ + c@);
    }
    string_from_chars(out.as_slice())
}

/// `"{flag} requires a value"`.
pub open spec fn missing_value(flag: Seq<char>) -> Seq<char> {
    flag + " requires a value"@
}

/// `"{command} accepts only one {flag} value"`.
pub open spec fn repeated_flag(command: Seq<char>, flag: Seq<char>) -> Seq<char> {
    command + " accepts only one "@ + flag + " value"@
}

/// The argument after position `i`, or the error for a flag without a value.
pub fn next_flag_value(args: &[String], i: usize, flag: &str) -> (r: Result<String, String>)
    requires
        i < args.len(),
    ensures
        i + 1 < args.len() ==> r is Ok && r->Ok_0@ == args@[i + 1]@,
        i + 1 >= args.len() ==> r is Err && r->Err_0@ == missing_value(flag@),
{
    if i + 1 < args.len() {
        Ok(owned(args[i + 1].as_str()))
    } else {
        Err(concat2(flag, " requires a value"))
    }
}

/// The value of a flag that may be given once: a missing value is reported
/// before a repeated flag.
pub fn take_single_flag_value(args: &[String], i: usize, flag: &str, command: &str, already_set: bool) -> (r:
    Result<String, String>)
    requires
        i < args.len(),
    ensures
        i + 1 >= args.len() ==> r is Err && r->Err_0@ == missing_value(flag@),
        i + 1 < args.len() && already_set ==> r is Err && r->Err_0@ == repeated_flag(command@, flag@),
        i + 1 < args.len() && !already_set ==> r is Ok && r->Ok_0@ == args@[i + 1]@,
{
    let value = next_flag_value(args, i, flag)?;
    if already_set {
        let mut out: Vec<char> = Vec::new();
        push_str(&mut out, command);
        push_str(&mut out, " accepts only one ");
        push_str(&mut out, flag);
        push_str(&mut out, " value");
        proof {
            assert(out@ =~= repeated_flag(command@, flag@));
        }
        return Err(string_from_chars(out.as_slice()));
    }
    Ok(value)
}

// ---------------------------------------------------------------------------
// The command
// ---------------------------------------------------------------------------
/// What the first argument asks for.
#[derive(Debug, Clone, PartialEq, Eq)]
pub enum TopCommand {
    Help,
    Version,
    Compact,
    Doctor,
    Events,
    Ingest,
    Pack,
    Settle,
    Status,
    Taste,
    Update,
    Web,
    /// The background auto-update check the binary starts in itself.
    AutoUpdate,
    Unknown(String),
}

/// The number of the command a first argument names: 0 help, 1 version,
/// 2 compact, 3 doctor, 4 events, 5 ingest, 6 pack, 7 settle, 8 status,
/// 9 taste, 10 update, 11 web, 12 the background auto-update, 13 unknown.
pub open spec fn top_code(c: Seq<char>) -> int {
    if c == "--help"@ || c == "-h"@ {
        0
    } else if c == "--version"@ || c == "-V"@ {
        1
    } else if c == "compact"@ {
        2
    } else if c == "doctor"@ {
        3
    } else if c == "events"@ {
        4
    } else if c == "ingest"@ {
        5
    } else if c == "pack"@ {
        6
    } else if c == "settle"@ {
        7
    } else if c == "status"@ {
        8
    } else if c == "taste"@ {
        9
    } else if c == "update"@ || c == "upgrade"@ {
        10
    } else if c == "web"@ {
        11
    } else if c == crate::update::AUTO_UPDATE_COMMAND@ {
        12
    } else {
        13
    }
}

pub open spec fn top_view(t: TopCommand) -> int {
    match t {
        TopCommand::Help => 0,
        TopCommand::Version => 1,
        TopCommand::Compact => 2,
        TopCommand::Doctor => 3,
        TopCommand::Events => 4,
        TopCommand::Ingest => 5,
        TopCommand::Pack => 6,
        TopCommand::Settle => 7,
        TopCommand::Status => 8,
        TopCommand::Taste => 9,
        TopCommand::Update => 10,
        TopCommand::Web => 11,
        TopCommand::AutoUpdate => 12,
        TopCommand::Unknown(_) => 13,
    }
}

/// The command the first argument names; anything else is an unknown command.
pub fn top_command(first: Option<&str>) -> (r: TopCommand)
    ensures
        match first {
            None => r == TopCommand::Help,
            Some(c) => top_view(r) == top_code(c@) && (r is Unknown ==> r->Unknown_0@ == c@),
        },
{
    let c = match first {
        None => {
            return TopCommand::Help;
        },
        Some(c) => c,
    };
    if str_eq(c, "--help") || str_eq(c, "-h") {
        TopCommand::Help
    } else if str_eq(c, "--version") || str_eq(c, "-V") {
        TopCommand::Version
    } else if str_eq(c, "compact") {
        TopCommand::Compact
    } else if str_eq(c, "doctor") {
        TopCommand::Doctor
    } else if str_eq(c, "events") {
        TopCommand::Events
    } else if str_eq(c, "ingest") {
        TopCommand::Ingest
    } else if str_eq(c, "pack") {
        TopCommand::Pack
    } else if str_eq(c, "settle") {
        TopCommand::Settle
    } else if str_eq(c, "status") {
        TopCommand::Status
    } else if str_eq(c, "taste") {
        TopCommand::Taste
    } else if str_eq(c, "update") || str_eq(c, "upgrade") {
        TopCommand::Update
    } else if str_eq(c, "web") {
        TopCommand::Web
    } else if crate::update::is_auto_update_command(c) {
        TopCommand::AutoUpdate
    } else {
        TopCommand::Unknown(owned(c))
    }
}

/// A subcommand of `taste` or of `taste show`.
#[derive(Debug, Clone, PartialEq, Eq)]
pub enum Subcommand {
    Help,
    Named(String),
    Unknown(String),
}

/// The subcommand `first` names among `names`; none, `help`, `--help` and
/// `-h` ask for help.
pub open spec fn subcommand_spec(first: Option<Seq<char>>, names: Seq<Seq<char>>) -> Option<(bool, Seq<char>)> {
    match first {
        None => None,
        Some(c) => if c == "help"@ || c == "--help"@ || c == "-h"@ {
            None
        } else {
            Some((names.contains(c), c))
        },
    }
}

pub fn subcommand(first: Option<&str>, names: &[&str]) -> (r: Subcommand)
    ensures
        match subcommand_spec(
            match first {
                Some(c) => Some(c@),
                None => None,
            },
            names@.map_values(|n: &str| n@),
        ) {
            None => r == Subcommand::Help,
            Some((true, c)) => r is Named && r->Named_0@ == c,
            Some((false, c)) => r is Unknown && r->Unknown_0@ == c,
        },
{
    let c = match first {
        None => {
            return Subcommand::Help;
        },
        Some(c) => c,
    };
    if str_eq(c, "help") || str_eq(c, "--help") || str_eq(c, "-h") {
        return Subcommand::Help;
    }
    let ghost ns = names@.map_values(|n: &str| n@);
    let mut i: usize = 0;
    while i < names.len()
        invariant
            i <= names.len(),
            ns == names@.map_values(|n: &str| n@),
            forall|j: int| 0 <= j < i ==> ns[j] != c@,
            first == Some(c),
            !(c@ == "help"@ || c@ == "--help"@ || c@ == "-h"@),
        decreases names.len() - i,
    {
        if str_eq(names[i], c) {
            proof {
                assert(ns[i as int] == c@);
                assert(ns.contains(c@));
            }
            return Subcommand::Named(owned(c));
        }
        i = i + 1;
    }
    proof {
        assert(!ns.contains(c@));
    }
    Subcommand::Unknown(owned(c))
}

// ---------------------------------------------------------------------------
// events
// ---------------------------------------------------------------------------
#[derive(Debug, Clone, PartialEq, Eq)]
pub enum EventsSelection {
    All,
    Limit(i64),
}

#[derive(Debug, Clone, PartialEq, Eq)]
pub struct EventsOptions {
    pub source: String,
    pub source_session_id: String,
    pub selection: EventsSelection,
}

/// What `events` has read so far.
pub struct EventsScan {
    pub source: Option<Seq<char>>,
    pub session: Option<Seq<char>>,
    pub limit: Option<i64>,
    pub all: bool,
}

/// Reads `events` arguments from position `i`: `Ok(None)` asks for help.
pub open spec fn events_scan(args: Seq<String>, i: int, st: EventsScan) -> Result<Option<EventsScan>, Seq<char>>
    decreases args.len() - i,
{
    if i < 0 || i >= args.len() {
        Ok(Some(st))
    } else {
        let a = args[i]@;
        if is_help_flag(a) {
            Ok(None)
        } else if a == "--all"@ {
            events_scan(args, i + 1, EventsScan { all: true, ..st })
        } else if a == "--source"@ || a == "--session"@ || a == "--limit"@ {
            if i + 1 >= args.len() {
                Err(missing_value(a))
            } else {
                let v = args[i + 1]@;
                if a == "--source"@ {
                    events_scan(args, i + 2, EventsScan { source: Some(v), ..st })
                } else if a == "--session"@ {
                    events_scan(args, i + 2, EventsScan { session: Some(v), ..st })
                } else {
                    match parse_i64_spec(v) {
                        None => Err("invalid limit: "@ + v),
                        Some(n) => if n < 1 {
                            Err("invalid limit: "@ + v + "; expected at least 1"@)
                        } else {
                            events_scan(args, i + 2, EventsScan { limit: Some(n), ..st })
                        },
                    }
                }
            }
        } else {
            Err("unknown events option: "@ + a)
        }
    }
}

pub open spec fn events_view(o: EventsOptions) -> (Seq<char>, Seq<char>, Option<i64>) {
    (
        o.source@,
        o.source_session_id@,
        match o.selection {
            EventsSelection::All => None,
            EventsSelection::Limit(n) => Some(n),
        },
    )
}

/// The options `events` arguments give: a source, a session, and either a
/// limit of at least 1 or `--all`.
pub open spec fn events_spec(args: Seq<String>) -> Result<Option<(Seq<char>, Seq<char>, Option<i64>)>, Seq<char>> {
    match events_scan(args, 0, EventsScan { source: None, session: None, limit: None, all: false }) {
        Err(m) => Err(m),
        Ok(None) => Ok(None),
        Ok(Some(st)) => match (st.source, st.session) {
            (None, _) => Err("events requires --source <source>"@),
            (Some(_), None) => Err("events requires --session <source_session_id>"@),
            (Some(source), Some(session)) => if st.all && st.limit is Some {
                Err("events accepts either --limit <n> or --all, not both"@)
            } else if st.all {
                Ok(Some((source, session, None)))
            } else if st.limit is Some {
                Ok(Some((source, session, st.limit)))
            } else {
                Err("events requires --limit <n> or --all"@)
            },
        },
    }
}

pub open spec fn parsed_view<T, V>(r: Result<ParsedCommand<T>, String>, f: spec_fn(T) -> V) -> Result<Option<V>, Seq<char>> {
    match r {
        Ok(ParsedCommand::Run(t)) => Ok(Some(f(t))),
        Ok(ParsedCommand::Help) => Ok(None),
        Err(m) => Err(m@),
    }
}

fn copy_opt_seq(o: &Option<String>) -> (r: Option<String>)
    ensures
        crate::text::opt_view(r) == crate::text::opt_view(*o),
{
    match o {
        Some(s) => Some(owned(s.as_str())),
        None => None,
    }
}

/// Parses the arguments of `events` (see `events_spec`).
pub fn parse_events_command(args: &[String]) -> (r: Result<ParsedCommand<EventsOptions>, String>)
    ensures
        parsed_view(r, |o: EventsOptions| events_view(o)) == events_spec(args@),
{
    let mut source: Option<String> = None;
    let mut session: Option<String> = None;
    let mut limit: Option<i64> = None;
    let mut all = false;
    let mut i: usize = 0;
    let ghost init = EventsScan { source: None, session: None, limit: None, all: false };
    while i < args.len()
        invariant
            i <= args.len(),
            init == (EventsScan { source: None, session: None, limit: None, all: false }),
            events_scan(args@, 0, init) == events_scan(
                args@,
                i as int,
                EventsScan {
                    source: crate::text::opt_view(source),
                    session: crate::text::opt_view(session),
                    limit,
                    all,
                },
            ),
        decreases args.len() - i,
    {
        let a = args[i].as_str();
        proof {
            assert(a@ == args@[i as int]@);
        }
        if is_help_arg(a) {
            proof {
                let st = EventsScan {
                    source: crate::text::opt_view(source),
                    session: crate::text::opt_view(session),
                    limit,
                    all,
                };
                assert(events_scan(args@, i as int, st) == Ok::<Option<EventsScan>, Seq<char>>(None));
            }
            return Ok(ParsedCommand::Help);
        } else if str_eq(a, "--all") {
            all = true;
            i = i + 1;
        } else if str_eq(a, "--source") {
            let v = next_flag_value(args, i, "--source")?;
            source = Some(v);
            i = i + 2;
        } else if str_eq(a, "--session") {
            let v = next_flag_value(args, i, "--session")?;
            session = Some(v);
            i = i + 2;
        } else if str_eq(a, "--limit") {
            let v = next_flag_value(args, i, "--limit")?;
            let vc = chars_of(v.as_str());
            let parsed = match parse_i64(vc.as_slice()) {
                Some(n) => n,
                None => {
                    return Err(concat2("invalid limit: ", v.as_str()));
                },
            };
            if parsed < 1 {
                return Err(concat3("invalid limit: ", v.as_str(), "; expected at least 1"));
            }
            limit = Some(parsed);
            i = i + 2;
        } else {
            return Err(concat2("unknown events option: ", a));
        }
    }
    let source = match source {
        Some(s) => s,
        None => {
            return Err(owned("events requires --source <source>"));
        },
    };
    let source_session_id = match session {
        Some(s) => s,
        None => {
            return Err(owned("events requires --session <source_session_id>"));
        },
    };
    let selection = match (all, limit) {
        (true, Some(_)) => {
            return Err(owned("events accepts either --limit <n> or --all, not both"));
        },
        (true, None) => EventsSelection::All,
        (false, Some(n)) => EventsSelection::Limit(n),
        (false, None) => {
            return Err(owned("events requires --limit <n> or --all"));
        },
    };
    Ok(ParsedCommand::Run(EventsOptions { source, source_session_id, selection }))
}

// ---------------------------------------------------------------------------
// web
// ---------------------------------------------------------------------------
#[derive(Debug, Clone, Copy, PartialEq, Eq, Structural)]
pub struct WebOptions {
    pub port: u16,
    pub once: bool,
}

/// `u16::from_str`.
pub open spec fn parse_u16_spec(s: Seq<char>) -> Option<u16> {
    match parse_u64_spec(s) {
        Some(v) => if v <= 65535 {
            Some(v as u16)
        } else {
            None
        },
        None => None,
    }
}

/// Reads `web` arguments: `--once`, and `--port` with a port number.
pub open spec fn web_scan(args: Seq<String>, i: int, st: WebOptions) -> Result<Option<WebOptions>, Seq<char>>
    decreases args.len() - i,
{
    if i < 0 || i >= args.len() {
        Ok(Some(st))
    } else {
        let a = args[i]@;
        if is_help_flag(a) {
            Ok(None)
        } else if a == "--once"@ {
            web_scan(args, i + 1, WebOptions { once: true, ..st })
        } else if a == "--port"@ {
            if i + 1 >= args.len() {
                Err(missing_value(a))
            } else {
                match parse_u16_spec(args[i + 1]@) {
                    Some(p) => web_scan(args, i + 2, WebOptions { port: p, ..st }),
                    None => Err("invalid port: "@ + args[i + 1]@),
                }
            }
        } else {
            Err("unknown web option: "@ + a)
        }
    }
}

/// Parses the arguments of `web`: port 0 (any free port) and serving until
/// stopped unless told otherwise.
pub fn parse_web_command(args: &[String]) -> (r: Result<ParsedCommand<WebOptions>, String>)
    ensures
        parsed_view(r, |o: WebOptions| o) == web_scan(args@, 0, WebOptions { port: 0, once: false }),
{
    let mut options = WebOptions { port: 0, once: false };
    let mut i: usize = 0;
    while i < args.len()
        invariant
            i <= args.len(),
            web_scan(args@, 0, WebOptions { port: 0, once: false }) == web_scan(args@, i as int, options),
        decreases args.len() - i,
    {
        let a = args[i].as_str();
        proof {
            assert(a@ == args@[i as int]@);
        }
        if is_help_arg(a) {
            return Ok(ParsedCommand::Help);
        } else if str_eq(a, "--once") {
            options.once = true;
            i = i + 1;
        } else if str_eq(a, "--port") {
            let v = next_flag_value(args, i, "--port")?;
            let vc = chars_of(v.as_str());
            let port = match parse_u64(vc.as_slice()) {
                Some(p) => if p <= 65535 {
                    p as u16
                } else {
                    return Err(concat2("invalid port: ", v.as_str()));
                },
                None => {
                    return Err(concat2("invalid port: ", v.as_str()));
                },
            };
            options.port = port;
            i = i + 2;
        } else {
            return Err(concat2("unknown web option: ", a));
        }
    }
    Ok(ParsedCommand::Run(options))
}

// ---------------------------------------------------------------------------
// Commands without options, and those with `--details` only
// ---------------------------------------------------------------------------
#[derive(Debug, Clone, Copy, PartialEq, Eq, Structural)]
pub enum SimpleCommand {
    Run,
    Help,
}

/// A command that takes no option: nothing runs it, `--help`/`-h` asks for
/// help, and the first other argument is refused (later ones are not read).
pub fn parse_simple_command(command: &str, args: &[String]) -> (r: Result<SimpleCommand, String>)
    ensures
        args.len() == 0 ==> r == Ok::<SimpleCommand, String>(SimpleCommand::Run),
        args.len() > 0 && is_help_flag(args@[0]@) ==> r == Ok::<SimpleCommand, String>(SimpleCommand::Help),
        args.len() > 0 && !is_help_flag(args@[0]@) ==> r is Err && r->Err_0@ == "unknown "@ + command@
            + " option: "@ + args@[0]@,
{
    if args.len() == 0 {
        return Ok(SimpleCommand::Run);
    }
    let a = args[0].as_str();
    if is_help_arg(a) {
        Ok(SimpleCommand::Help)
    } else {
        let mut out: Vec<char> = Vec::new();
        push_str(&mut out, "unknown ");
        push_str(&mut out, command);
        push_str(&mut out, " option: ");
        push_str(&mut out, a);
        proof {
            assert(out@ =~= "unknown "@ + command@ + " option: "@ + args@[0]@);
        }
        Err(string_from_chars(out.as_slice()))
    }
}

#[derive(Debug, Clone, Copy, PartialEq, Eq, Structural)]
pub struct DetailOptions {
    pub details: bool,
}

/// Reads arguments that may only be `--details`.
pub open spec fn detail_scan(command: Seq<char>, args: Seq<String>, i: int, details: bool) -> Result<Option<bool>, Seq<char>>
    decreases args.len() - i,
{
    if i < 0 || i >= args.len() {
        Ok(Some(details))
    } else if is_help_flag(args[i]@) {
        Ok(None)
    } else if args[i]@ == "--details"@ {
        detail_scan(command, args, i + 1, true)
    } else {
        Err("unknown "@ + command + " option: "@ + args[i]@)
    }
}

/// Parses the arguments of a command whose only option is `--details`.
pub fn parse_detail_command(command: &str, args: &[String]) -> (r: Result<ParsedCommand<DetailOptions>, String>)
    ensures
        parsed_view(r, |o: DetailOptions| o.details) == detail_scan(command@, args@, 0, false),
{
    let mut details = false;
    let mut i: usize = 0;
    while i < args.len()
        invariant
            i <= args.len(),
            detail_scan(command@, args@, 0, false) == detail_scan(command@, args@, i as int, details),
        decreases args.len() - i,
    {
        let a = args[i].as_str();
        proof {
            assert(a@ == args@[i as int]@);
        }
        if is_help_arg(a) {
            return Ok(ParsedCommand::Help);
        } else if str_eq(a, "--details") {
            details = true;
        } else {
            let mut out: Vec<char> = Vec::new();
            push_str(&mut out, "unknown ");
            push_str(&mut out, command);
            push_str(&mut out, " option: ");
            push_str(&mut out, a);
            proof {
                assert(out@ =~= "unknown "@ + command@ + " option: "@ + a@);
            }
            return Err(string_from_chars(out.as_slice()));
        }
        i = i + 1;
    }
    Ok(ParsedCommand::Run(DetailOptions { details }))
}

// ---------------------------------------------------------------------------
// compact
// ---------------------------------------------------------------------------
#[derive(Debug, Clone, Copy, PartialEq, Eq, Structural)]
pub struct CompactCliOptions {
    pub compact_options: CompactOptions,
    pub details: bool,
}

/// What `compact` has read: the options, `--details`, whether a mode flag was
/// given, and whether a batch size was.
pub struct CompactScan {
    pub mode: CompactMode,
    pub batch_size: usize,
    pub details: bool,
    pub explicit_mode: bool,
    pub batch_size_provided: bool,
}

pub open spec fn compact_scan(args: Seq<String>, i: int, st: CompactScan) -> Result<Option<CompactScan>, Seq<char>>
    decreases args.len() - i,
{
    if i < 0 || i >= args.len() {
        Ok(Some(st))
    } else {
        let a = args[i]@;
        if is_help_flag(a) {
            Ok(None)
        } else if a == "--details"@ {
            compact_scan(args, i + 1, CompactScan { details: true, ..st })
        } else if a == "--apply"@ {
            if st.explicit_mode {
                Err("compact accepts only one of --apply or --vacuum"@)
            } else {
                compact_scan(args, i + 1, CompactScan { explicit_mode: true, mode: CompactMode::Apply, ..st })
            }
        } else if a == "--vacuum"@ {
            if st.explicit_mode {
                Err("compact accepts only one of --apply or --vacuum"@)
            } else if st.batch_size_provided {
                Err("compact --vacuum does not accept --batch-size"@)
            } else {
                compact_scan(args, i + 1, CompactScan { explicit_mode: true, mode: CompactMode::Vacuum, ..st })
            }
        } else if a == "--batch-size"@ {
            if st.mode == CompactMode::Vacuum {
                Err("compact --vacuum does not accept --batch-size"@)
            } else if i + 1 >= args.len() {
                Err(missing_value(a))
            } else {
                let v = args[i + 1]@;
                match parse_usize_spec(v) {
                    None => Err("invalid batch size: "@ + v),
                    Some(n) => if n < 1 {
                        Err("invalid batch size: "@ + v + "; expected at least 1"@)
                    } else if n > MAX_COMPACT_BATCH_SIZE {
                        Err("invalid batch size: "@ + v + "; expected at most "@ + decimal(MAX_COMPACT_BATCH_SIZE as nat))
                    } else {
                        compact_scan(args, i + 2, CompactScan { batch_size: n, batch_size_provided: true, ..st })
                    }
                }
            }
        } else {
            Err("unknown compact option: "@ + a)
        }
    }
}

pub open spec fn compact_start() -> CompactScan {
    CompactScan {
        mode: CompactMode::DryRun,
        batch_size: DEFAULT_COMPACT_BATCH_SIZE,
        details: false,
        explicit_mode: false,
        batch_size_provided: false,
    }
}

pub open spec fn compact_view(o: CompactCliOptions) -> (CompactMode, usize, bool) {
    (o.compact_options.mode, o.compact_options.batch_size, o.details)
}

pub open spec fn compact_spec(args: Seq<String>) -> Result<Option<(CompactMode, usize, bool)>, Seq<char>> {
    match compact_scan(args, 0, compact_start()) {
        Err(m) => Err(m),
        Ok(None) => Ok(None),
        Ok(Some(st)) => Ok(Some((st.mode, st.batch_size, st.details))),
    }
}

/// Parses the arguments of `compact`: a dry run by default, at most one of
/// `--apply` and `--vacuum`, a batch size in `1..=MAX_COMPACT_BATCH_SIZE`
/// (not with `--vacuum`), and `--details`.
pub fn parse_compact_command(args: &[String]) -> (r: Result<ParsedCommand<CompactCliOptions>, String>)
    ensures
        parsed_view(r, |o: CompactCliOptions| compact_view(o)) == compact_spec(args@),
{
    let mut options = CompactOptions { mode: CompactMode::DryRun, batch_size: DEFAULT_COMPACT_BATCH_SIZE };
    let mut details = false;
    let mut explicit_mode = false;
    let mut batch_size_provided = false;
    let mut i: usize = 0;
    while i < args.len()
        invariant
            i <= args.len(),
            compact_scan(args@, 0, compact_start()) == compact_scan(
                args@,
                i as int,
                CompactScan {
                    mode: options.mode,
                    batch_size: options.batch_size,
                    details,
                    explicit_mode,
                    batch_size_provided,
                },
            ),
        decreases args.len() - i,
    {
        let a = args[i].as_str();
        proof {
            assert(a@ == args@[i as int]@);
        }
        if is_help_arg(a) {
            return Ok(ParsedCommand::Help);
        } else if str_eq(a, "--details") {
            details = true;
            i = i + 1;
        } else if str_eq(a, "--apply") {
            if explicit_mode {
                return Err(owned("compact accepts only one of --apply or --vacuum"));
            }
            explicit_mode = true;
            options.mode = CompactMode::Apply;
            i = i + 1;
        } else if str_eq(a, "--vacuum") {
            if explicit_mode {
                return Err(owned("compact accepts only one of --apply or --vacuum"));
            }
            if batch_size_provided {
                return Err(owned("compact --vacuum does not accept --batch-size"));
            }
            explicit_mode = true;
            options.mode = CompactMode::Vacuum;
            i = i + 1;
        } else if str_eq(a, "--batch-size") {
            if options.mode == CompactMode::Vacuum {
                return Err(owned("compact --vacuum does not accept --batch-size"));
            }
            let v = next_flag_value(args, i, "--batch-size")?;
            let vc = chars_of(v.as_str());
            let parsed = match parse_usize(vc.as_slice()) {
                Some(n) => n,
                None => {
                    return Err(concat2("invalid batch size: ", v.as_str()));
                },
            };
            if parsed < 1 {
                return Err(concat3("invalid batch size: ", v.as_str(), "; expected at least 1"));
            }
            if parsed > MAX_COMPACT_BATCH_SIZE {
                let mut out: Vec<char> = Vec::new();
                push_str(&mut out, "invalid batch size: ");
                push_str(&mut out, v.as_str());
                push_str(&mut out, "; expected at most ");
                let digits = crate::text::decimal_chars(MAX_COMPACT_BATCH_SIZE as u64);
                crate::text::push_all(&mut out, digits.as_slice());
                proof {
                    assert(out@ =~= "invalid batch size: "@ + v@ + "; expected at most "@ + decimal(
                        MAX_COMPACT_BATCH_SIZE as nat,
                    ));
                }
                return Err(string_from_chars(out.as_slice()));
            }
            options.batch_size = parsed;
            batch_size_provided = true;
            i = i + 2;
        } else {
            return Err(concat2("unknown compact option: ", a));
        }
    }
    Ok(ParsedCommand::Run(CompactCliOptions { compact_options: options, details }))
}

/// The name of a compaction mode in reports.
pub fn compact_mode_name(mode: CompactMode) -> (r: &'static str)
    ensures
        r@ == match mode {
            CompactMode::DryRun => "dry-run"@,
            CompactMode::Apply => "apply"@,
            CompactMode::Vacuum => "vacuum"@,
        },
{
    match mode {
        CompactMode::DryRun => "dry-run",
        CompactMode::Apply => "apply",
        CompactMode::Vacuum => "vacuum",
    }
}

// ---------------------------------------------------------------------------
// pack and settle
// ---------------------------------------------------------------------------
#[derive(Debug, Clone, PartialEq, Eq)]
pub struct PackCliOptions {
    pub output: Option<String>,
}

/// Reads `pack` arguments: `--output`/`-o` with a path; the last one counts.
pub open spec fn pack_scan(args: Seq<String>, i: int, output: Option<Seq<char>>) -> Result<Option<Option<Seq<char>>>, Seq<char>>
    decreases args.len() - i,
{
    if i < 0 || i >= args.len() {
        Ok(Some(output))
    } else {
        let a = args[i]@;
        if is_help_flag(a) {
            Ok(None)
        } else if a == "--output"@ || a == "-o"@ {
            if i + 1 >= args.len() {
                Err(missing_value("--output"@))
            } else {
                pack_scan(args, i + 2, Some(args[i + 1]@))
            }
        } else {
            Err("unknown pack option: "@ + a)
        }
    }
}

pub fn parse_pack_command(args: &[String]) -> (r: Result<ParsedCommand<PackCliOptions>, String>)
    ensures
        parsed_view(r, |o: PackCliOptions| crate::text::opt_view(o.output)) == pack_scan(args@, 0, None),
{
    let mut output: Option<String> = None;
    let mut i: usize = 0;
    while i < args.len()
        invariant
            i <= args.len(),
            pack_scan(args@, 0, None) == pack_scan(args@, i as int, crate::text::opt_view(output)),
        decreases args.len() - i,
    {
        let a = args[i].as_str();
        proof {
            assert(a@ == args@[i as int]@);
        }
        if is_help_arg(a) {
            return Ok(ParsedCommand::Help);
        } else if str_eq(a, "--output") || str_eq(a, "-o") {
            let v = next_flag_value(args, i, "--output")?;
            output = Some(v);
            i = i + 2;
        } else {
            return Err(concat2("unknown pack option: ", a));
        }
    }
    Ok(ParsedCommand::Run(PackCliOptions { output }))
}

#[derive(Debug, Clone, PartialEq, Eq)]
pub struct SettleCliOptions {
    pub archive: String,
    pub force: bool,
}

/// Reads `settle` arguments: `--force`, and exactly one archive path; other
/// arguments starting with `--` are refused.
pub open spec fn settle_scan(args: Seq<String>, i: int, archive: Option<Seq<char>>, force: bool) -> Result<Option<(Option<Seq<char>>, bool)>, Seq<char>>
    decreases args.len() - i,
{
    if i < 0 || i >= args.len() {
        Ok(Some((archive, force)))
    } else {
        let a = args[i]@;
        if is_help_flag(a) {
            Ok(None)
        } else if a == "--force"@ {
            settle_scan(args, i + 1, archive, true)
        } else if a.len() >= 2 && a.take(2) == "--"@ {
            Err("unknown settle option: "@ + a)
        } else if archive is Some {
            Err("unexpected positional argument: "@ + a)
        } else {
            settle_scan(args, i + 1, Some(a), force)
        }
    }
}

pub open spec fn settle_spec(args: Seq<String>) -> Result<Option<(Seq<char>, bool)>, Seq<char>> {
    match settle_scan(args, 0, None, false) {
        Err(m) => Err(m),
        Ok(None) => Ok(None),
        Ok(Some((None, _))) => Err("missing archive path"@),
        Ok(Some((Some(a), force))) => Ok(Some((a, force))),
    }
}

fn starts_with_str(a: &str, p: &str) -> (r: bool)
    ensures
        r == (p@.len() <= a@.len() && a@.take(p@.len() as int) == p@),
{
    let ac = chars_of(a);
    let pc = chars_of(p);
    crate::text::has_prefix(ac.as_slice(), pc.as_slice())
}

pub fn parse_settle_command(args: &[String]) -> (r: Result<ParsedCommand<SettleCliOptions>, String>)
    ensures
        parsed_view(r, |o: SettleCliOptions| (o.archive@, o.force)) == settle_spec(args@),
{
    let mut archive: Option<String> = None;
    let mut force = false;
    let mut i: usize = 0;
    proof {
        reveal_strlit("--");
    }
    while i < args.len()
        invariant
            i <= args.len(),
            "--"@.len() == 2,
            settle_scan(args@, 0, None, false) == settle_scan(
                args@,
                i as int,
                crate::text::opt_view(archive),
                force,
            ),
        decreases args.len() - i,
    {
        let a = args[i].as_str();
        proof {
            assert(a@ == args@[i as int]@);
        }
        if is_help_arg(a) {
            return Ok(ParsedCommand::Help);
        } else if str_eq(a, "--force") {
            force = true;
        } else if starts_with_str(a, "--") {
            return Err(concat2("unknown settle option: ", a));
        } else if archive.is_some() {
            return Err(concat2("unexpected positional argument: ", a));
        } else {
            archive = Some(owned(a));
        }
        i = i + 1;
    }
    let archive = match archive {
        Some(a) => a,
        None => {
            return Err(owned("missing archive path"));
        },
    };
    Ok(ParsedCommand::Run(SettleCliOptions { archive, force }))
}

// ---------------------------------------------------------------------------
// taste export and taste extract
// ---------------------------------------------------------------------------
/// Reads `taste export` arguments: `--format` (once, `jsonl`) and `--out`
/// (once); other arguments starting with `-` are unknown options, the rest
/// unexpected.
pub open spec fn export_scan(args: Seq<String>, i: int, format: Option<TasteExportFormat>, out: Option<Seq<char>>) -> Result<Option<(Option<TasteExportFormat>, Option<Seq<char>>)>, Seq<char>>
    decreases args.len() - i,
{
    if i < 0 || i >= args.len() {
        Ok(Some((format, out)))
    } else {
        let a = args[i]@;
        if is_help_flag(a) {
            Ok(None)
        } else if a == "--format"@ {
            if i + 1 >= args.len() {
                Err(missing_value(a))
            } else if format is Some {
                Err(repeated_flag("taste export"@, a))
            } else if args[i + 1]@ == "jsonl"@ {
                export_scan(args, i + 2, Some(TasteExportFormat::Jsonl), out)
            } else {
                Err("unsupported export format: "@ + args[i + 1]@)
            }
        } else if a == "--out"@ {
            if i + 1 >= args.len() {
                Err(missing_value(a))
            } else if out is Some {
                Err(repeated_flag("taste export"@, a))
            } else {
                export_scan(args, i + 2, format, Some(args[i + 1]@))
            }
        } else if a.len() >= 1 && a[0] == '-' {
            Err("unknown taste export option: "@ + a)
        } else {
            Err("unexpected taste export argument: "@ + a)
        }
    }
}

pub open spec fn export_spec(args: Seq<String>) -> Result<Option<(TasteExportFormat, Option<Seq<char>>)>, Seq<char>> {
    match export_scan(args, 0, None, None) {
        Err(m) => Err(m),
        Ok(None) => Ok(None),
        Ok(Some((None, _))) => Err("taste export requires --format <format>"@),
        Ok(Some((Some(f), out))) => Ok(Some((f, out))),
    }
}

fn starts_with_dash(a: &str) -> (r: bool)
    ensures
        r == (a@.len() >= 1 && a@[0] == '-'),
{
    let ac = chars_of(a);
    ac.len() >= 1 && ac[0] == '-'
}

pub fn parse_taste_export_command(args: &[String]) -> (r: Result<ParsedCommand<TasteExportOptions>, String>)
    ensures
        parsed_view(r, |o: TasteExportOptions| (o.format, crate::text::opt_view(o.output_path)))
            == export_spec(args@),
{
    let mut format: Option<TasteExportFormat> = None;
    let mut output_path: Option<String> = None;
    let mut i: usize = 0;
    while i < args.len()
        invariant
            i <= args.len(),
            export_scan(args@, 0, None, None) == export_scan(
                args@,
                i as int,
                format,
                crate::text::opt_view(output_path),
            ),
        decreases args.len() - i,
    {
        let a = args[i].as_str();
        proof {
            assert(a@ == args@[i as int]@);
        }
        if is_help_arg(a) {
            return Ok(ParsedCommand::Help);
        } else if str_eq(a, "--format") {
            let v = take_single_flag_value(args, i, "--format", "taste export", format.is_some())?;
            format = match TasteExportFormat::from_cli(v.as_str()) {
                Some(f) => Some(f),
                None => {
                    return Err(concat2("unsupported export format: ", v.as_str()));
                },
            };
            i = i + 2;
        } else if str_eq(a, "--out") {
            let v = take_single_flag_value(args, i, "--out", "taste export", output_path.is_some())?;
            output_path = Some(v);
            i = i + 2;
        } else if starts_with_dash(a) {
            return Err(concat2("unknown taste export option: ", a));
        } else {
            return Err(concat2("unexpected taste export argument: ", a));
        }
    }
    let format = match format {
        Some(f) => f,
        None => {
            return Err(owned("taste export requires --format <format>"));
        },
    };
    Ok(ParsedCommand::Run(TasteExportOptions { format, output_path }))
}

/// Reads `taste extract` arguments: `--force` and `--session` (once).
pub open spec fn extract_scan(args: Seq<String>, i: int, session: Option<Seq<char>>, force: bool) -> Result<Option<(Option<Seq<char>>, bool)>, Seq<char>>
    decreases args.len() - i,
{
    if i < 0 || i >= args.len() {
        Ok(Some((session, force)))
    } else {
        let a = args[i]@;
        if is_help_flag(a) {
            Ok(None)
        } else if a == "--force"@ {
            extract_scan(args, i + 1, session, true)
        } else if a == "--session"@ {
            if i + 1 >= args.len() {
                Err(missing_value(a))
            } else if session is Some {
                Err(repeated_flag("taste extract"@, a))
            } else {
                extract_scan(args, i + 2, Some(args[i + 1]@), force)
            }
        } else {
            Err("unknown taste extract option: "@ + a)
        }
    }
}

/// Parses the arguments of `taste extract`; the history root is left to its default.
pub fn parse_taste_extract_command(args: &[String]) -> (r: Result<ParsedCommand<TasteExtractOptions>, String>)
    ensures
        parsed_view(r, |o: TasteExtractOptions| (crate::text::opt_view(o.source_session_id), o.force))
            == extract_scan(args@, 0, None, false),
        r matches Ok(ParsedCommand::Run(o)) ==> o.sidecar_history_root is None,
{
    let mut session: Option<String> = None;
    let mut force = false;
    let mut i: usize = 0;
    while i < args.len()
        invariant
            i <= args.len(),
            extract_scan(args@, 0, None, false) == extract_scan(
                args@,
                i as int,
                crate::text::opt_view(session),
                force,
            ),
        decreases args.len() - i,
    {
        let a = args[i].as_str();
        proof {
            assert(a@ == args@[i as int]@);
        }
        if is_help_arg(a) {
            return Ok(ParsedCommand::Help);
        } else if str_eq(a, "--force") {
            force = true;
            i = i + 1;
        } else if str_eq(a, "--session") {
            let v = take_single_flag_value(args, i, "--session", "taste extract", session.is_some())?;
            session = Some(v);
            i = i + 2;
        } else {
            return Err(concat2("unknown taste extract option: ", a));
        }
    }
    Ok(ParsedCommand::Run(TasteExtractOptions { source_session_id: session, force, sidecar_history_root: None }))
}

// ---------------------------------------------------------------------------
// taste show
// ---------------------------------------------------------------------------
/// Reads `taste show example` arguments: `--session` (once) and one tool use id.
pub open spec fn example_scan(args: Seq<String>, i: int, session: Option<Seq<char>>, tool: Option<Seq<char>>) -> Result<Option<(Option<Seq<char>>, Option<Seq<char>>)>, Seq<char>>
    decreases args.len() - i,
{
    if i < 0 || i >= args.len() {
        Ok(Some((session, tool)))
    } else {
        let a = args[i]@;
        if is_help_flag(a) {
            Ok(None)
        } else if a == "--session"@ {
            if i + 1 >= args.len() {
                Err(missing_value(a))
            } else if session is Some {
                Err(repeated_flag("taste show example"@, a))
            } else {
                example_scan(args, i + 2, Some(args[i + 1]@), tool)
            }
        } else if a.len() >= 1 && a[0] == '-' {
            Err("unknown taste show example option: "@ + a)
        } else if tool is Some {
            Err("taste show example accepts only one tool_use_id argument"@)
        } else {
            example_scan(args, i + 1, session, Some(a))
        }
    }
}

pub open spec fn example_spec(args: Seq<String>) -> Result<Option<(Seq<char>, Option<Seq<char>>)>, Seq<char>> {
    match example_scan(args, 0, None, None) {
        Err(m) => Err(m),
        Ok(None) => Ok(None),
        Ok(Some((_, None))) => Err("taste show example requires <tool_use_id>"@),
        Ok(Some((session, Some(tool)))) => Ok(Some((tool, session))),
    }
}

pub fn parse_taste_show_example_command(args: &[String]) -> (r: Result<ParsedCommand<TasteShowExampleOptions>, String>)
    ensures
        parsed_view(r, |o: TasteShowExampleOptions| (o.tool_use_id@, crate::text::opt_view(o.source_session_id)))
            == example_spec(args@),
{
    let mut session: Option<String> = None;
    let mut tool: Option<String> = None;
    let mut i: usize = 0;
    while i < args.len()
        invariant
            i <= args.len(),
            example_scan(args@, 0, None, None) == example_scan(
                args@,
                i as int,
                crate::text::opt_view(session),
                crate::text::opt_view(tool),
            ),
        decreases args.len() - i,
    {
        let a = args[i].as_str();
        proof {
            assert(a@ == args@[i as int]@);
        }
        if is_help_arg(a) {
            return Ok(ParsedCommand::Help);
        } else if str_eq(a, "--session") {
            let v = take_single_flag_value(args, i, "--session", "taste show example", session.is_some())?;
            session = Some(v);
            i = i + 2;
        } else if starts_with_dash(a) {
            return Err(concat2("unknown taste show example option: ", a));
        } else if tool.is_some() {
            return Err(owned("taste show example accepts only one tool_use_id argument"));
        } else {
            tool = Some(owned(a));
            i = i + 1;
        }
    }
    let tool_use_id = match tool {
        Some(t) => t,
        None => {
            return Err(owned("taste show example requires <tool_use_id>"));
        },
    };
    Ok(ParsedCommand::Run(TasteShowExampleOptions { tool_use_id, source_session_id: session }))
}

/// Reads `taste show timeline` arguments: `--session` and `--file`, once each.
pub open spec fn timeline_scan(args: Seq<String>, i: int, session: Option<Seq<char>>, file: Option<Seq<char>>) -> Result<Option<(Option<Seq<char>>, Option<Seq<char>>)>, Seq<char>>
    decreases args.len() - i,
{
    if i < 0 || i >= args.len() {
        Ok(Some((session, file)))
    } else {
        let a = args[i]@;
        if is_help_flag(a) {
            Ok(None)
        } else if a == "--session"@ || a == "--file"@ {
            if i + 1 >= args.len() {
                Err(missing_value(a))
            } else if a == "--session"@ {
                if session is Some {
                    Err(repeated_flag("taste show timeline"@, a))
                } else {
                    timeline_scan(args, i + 2, Some(args[i + 1]@), file)
                }
            } else if file is Some {
                Err(repeated_flag("taste show timeline"@, a))
            } else {
                timeline_scan(args, i + 2, session, Some(args[i + 1]@))
            }
        } else {
            Err("unknown taste show timeline option: "@ + a)
        }
    }
}

pub open spec fn timeline_spec(args: Seq<String>) -> Result<Option<(Seq<char>, Seq<char>)>, Seq<char>> {
    match timeline_scan(args, 0, None, None) {
        Err(m) => Err(m),
        Ok(None) => Ok(None),
        Ok(Some((None, _))) => Err("taste show timeline requires --session <source_session_id>"@),
        Ok(Some((Some(_), None))) => Err("taste show timeline requires --file <path>"@),
        Ok(Some((Some(s), Some(f)))) => Ok(Some((s, f))),
    }
}

pub fn parse_taste_show_timeline_command(args: &[String]) -> (r: Result<ParsedCommand<TasteShowTimelineOptions>, String>)
    ensures
        parsed_view(r, |o: TasteShowTimelineOptions| (o.source_session_id@, o.file_path@))
            == timeline_spec(args@),
{
    let mut session: Option<String> = None;
    let mut file: Option<String> = None;
    let mut i: usize = 0;
    while i < args.len()
        invariant
            i <= args.len(),
            timeline_scan(args@, 0, None, None) == timeline_scan(
                args@,
                i as int,
                crate::text::opt_view(session),
                crate::text::opt_view(file),
            ),
        decreases args.len() - i,
    {
        let a = args[i].as_str();
        proof {
            assert(a@ == args@[i as int]@);
        }
        if is_help_arg(a) {
            return Ok(ParsedCommand::Help);
        } else if str_eq(a, "--session") {
            let v = take_single_flag_value(args, i, "--session", "taste show timeline", session.is_some())?;
            session = Some(v);
            i = i + 2;
        } else if str_eq(a, "--file") {
            let v = take_single_flag_value(args, i, "--file", "taste show timeline", file.is_some())?;
            file = Some(v);
            i = i + 2;
        } else {
            return Err(concat2("unknown taste show timeline option: ", a));
        }
    }
    let source_session_id = match session {
        Some(s) => s,
        None => {
            return Err(owned("taste show timeline requires --session <source_session_id>"));
        },
    };
    let file_path = match file {
        Some(f) => f,
        None => {
            return Err(owned("taste show timeline requires --file <path>"));
        },
    };
    Ok(ParsedCommand::Run(TasteShowTimelineOptions { source_session_id, file_path }))
}

} // verus!
