use std::cell::RefCell;
use std::rc::Rc;

use clap::{Arg, ArgAction, ArgMatches, Command};
use multicall::cli::{batch_step, handed_back, parsed, resulting_action};
use multicall::{complete, Cli, Task, TaskAction};

type Log = Rc<RefCell<Vec<String>>>;

struct Probe {
    name: &'static str,
    about: &'static str,
    result: TaskAction,
    offer: Option<&'static str>,
    log: Log,
}

impl Probe {
    fn new(name: &'static str, log: &Log) -> Self {
        Probe { name, about: "a probe", result: TaskAction::Continue, offer: None, log: log.clone() }
    }

    fn returning(mut self, result: TaskAction) -> Self {
        self.result = result;
        self
    }

    fn about(mut self, about: &'static str) -> Self {
        self.about = about;
        self
    }

    fn offering(mut self, offer: &'static str) -> Self {
        self.offer = Some(offer);
        self
    }
}

impl Task for Probe {
    fn command(&self) -> Command {
        Command::new(self.name)
            .about(self.about)
            .arg(Arg::new("words").action(ArgAction::Append).num_args(0..))
    }

    fn action(&self, matches: &ArgMatches) -> TaskAction {
        let words: Vec<String> = matches
            .get_many::<String>("words")
            .map(|v| v.cloned().collect())
            .unwrap_or_default();
        let mut entry = vec![self.name.to_string()];
        entry.extend(words);
        self.log.borrow_mut().push(entry.join(" "));
        self.result
    }

    fn suggests(&self, args: &[&str]) -> Option<String> {
        self.log.borrow_mut().push(format!("suggest {}:{}", self.name, args.join(",")));
        self.offer.map(|s| s.to_string())
    }
}

fn log() -> Log {
    Rc::new(RefCell::new(Vec::new()))
}

fn entries(log: &Log) -> Vec<String> {
    log.borrow().clone()
}

fn abc(log: &Log) -> Cli {
    Cli::new("tool")
        .add_task(Probe::new("a", log))
        .add_task(Probe::new("b", log))
        .add_task(Probe::new("c", log))
}

fn subcommands(cli: &Cli) -> Vec<String> {
    cli.command().get_subcommands().map(|c| c.get_name().to_string()).collect()
}

#[test]
fn grammar_exposes_exactly_the_registered_names() {
    let l = log();
    let cli = abc(&l);
    assert_eq!(subcommands(&cli), vec!["a", "b", "c"]);
    assert_eq!(cli.command().get_name(), "tool");
    assert!(matches!(cli.parse("a"), Ok(Some(_))));
    assert!(matches!(cli.parse("b"), Ok(Some(_))));
    assert!(matches!(cli.parse("c"), Ok(Some(_))));
    assert!(cli.parse("d").is_err());
    assert!(entries(&l).is_empty());
}

#[test]
fn grammar_is_rebuilt_the_same_on_every_call() {
    let l = log();
    let cli = abc(&l);
    assert_eq!(subcommands(&cli), subcommands(&cli));
    assert_eq!(Cli::new("empty").command().get_subcommands().count(), 0);
}

#[test]
fn a_name_registered_twice_keeps_the_last_task() {
    let l = log();
    let cli = Cli::new("tool")
        .add_task(Probe::new("a", &l))
        .add_task(Probe::new("b", &l))
        .add_task(Probe::new("a", &l).returning(TaskAction::Exit));
    assert_eq!(subcommands(&cli), vec!["a", "b"]);
    assert_eq!(cli.run("a"), Ok(TaskAction::Exit));
    assert_eq!(cli.run("b"), Ok(TaskAction::Continue));
}

#[test]
fn a_slot_shows_the_grammar_registered_under_its_name() {
    let l = log();
    let cli = Cli::new("tool")
        .add_task(Probe::new("a", &l).about("one"))
        .add_task(Probe::new("b", &l).about("other"))
        .add_task(Probe::new("a", &l).about("two"));
    let merged = cli.command();
    let abouts: Vec<Option<String>> =
        merged.get_subcommands().map(|c| c.get_about().map(|a| a.to_string())).collect();
    assert_eq!(abouts, vec![Some("two".to_string()), Some("other".to_string())]);
    let slot = merged.find_subcommand("a").unwrap();
    assert_eq!(slot.get_name(), "a");
    assert!(slot.get_arguments().any(|arg| arg.get_id() == "words"));
    let help = cli.run("help").unwrap_err();
    assert!(help.contains("two"));
    assert!(!help.contains("one"));
}

#[test]
fn complete_returns_an_exact_match_unchanged() {
    let l = vec!["deploy".to_string(), "dep".to_string(), "status".to_string()];
    assert_eq!(complete(l.clone(), "dep"), "dep");
    assert_eq!(complete(l.clone(), "deploy"), "deploy");
    assert_eq!(complete(l, "status"), "status");
}

#[test]
fn complete_handles_empty_texts() {
    let l = vec!["".to_string(), "a".to_string()];
    assert_eq!(complete(l.clone(), ""), "");
    assert_eq!(complete(l, "a"), "a");
    assert_eq!(complete(vec!["b".to_string()], ""), "b");
    assert_eq!(complete(Vec::new(), ""), "");
    assert_eq!(complete(vec!["h\u{e9}llo".to_string(), "h\u{e8}".to_string()], "h\u{e9}"), "h\u{e9}llo");
    assert_eq!(complete(vec!["a".to_string(), "a".to_string()], "a"), "a");
}

#[test]
fn complete_takes_the_first_candidate_in_code_point_order() {
    let l = vec!["stop".to_string(), "status".to_string(), "start".to_string(), "st".to_string()];
    assert_eq!(complete(l.clone(), "s"), "st");
    assert_eq!(complete(l.clone(), "sta"), "start");
    assert_eq!(complete(l, "sto"), "stop");
    let l = vec!["b".to_string(), "a".to_string(), "B".to_string()];
    assert_eq!(complete(l, ""), "B");
    let l = vec!["x\u{e9}".to_string(), "xz".to_string(), "x\u{4e16}".to_string()];
    assert_eq!(complete(l.clone(), "x"), "xz");
    let l = vec!["x\u{4e16}".to_string(), "x\u{e9}".to_string()];
    assert_eq!(complete(l, "x"), "x\u{e9}");
}

#[test]
fn complete_extends_a_prefix_to_a_candidate() {
    let l = vec!["deploy".to_string(), "status".to_string()];
    assert_eq!(complete(l.clone(), "dep"), "deploy");
    assert_eq!(complete(l.clone(), "s"), "status");
    assert_eq!(complete(l, "d"), "deploy");
}

#[test]
fn complete_leaves_an_unmatched_query_unchanged() {
    let l = vec!["deploy".to_string(), "status".to_string()];
    assert_eq!(complete(l.clone(), "x"), "x");
    assert_eq!(complete(l, "deployed"), "deployed");
    assert_eq!(complete(Vec::new(), "dep"), "dep");
}

#[test]
fn blank_lines_continue_without_a_task() {
    let l = log();
    let cli = abc(&l);
    assert_eq!(cli.run(""), Ok(TaskAction::Continue));
    assert_eq!(cli.run("   "), Ok(TaskAction::Continue));
    assert!(matches!(cli.parse(""), Ok(None)));
    assert!(matches!(cli.parse("   "), Ok(None)));
    assert!(entries(&l).is_empty());
}

#[test]
fn run_batch_dispatches_each_fragment_in_order() {
    let l = log();
    let cli = abc(&l);
    assert_eq!(cli.run_batch("a x; b y\nc z"), Ok(()));
    assert_eq!(entries(&l), vec!["a x", "b y", "c z"]);
}

#[test]
fn run_batch_trims_and_skips_blank_fragments() {
    let l = log();
    let cli = abc(&l);
    assert_eq!(cli.run_batch("  a x  ;;\n\n ; b   y \n"), Ok(()));
    assert_eq!(entries(&l), vec!["a x", "b y"]);
    assert_eq!(cli.run_batch(""), Ok(()));
    assert_eq!(cli.run_batch(" ;\n; "), Ok(()));
    assert_eq!(entries(&l).len(), 2);
}

#[test]
fn run_batch_stops_at_the_first_failure() {
    let l = log();
    let cli = abc(&l);
    assert_eq!(
        cli.run_batch("a x; \"b y\nc z"),
        Err("error: Invalid quoting".to_string())
    );
    assert_eq!(entries(&l), vec!["a x"]);
    let l = log();
    let cli = abc(&l);
    assert!(cli.run_batch("a 1\nnope\nb 2").is_err());
    assert_eq!(entries(&l), vec!["a 1"]);
}

#[test]
fn run_batch_goes_on_after_break_and_exit() {
    let l = log();
    let cli = Cli::new("tool")
        .add_task(Probe::new("quit", &l).returning(TaskAction::Exit))
        .add_task(Probe::new("a", &l));
    assert_eq!(cli.run_batch("quit; a 1"), Ok(()));
    assert_eq!(entries(&l), vec!["quit", "a 1"]);
}

#[test]
fn suggests_completes_an_unresolved_first_token() {
    let l = log();
    let cli = Cli::new("tool")
        .add_task(Probe::new("deploy", &l))
        .add_task(Probe::new("status", &l));
    assert_eq!(cli.suggests(&["dep"]), Some("deploy".to_string()));
    assert_eq!(cli.suggests(&["st"]), Some("status".to_string()));
    assert_eq!(cli.suggests(&["he"]), Some("help".to_string()));
    assert_eq!(cli.suggests(&["zzz"]), Some("zzz".to_string()));
    assert_eq!(cli.suggests(&["dep", "--ba"]), Some("deploy".to_string()));
    assert!(entries(&l).is_empty());
}

#[test]
fn suggests_delegates_to_the_resolved_task() {
    let l = log();
    let cli = Cli::new("tool")
        .add_task(Probe::new("deploy", &l).offering("--bar"))
        .add_task(Probe::new("status", &l));
    assert_eq!(cli.suggests(&["deploy", "--ba"]), Some("--bar".to_string()));
    assert_eq!(cli.suggests(&["deploy", "--ba", "x"]), Some("--bar".to_string()));
    assert_eq!(entries(&l), vec!["suggest deploy:--ba", "suggest deploy:--ba,x"]);
}

#[test]
fn suggests_does_not_fall_back_when_the_task_offers_nothing() {
    let l = log();
    let cli = Cli::new("tool")
        .add_task(Probe::new("deploy", &l))
        .add_task(Probe::new("status", &l));
    assert_eq!(cli.suggests(&["deploy", "--ba"]), None);
    assert_eq!(cli.suggests(&["deploy"]), None);
    assert_eq!(entries(&l), vec!["suggest deploy:--ba", "suggest deploy:"]);
}

#[test]
fn suggests_nothing_without_tokens() {
    let l = log();
    let cli = abc(&l);
    assert_eq!(cli.suggests(&[]), None);
    assert_eq!(cli.suggest_line(""), None);
    assert_eq!(cli.suggest_line("  \t "), None);
}

#[test]
fn suggest_line_completes_the_words_of_a_buffer() {
    let l = log();
    let cli = Cli::new("tool")
        .add_task(Probe::new("deploy", &l).offering("--bar"))
        .add_task(Probe::new("status", &l));
    assert_eq!(cli.suggest_line("  dep"), Some("deploy".to_string()));
    assert_eq!(cli.suggest_line("deploy \t --ba  "), Some("--bar".to_string()));
    assert_eq!(cli.suggest_line("status x"), None);
    assert_eq!(entries(&l), vec!["suggest deploy:--ba", "suggest status:x"]);
}

#[test]
fn invalid_quoting_is_an_error_and_runs_no_task() {
    let l = log();
    let cli = Cli::new("tool").add_task(Probe::new("echo", &l));
    assert_eq!(
        cli.run("echo \"unterminated"),
        Err("error: Invalid quoting".to_string())
    );
    assert_eq!(
        cli.parse("echo 'open").err(),
        Some("error: Invalid quoting".to_string())
    );
    assert!(entries(&l).is_empty());
}

#[test]
fn run_hands_quoted_tokens_to_the_task() {
    let l = log();
    let cli = Cli::new("tool").add_task(Probe::new("echo", &l));
    assert_eq!(cli.run("echo \"two words\" 'a;b' c\\ d"), Ok(TaskAction::Continue));
    assert_eq!(entries(&l), vec!["echo two words a;b c d"]);
}

#[test]
fn run_returns_the_action_of_the_task_unchanged() {
    let l = log();
    let cli = Cli::new("tool")
        .add_task(Probe::new("stay", &l))
        .add_task(Probe::new("leave", &l).returning(TaskAction::Break))
        .add_task(Probe::new("quit", &l).returning(TaskAction::Exit));
    assert_eq!(cli.run("stay"), Ok(TaskAction::Continue));
    assert_eq!(cli.run("leave now"), Ok(TaskAction::Break));
    assert_eq!(cli.run("quit"), Ok(TaskAction::Exit));
    assert_eq!(entries(&l), vec!["stay", "leave now", "quit"]);
}

#[test]
fn grammar_errors_are_reported_as_text() {
    let l = log();
    let cli = abc(&l);
    let unknown = cli.run("nope").unwrap_err();
    assert!(unknown.contains("nope"));
    let bad_option = cli.run("a --no-such-option").unwrap_err();
    assert!(bad_option.contains("--no-such-option"));
    assert!(entries(&l).is_empty());
}

#[test]
fn help_lists_the_commands_under_their_heading() {
    let l = log();
    let cli = abc(&l);
    let help = cli.run("help").unwrap_err();
    assert!(help.contains("Commands:"));
    assert!(help.contains("a probe"));
    assert!(!help.contains("Usage"));
    assert!(entries(&l).is_empty());
}

#[test]
fn an_unknown_command_is_named_in_the_error() {
    let l = log();
    let cli = abc(&l);
    assert_eq!(
        cli.run("nope"),
        Err("error: unrecognized subcommand 'nope'\n\nUsage: <APPLET>\n\nFor more information, try 'help'.\n".to_string())
    );
}

#[test]
fn help_of_a_command_shows_its_own_grammar() {
    let l = log();
    let cli = abc(&l);
    let help = cli.run("a --help").unwrap_err();
    assert!(help.starts_with("a probe\n\nUsage:\n    a "));
    assert!(help.contains("Options:"));
    assert_eq!(cli.run("help a"), Err(help));
    assert!(entries(&l).is_empty());
}

#[test]
fn a_nested_dispatcher_asks_for_a_command() {
    let l = log();
    let inner = Cli::new("inner").add_task(Probe::new("deep", &l).returning(TaskAction::Break));
    let outer = Cli::new("outer").add_task(inner).add_task(Probe::new("flat", &l));
    let help = outer.run("inner").unwrap_err();
    assert!(help.starts_with("Usage:\n    inner <APPLET>\n\nCommands:\n  deep  a probe\n"));
    assert!(outer.run("inner --").is_err());
    assert!(entries(&l).is_empty());
    assert_eq!(outer.run("inner deep x"), Ok(TaskAction::Break));
    assert_eq!(outer.run("flat"), Ok(TaskAction::Continue));
    assert_eq!(entries(&l), vec!["deep x", "flat"]);
}

#[test]
fn dispatch_routes_matches_to_the_selected_task() {
    let l = log();
    let cli = abc(&l);
    let matches = cli.parse("b 1 2").unwrap().unwrap();
    assert_eq!(cli.dispatch(&matches), Some(TaskAction::Continue));
    assert_eq!(cli.action(&matches), TaskAction::Continue);
    assert_eq!(entries(&l), vec!["b 1 2", "b 1 2"]);
}

#[test]
fn dispatch_runs_nothing_without_a_registered_selection() {
    let l = log();
    let cli = abc(&l);
    let none = Command::new("x").try_get_matches_from(["x"]).unwrap();
    assert_eq!(cli.dispatch(&none), None);
    assert_eq!(cli.action(&none), TaskAction::Continue);
    let other = Command::new("x")
        .subcommand(Command::new("zzz"))
        .try_get_matches_from(["x", "zzz"])
        .unwrap();
    assert_eq!(cli.dispatch(&other), None);
    assert_eq!(cli.settle(Ok(Some(other))), Ok(TaskAction::Continue));
    assert!(entries(&l).is_empty());
}

#[test]
fn settle_hands_errors_on_and_continues_on_no_matches() {
    let l = log();
    let cli = abc(&l);
    assert_eq!(cli.settle(Err("boom".to_string())), Err("boom".to_string()));
    assert_eq!(cli.settle(Ok(None)), Ok(TaskAction::Continue));
    assert!(entries(&l).is_empty());
}

#[test]
fn the_action_of_a_dispatch_is_that_of_the_task_or_continue() {
    assert_eq!(resulting_action(Some(TaskAction::Exit)), TaskAction::Exit);
    assert_eq!(resulting_action(Some(TaskAction::Break)), TaskAction::Break);
    assert_eq!(resulting_action(Some(TaskAction::Continue)), TaskAction::Continue);
    assert_eq!(resulting_action(None), TaskAction::Continue);
}

#[test]
fn action_returns_what_the_selected_task_returns() {
    let l = log();
    let cli = Cli::new("tool")
        .add_task(Probe::new("stay", &l))
        .add_task(Probe::new("leave", &l).returning(TaskAction::Break))
        .add_task(Probe::new("quit", &l).returning(TaskAction::Exit));
    let stay = cli.parse("stay").unwrap().unwrap();
    let leave = cli.parse("leave").unwrap().unwrap();
    let quit = cli.parse("quit 1").unwrap().unwrap();
    assert_eq!(cli.action(&stay), TaskAction::Continue);
    assert_eq!(cli.action(&leave), TaskAction::Break);
    assert_eq!(cli.action(&quit), TaskAction::Exit);
    assert_eq!(entries(&l), vec!["stay", "leave", "quit 1"]);
}

#[test]
fn only_an_error_stops_a_batch() {
    assert_eq!(batch_step(Ok(TaskAction::Continue)), None);
    assert_eq!(batch_step(Ok(TaskAction::Break)), None);
    assert_eq!(batch_step(Ok(TaskAction::Exit)), None);
    assert_eq!(batch_step(Err("boom".to_string())), Some("boom".to_string()));
}

#[test]
fn a_batch_fails_with_the_error_of_its_first_rejected_command() {
    let l = log();
    let cli = abc(&l);
    assert_eq!(cli.run_batch("a 1; nope; \"x"), cli.run("nope").map(|_| ()));
    assert_eq!(cli.run_batch("a 1; \"x; nope"), Err("error: Invalid quoting".to_string()));
    assert_eq!(entries(&l), vec!["a 1", "a 1"]);
}

#[test]
fn route_finds_the_task_and_its_arguments() {
    let l = log();
    let cli = abc(&l);
    let matches = cli.parse("b 1 2").unwrap().unwrap();
    let (place, inner) = cli.route(&matches).unwrap();
    assert_eq!(place, 1);
    let words: Vec<String> = inner.get_many::<String>("words").unwrap().cloned().collect();
    assert_eq!(words, vec!["1", "2"]);
    let none = Command::new("x").try_get_matches_from(["x"]).unwrap();
    assert!(cli.route(&none).is_none());
    assert!(entries(&l).is_empty());
}

#[test]
fn parsed_wraps_matches_and_keeps_errors() {
    let matches = Command::new("x").try_get_matches_from(["x"]).unwrap();
    assert!(matches!(parsed(Ok(matches)), Ok(Some(_))));
    assert_eq!(parsed(Err("bad".to_string())).err(), Some("bad".to_string()));
}

#[test]
fn the_suggestion_of_a_task_is_handed_back_as_it_came() {
    assert_eq!(handed_back(Some("--bar".to_string())), Some("--bar".to_string()));
    assert_eq!(handed_back(Some(String::new())), Some(String::new()));
    assert_eq!(handed_back(None), None);
}

#[test]
fn resolve_finds_the_task_and_the_tokens_after_its_name() {
    let l = log();
    let cli = abc(&l);
    let args = ["b", "x", "y"];
    let (place, rest) = cli.resolve(&args).unwrap();
    assert_eq!(place, 1);
    assert_eq!(rest, ["x", "y"]);
    let only = ["c"];
    let (place, rest) = cli.resolve(&only).unwrap();
    assert_eq!(place, 2);
    assert!(rest.is_empty());
    assert!(cli.resolve(&["zzz", "b"]).is_none());
    assert!(cli.resolve(&[]).is_none());
    assert!(entries(&l).is_empty());
}

#[test]
fn a_parse_that_succeeds_selects_a_registered_name() {
    let l = log();
    let cli = abc(&l);
    for line in ["a", "b 1", "c x y"] {
        let matches = cli.parse(line).unwrap().unwrap();
        let (name, _) = matches.subcommand().unwrap();
        assert!(["a", "b", "c"].contains(&name));
        assert!(cli.route(&matches).is_some());
    }
    assert!(cli.parse("help").is_err());
    assert!(cli.parse("--").is_err());
    assert!(entries(&l).is_empty());
}

#[test]
fn a_dispatcher_takes_a_name_made_at_run_time() {
    let name = format!("tool{}", 7);
    let cli = Cli::new(&name);
    assert_eq!(cli.command().get_name(), "tool7");
    assert_eq!(cli.label(), "tool7> ");
}

#[test]
fn label_is_the_root_name_and_an_angle() {
    assert_eq!(Cli::new("tool").label(), "tool> ");
    assert_eq!(Cli::new("").label(), "> ");
}

#[test]
fn a_dispatcher_is_a_task_under_another() {
    let l = log();
    let inner = Cli::new("inner").add_task(Probe::new("deep", &l).returning(TaskAction::Break));
    let outer = Cli::new("outer").add_task(inner).add_task(Probe::new("flat", &l));
    assert_eq!(subcommands(&outer), vec!["inner", "flat"]);
    assert_eq!(outer.suggests(&["inner", "de"]), Some("deep".to_string()));
    assert_eq!(outer.suggests(&["in"]), Some("inner".to_string()));
}
