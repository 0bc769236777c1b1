//! The dispatcher: a registry of named tasks behind one multicall root.

use clap::{ArgMatches, Command};
use vstd::prelude::*;
use vstd::slice::slice_subrange;

use crate::complete::{complete, completes_to};
use crate::grammar::{
    about_text, subcommand_abouts, command_name, copy_of, is_consistent, is_multicall, is_multicall_root, is_strict, match_tokens, name_of,
    named_command, needs_subcommand, helps_without_arguments, parse_error, parse_selection,
    selected, selected_arguments, selected_name, subcommand_names, with_arg_required_else_help, with_help_template,
    with_multicall, with_subcommand, with_subcommand_help_heading, with_subcommand_required,
    with_subcommand_value_name,
};
use crate::task::{Task, TaskAction};
use crate::text::{batch_fragments, fragments, line_words, words};
use crate::tokens::{same_text, shell_split, texts};

verus! {

/// The text reported for a line whose quoting is invalid.
pub open spec fn invalid_quoting() -> Seq<char> {
    "error: Invalid quoting"@
}

/// The name that completion offers besides the registered ones.
pub open spec fn help_name() -> Seq<char> {
    "help"@
}

/// Whether a line has no tokens.
pub open spec fn is_blank(line: Seq<char>) -> bool {
    shell_split(line) is Some && shell_split(line).unwrap().len() == 0
}

/// Whether the quoting of a line is invalid.
pub open spec fn is_misquoted(line: Seq<char>) -> bool {
    shell_split(line) is None
}

/// The error of a line under a grammar, as far as the tokenizer and the
/// parser decide it: the fixed text for invalid quoting, none for a line
/// without tokens, and else the parser's error for the tokens, if it has one.
pub open spec fn line_error(c: Command, line: Seq<char>) -> Option<Seq<char>> {
    match shell_split(line) {
        None => Some(invalid_quoting()),
        Some(tokens) => if tokens.len() == 0 {
            None
        } else {
            parse_error(c, tokens)
        },
    }
}

/// The error of the first command that has one, in the order of the commands.
pub open spec fn first_failure(c: Command, commands: Seq<Seq<char>>) -> Option<Seq<char>>
    decreases commands.len(),
{
    if commands.len() == 0 {
        None
    } else {
        match line_error(c, commands[0]) {
            Some(e) => Some(e),
            None => first_failure(c, commands.drop_first()),
        }
    }
}

/// A batch fails exactly when one of its commands is rejected by the
/// tokenizer or the parser.
pub proof fn no_failure_means_all_accepted(c: Command, commands: Seq<Seq<char>>)
    ensures
        first_failure(c, commands) is None <==> forall|i: int|
            0 <= i < commands.len() ==> line_error(c, #[trigger] commands[i]) is None,
    decreases commands.len(),
{
    if commands.len() > 0 {
        let rest = commands.drop_first();
        no_failure_means_all_accepted(c, rest);
        if line_error(c, commands[0]) is None {
            if first_failure(c, rest) is None {
                assert forall|i: int| 0 <= i < commands.len() implies line_error(
                    c,
                    #[trigger] commands[i],
                ) is None by {
                    if i > 0 {
                        assert(commands[i] == rest[i - 1]);
                    }
                }
            } else {
                let k = choose|k: int|
                    0 <= k < rest.len() && !(line_error(c, #[trigger] rest[k]) is None);
                assert(rest[k] == commands[k + 1]);
            }
        }
    }
}

/// The error of a batch is that of its first rejected command: the one
/// before which every command is accepted.
pub proof fn first_failure_is_of_the_first_rejected(c: Command, commands: Seq<Seq<char>>, i: int)
    requires
        0 <= i < commands.len(),
        line_error(c, commands[i]) is Some,
        forall|j: int| 0 <= j < i ==> line_error(c, #[trigger] commands[j]) is None,
    ensures
        first_failure(c, commands) == line_error(c, commands[i]),
    decreases i,
{
    if i > 0 {
        let rest = commands.drop_first();
        assert(line_error(c, commands[0]) is None);
        assert(rest[i - 1] == commands[i]);
        assert forall|j: int| 0 <= j < i - 1 implies line_error(c, #[trigger] rest[j]) is None by {
            assert(rest[j] == commands[j + 1]);
        }
        first_failure_is_of_the_first_rejected(c, rest, i - 1);
    }
}

/// The prompt of a dispatcher of the given name, unless the caller sets one.
pub open spec fn default_label(name: Seq<char>) -> Seq<char> {
    name + "> "@
}

/// Whether a subcommand is selected and registered under its name.
pub open spec fn routable(names: Seq<Seq<char>>, selection: Option<Seq<char>>) -> bool {
    selection is Some && names.contains(selection.unwrap())
}

/// What becomes of a resolved command's own completion: it is the
/// suggestion as it came, and where the command offers none, none is offered.
pub fn handed_back(answer: Option<String>) -> (r: Option<String>)
    ensures
        r == answer,
{
    answer
}

/// What a parsed token list becomes: the parser's matches, or its error text.
pub fn parsed(outcome: Result<ArgMatches, String>) -> (r: Result<Option<ArgMatches>, String>)
    ensures
        match outcome {
            Ok(m) => r == Ok::<Option<ArgMatches>, String>(Some(m)),
            Err(e) => r == Err::<Option<ArgMatches>, String>(e),
        },
{
    match outcome {
        Ok(m) => Ok(Some(m)),
        Err(e) => Err(e),
    }
}

/// What dispatching leads to: the action of the task that ran, unchanged, or
/// `Continue` where no task ran.
pub fn resulting_action(dispatched: Option<TaskAction>) -> (r: TaskAction)
    ensures
        r == match dispatched {
            Some(action) => action,
            None => TaskAction::Continue,
        },
{
    match dispatched {
        Some(action) => action,
        None => TaskAction::Continue,
    }
}

/// What the outcome of one command means for a batch: an error stops the
/// batch and is its error; any action, `Break` and `Exit` too, lets it go on.
pub fn batch_step(outcome: Result<TaskAction, String>) -> (stop: Option<String>)
    ensures
        stop == match outcome {
            Ok(_) => None::<String>,
            Err(e) => Some(e),
        },
{
    match outcome {
        Ok(_) => None,
        Err(e) => Some(e),
    }
}

/// A task as the registry holds it: its name, its grammar as it was at
/// registration, and the task itself.
struct Registered {
    name: String,
    grammar: Command,
    task: Box<dyn Task>,
}

impl Registered {
    /// An entry of the registry.
    fn new(name: String, grammar: Command, task: Box<dyn Task>) -> (entry: Self)
        ensures
            entry.name == name,
            entry.grammar == grammar,
    {
        Registered { name, grammar, task }
    }
}

/// What the grammars of a list of registered tasks say of themselves.
closed spec fn abouts_of(entries: Seq<Registered>) -> Seq<Option<Seq<char>>> {
    entries.map_values(|e: Registered| about_text(e.grammar))
}

/// The names of a list of registered tasks.
closed spec fn names_of(entries: Seq<Registered>) -> Seq<Seq<char>> {
    entries.map_values(|e: Registered| e.name@)
}

/// The root command of a multicall tool: it owns the registered tasks, merges
/// their grammars under its own, and routes execution and completion to them.
pub struct Cli {
    cmd: Command,
    merged: Command,
    entries: Vec<Registered>,
}

/// The root's grammar with the grammar of every entry attached as a
/// subcommand, in the order of the entries, each under the help layout of a
/// subcommand.
fn merge(root: &Command, entries: &Vec<Registered>) -> (merged: Command)
    requires
        subcommand_names(*root).len() == 0,
        subcommand_abouts(*root).len() == 0,
        forall|k: int|
            0 <= k < entries.len() ==> (#[trigger] entries[k]).name@ == command_name(
                entries[k].grammar,
            ),
    ensures
        command_name(merged) == command_name(*root),
        subcommand_names(merged) == names_of(entries@),
        subcommand_abouts(merged) == abouts_of(entries@),
        is_multicall(merged) == is_multicall(*root),
        needs_subcommand(merged) == needs_subcommand(*root),
        helps_without_arguments(merged) == helps_without_arguments(*root),
        is_strict(merged) == is_strict(*root),
{
    let mut merged = copy_of(root);
    let mut i: usize = 0;
    assert(names_of(entries@).take(0) =~= subcommand_names(merged));
    assert(abouts_of(entries@).take(0) =~= subcommand_abouts(merged));
    while i < entries.len()
        invariant
            i <= entries.len(),
            subcommand_abouts(merged) == abouts_of(entries@).take(i as int),
            forall|k: int|
                0 <= k < entries.len() ==> (#[trigger] entries[k]).name@ == command_name(
                    entries[k].grammar,
                ),
            command_name(merged) == command_name(*root),
            subcommand_names(merged) == names_of(entries@).take(i as int),
            is_multicall(merged) == is_multicall(*root),
            needs_subcommand(merged) == needs_subcommand(*root),
            helps_without_arguments(merged) == helps_without_arguments(*root),
            is_strict(merged) == is_strict(*root),
        decreases entries.len() - i,
    {
        let sub = with_help_template(
            copy_of(&entries[i].grammar),
            "{about-with-newline}\n{usage-heading}\n    {usage}\n\n{all-args}{after-help}",
        );
        merged = with_subcommand(merged, sub);
        assert(names_of(entries@).take(i + 1) =~= names_of(entries@).take(i as int).push(
            entries[i as int].name@,
        ));
        assert(abouts_of(entries@).take(i + 1) =~= abouts_of(entries@).take(i as int).push(
            about_text(entries[i as int].grammar),
        ));
        i += 1;
    }
    assert(names_of(entries@).take(i as int) =~= names_of(entries@));
    assert(abouts_of(entries@).take(i as int) =~= abouts_of(entries@));
    merged
}

impl Cli {
    #[verifier::type_invariant]
    closed spec fn inv(&self) -> bool {
        &&& subcommand_names(self.cmd).len() == 0
        &&& subcommand_abouts(self.cmd).len() == 0
        &&& subcommand_abouts(self.merged) == abouts_of(self.entries@)
        &&& is_multicall_root(self.cmd)
        &&& command_name(self.merged) == command_name(self.cmd)
        &&& subcommand_names(self.merged) == names_of(self.entries@)
        &&& is_multicall_root(self.merged)
        &&& forall|i: int|
            0 <= i < self.entries.len() ==> (#[trigger] self.entries[i]).name@ == command_name(
                self.entries[i].grammar,
            )
        &&& forall|i: int, j: int|
            0 <= i < j < self.entries.len() ==> self.entries[i].name@ != self.entries[j].name@
    }

    /// The merged grammar: the root's own, with the grammar of every
    /// registered task attached as a subcommand.
    pub closed spec fn grammar(&self) -> Command {
        self.merged
    }

    /// The grammar held under the registered name at a place, as it was when
    /// its task was registered.
    pub closed spec fn grammar_at(&self, i: int) -> Command {
        self.entries@[i].grammar
    }

    /// Whether every slot of the merged grammar shows the grammar registered
    /// at its place: its name and what it says of itself.
    pub open spec fn slots_show_grammars(&self) -> bool {
        &&& subcommand_names(self.grammar()).len() == self.names().len()
        &&& subcommand_abouts(self.grammar()).len() == self.names().len()
        &&& forall|i: int|
            0 <= i < self.names().len() ==> subcommand_names(self.grammar())[i] == command_name(
                #[trigger] self.grammar_at(i),
            ) && subcommand_abouts(self.grammar())[i] == about_text(self.grammar_at(i))
    }

    /// The slots of the merged grammar show the registered grammars.
    proof fn slots_are_shown(&self)
        requires
            self.inv(),
        ensures
            self.slots_show_grammars(),
    {
        assert forall|i: int| 0 <= i < self.names().len() implies subcommand_names(
            self.grammar(),
        )[i] == command_name(#[trigger] self.grammar_at(i)) && subcommand_abouts(self.grammar())[i]
            == about_text(self.grammar_at(i)) by {
            assert(self.entries[i].name@ == command_name(self.entries[i].grammar));
        }
    }

    /// Whether the registry holds this grammar under its name.
    pub open spec fn holds(&self, grammar: Command) -> bool {
        exists|i: int|
            0 <= i < self.names().len() && self.names()[i] == command_name(grammar)
                && #[trigger] self.grammar_at(i) == grammar
    }

    /// Whether a registry holds under every name but one the grammar that
    /// another holds under it, at the same place.
    pub open spec fn keeps_others(&self, before: &Cli, name: Seq<char>) -> bool {
        forall|i: int|
            0 <= i < before.names().len() && before.names()[i] != name ==> #[trigger] self.grammar_at(
                i,
            ) == before.grammar_at(i)
    }

    /// Whether a registry is another after a grammar was registered in it:
    /// it holds the grammar under its name, at the place of that name if the
    /// name was registered and else behind the others, and under every other
    /// name what the other registry held.
    pub open spec fn is_registration(&self, before: &Cli, grammar: Command) -> bool {
        &&& self.holds(grammar)
        &&& self.keeps_others(before, command_name(grammar))
        &&& before.names().contains(command_name(grammar)) ==> self.names() == before.names()
        &&& !before.names().contains(command_name(grammar)) ==> self.names()
            == before.names().push(command_name(grammar))
    }

    /// Whether the parser's own checks of the merged grammar pass. They are
    /// the parser's affair and the grammar authors' to meet: a grammar that
    /// fails them makes the parser panic, so lines are parsed only under one
    /// that passes.
    pub open spec fn is_sound(&self) -> bool {
        is_consistent(self.grammar())
    }

    /// The name of the root command.
    pub closed spec fn root_name(&self) -> Seq<char> {
        command_name(self.cmd)
    }

    /// The registered names, in the order of their first registration.
    pub closed spec fn names(&self) -> Seq<Seq<char>> {
        names_of(self.entries@)
    }

    /// No name is registered twice.
    proof fn names_are_distinct(&self)
        requires
            self.inv(),
        ensures
            self.names().no_duplicates(),
    {
        assert forall|i: int, j: int|
            0 <= i < self.names().len() && 0 <= j < self.names().len() && i != j implies self.names()[i]
            != self.names()[j] by {
            if i < j {
                assert(self.entries[i].name@ != self.entries[j].name@);
            } else {
                assert(self.entries[j].name@ != self.entries[i].name@);
            }
        }
    }

    /// The names against which an unresolved first token is completed.
    pub open spec fn candidates(&self) -> Seq<Seq<char>> {
        self.names().push(help_name())
    }

    /// A dispatcher of the given name with no task. Its grammar is a multicall
    /// root: no program name stands before a command, a command is required,
    /// and an empty argument list is answered with the help.
    pub fn new(name: &str) -> (cli: Self)
        ensures
            cli.root_name() == name@,
            cli.names() == Seq::<Seq<char>>::empty(),
            command_name(cli.grammar()) == name@,
            subcommand_names(cli.grammar()) == Seq::<Seq<char>>::empty(),
            subcommand_abouts(cli.grammar()) == Seq::<Option<Seq<char>>>::empty(),
            is_multicall_root(cli.grammar()),
    {
        let root = with_multicall(named_command(name), true);
        let root = with_arg_required_else_help(root, true);
        let root = with_subcommand_required(root, true);
        let root = with_subcommand_value_name(root, "APPLET");
        let root = with_subcommand_help_heading(root, "Commands");
        let cmd = with_help_template(root, "{all-args}\n    ");
        let entries: Vec<Registered> = Vec::new();
        let merged = copy_of(&cmd);
        assert(names_of(entries@) =~= Seq::<Seq<char>>::empty());
        assert(abouts_of(entries@) =~= Seq::<Option<Seq<char>>>::empty());
        Cli { cmd, merged, entries }
    }

    /// The place of a name in the registry.
    fn position(&self, name: &str) -> (r: Option<usize>)
        ensures
            match r {
                Some(i) => i < self.names().len() && self.names()[i as int] == name@,
                None => !self.names().contains(name@),
            },
    {
        let mut i: usize = 0;
        while i < self.entries.len()
            invariant
                i <= self.entries.len(),
                forall|k: int| 0 <= k < i ==> self.names()[k] != name@,
            decreases self.entries.len() - i,
        {
            if same_text(self.entries[i].name.as_str(), name) {
                return Some(i);
            }
            i += 1;
        }
        None
    }

    /// Registers a task under the name of the grammar given for it. A task
    /// registered earlier under the same name is replaced and keeps its place.
    pub fn register(self, grammar: Command, task: Box<dyn Task>) -> (cli: Self)
        ensures
            cli.root_name() == self.root_name(),
            cli.is_registration(&self, grammar),
            cli.names().no_duplicates(),
            cli.slots_show_grammars(),
            command_name(cli.grammar()) == cli.root_name(),
            subcommand_names(cli.grammar()) == cli.names(),
            is_multicall_root(cli.grammar()),
    {
        proof {
            use_type_invariant(&self);
        }
        let name = name_of(&grammar);
        let found = self.position(name.as_str());
        let Cli { cmd, merged: _, mut entries } = self;
        let ghost before = entries@;
        let ghost text = name@;
        let entry = Registered::new(name, grammar, task);
        match found {
            Some(i) => {
                assert(names_of(before)[i as int] == text);
                assert(names_of(before).contains(text));
                entries.set(i, entry);
                assert(names_of(entries@) =~= names_of(before));
                assert forall|a: int, b: int| 0 <= a < b < entries.len() implies entries[a].name@
                    != entries[b].name@ by {
                    assert(entries[a].name@ == before[a].name@);
                    assert(entries[b].name@ == before[b].name@);
                }
            },
            None => {
                assert forall|k: int| 0 <= k < before.len() implies before[k].name@ != text by {
                    assert(names_of(before)[k] == before[k].name@);
                    assert(names_of(before).contains(names_of(before)[k]));
                }
                entries.push(entry);
                assert(names_of(entries@) =~= names_of(before).push(text));
            },
        }
        let ghost place = match found {
            Some(i) => i as int,
            None => before.len() as int,
        };
        assert(entries@[place] == entry);
        assert(forall|i: int| 0 <= i < before.len() && i != place ==> entries@[i] == before[i]);
        let merged = merge(&cmd, &entries);
        let cli = Cli { cmd, merged, entries };
        proof {
            cli.names_are_distinct();
            cli.slots_are_shown();
            assert(cli.names()[place] == text);
            assert(cli.grammar_at(place) == grammar);
            assert forall|i: int|
                0 <= i < self.names().len() && self.names()[i] != text implies #[trigger] cli.grammar_at(
                i,
            ) == self.grammar_at(i) by {
                assert(i != place);
            }
        }
        cli
    }

    /// Registers a task under the name of its grammar, which is asked of the
    /// task once, here: the result is the registry after the registration of
    /// a grammar that the task's own `command` gave. A task registered earlier
    /// under the same name is replaced and keeps its place; what is held under
    /// the other names stays as it is.
    pub fn add_task<T: Task + 'static>(self, t: T) -> (cli: Self)
        ensures
            cli.root_name() == self.root_name(),
            exists|grammar: Command|
                call_ensures(T::command, (&t,), grammar) && #[trigger] cli.is_registration(
                    &self,
                    grammar,
                ),
            cli.names().no_duplicates(),
            cli.slots_show_grammars(),
            command_name(cli.grammar()) == cli.root_name(),
            subcommand_names(cli.grammar()) == cli.names(),
            is_multicall_root(cli.grammar()),
    {
        let grammar = t.command();
        let ghost given = grammar;
        assert(call_ensures(T::command, (&t,), given));
        let cli = self.register(grammar, Box::new(t));
        assert(cli.is_registration(&self, given));
        cli
    }

    /// Copies of the candidates of completion: the registered names, then `help`.
    fn candidate_list(&self) -> (l: Vec<String>)
        ensures
            texts(l@) == self.candidates(),
    {
        let mut l: Vec<String> = Vec::new();
        let mut i: usize = 0;
        assert(self.names().take(0) =~= texts(l@));
        while i < self.entries.len()
            invariant
                i <= self.entries.len(),
                texts(l@) == self.names().take(i as int),
            decreases self.entries.len() - i,
        {
            let ghost before = l@;
            let name = self.entries[i].name.clone();
            l.push(name);
            assert(texts(l@) =~= texts(before).push(self.entries[i as int].name@));
            assert(self.names().take(i + 1) =~= self.names().take(i as int).push(
                self.entries[i as int].name@,
            ));
            i += 1;
        }
        assert(self.names().take(i as int) =~= self.names());
        let ghost before = l@;
        l.push(String::from_str("help"));
        assert(texts(l@) =~= texts(before).push(help_name()));
        l
    }

    /// Finds what a token list is resolved to: the place of the task
    /// registered under the first token, and the tokens after the first,
    /// which are what that task is handed. There is none where there is no
    /// token or the first is no registered name.
    pub fn resolve<'a, 'b>(&self, args: &'a [&'b str]) -> (r: Option<(usize, &'a [&'b str])>)
        ensures
            r is Some <==> args@.len() > 0 && self.names().contains(args@[0]@),
            r is Some ==> r.unwrap().0 < self.names().len() && self.names()[r.unwrap().0 as int]
                == args@[0]@ && r.unwrap().1@ == args@.subrange(1, args@.len() as int),
    {
        if args.len() == 0 {
            return None;
        }
        match self.position(args[0]) {
            Some(i) => {
                assert(self.names().contains(self.names()[i as int]));
                Some((i, slice_subrange(args, 1, args.len())))
            },
            None => None,
        }
    }

    /// Finds what parsed arguments are routed to: the place of the task
    /// registered under the name of the selected subcommand, and the
    /// subcommand's own arguments, which are what that task is handed. There
    /// is none where no subcommand is selected or none of that name is
    /// registered.
    pub fn route<'a>(&self, matches: &'a ArgMatches) -> (r: Option<(usize, &'a ArgMatches)>)
        ensures
            r is Some <==> routable(self.names(), selected_name(*matches)),
            r is Some ==> r.unwrap().0 < self.names().len() && self.names()[r.unwrap().0 as int]
                == selected_name(*matches).unwrap() && selected_arguments(*matches) == Some(
                *r.unwrap().1,
            ),
    {
        match selected(matches) {
            Some((name, inner)) => match self.position(name) {
                Some(i) => {
                    assert(self.names().contains(self.names()[i as int]));
                    Some((i, inner))
                },
                None => None,
            },
            None => None,
        }
    }

    /// Routes parsed arguments to the task registered under the name of the
    /// selected subcommand, hands it the subcommand's own arguments, and
    /// hands back what the task returns. Where no subcommand is selected, or
    /// none of that name is registered, no task runs and there is no action.
    pub fn dispatch(&self, matches: &ArgMatches) -> (r: Option<TaskAction>)
        ensures
            r is Some <==> routable(self.names(), selected_name(*matches)),
    {
        proof {
            use_type_invariant(self);
        }
        match self.route(matches) {
            Some((i, inner)) => Some(self.entries[i].task.action(inner)),
            None => None,
        }
    }

    /// Tokenizes a line by shell-style quoting rules and parses the tokens,
    /// as they are, against the merged grammar. A line without tokens has no
    /// matches; invalid quoting is an error of a fixed text; any other line
    /// gives what the parser makes of its tokens under the merged grammar: its
    /// error text, or matches that select what the parser selects, which is a
    /// registered name. The parser is not asked about a blank or misquoted
    /// line, so for those the grammar need not be sound.
    pub fn parse(&self, line: &str) -> (r: Result<Option<ArgMatches>, String>)
        requires
            self.is_sound() || is_blank(line@) || is_misquoted(line@),
        ensures
            r is Err <==> line_error(self.grammar(), line@) is Some,
            r is Err ==> r->Err_0@ == line_error(self.grammar(), line@).unwrap(),
            r is Ok ==> (r->Ok_0 is None <==> is_blank(line@)),
            r is Ok && r->Ok_0 is Some ==> selected_name(r->Ok_0.unwrap()) == parse_selection(
                self.grammar(),
                shell_split(line@).unwrap(),
            ),
            r is Ok && r->Ok_0 is Some ==> routable(self.names(), selected_name(r->Ok_0.unwrap())),
    {
        match shlex::split(line) {
            None => Err(String::from_str("error: Invalid quoting")),
            Some(tokens) => {
                if tokens.len() == 0 {
                    Ok(None)
                } else {
                    parsed(match_tokens(self.command(), tokens))
                }
            },
        }
    }

    /// What a parsed line leads to: an error is handed on, a line without
    /// matches continues without running a task, and matches are dispatched.
    /// Matches that select no registered task run none and continue.
    pub fn settle(&self, outcome: Result<Option<ArgMatches>, String>) -> (r: Result<
        TaskAction,
        String,
    >)
        ensures
            outcome is Err ==> r is Err && r->Err_0 == outcome->Err_0,
            outcome is Ok ==> r is Ok,
            outcome is Ok && outcome->Ok_0 is None ==> r->Ok_0 == TaskAction::Continue,
            outcome is Ok && outcome->Ok_0 is Some && !routable(
                self.names(),
                selected_name(outcome->Ok_0.unwrap()),
            ) ==> r->Ok_0 == TaskAction::Continue,
    {
        match outcome {
            Err(e) => Err(e),
            Ok(None) => Ok(TaskAction::Continue),
            Ok(Some(m)) => Ok(self.action(&m)),
        }
    }

    /// Runs one line: parses it and dispatches the matches. Whether the line
    /// fails is for the tokenizer and the parser alone: a task cannot fail. A
    /// line that they reject is their error; any other line succeeds: with
    /// `Continue` where it is blank, and else with the action of the task
    /// registered under the name that the parser selected.
    pub fn run(&self, line: &str) -> (r: Result<TaskAction, String>)
        requires
            self.is_sound() || is_blank(line@) || is_misquoted(line@),
        ensures
            r is Err <==> line_error(self.grammar(), line@) is Some,
            r is Err ==> r->Err_0@ == line_error(self.grammar(), line@).unwrap(),
            r is Ok && is_blank(line@) ==> r->Ok_0 == TaskAction::Continue,
            r is Ok && !is_blank(line@) ==> routable(
                self.names(),
                parse_selection(self.grammar(), shell_split(line@).unwrap()),
            ),
    {
        self.settle(self.parse(line))
    }

    /// Runs the commands of a batch in order: the pieces between line breaks
    /// and semicolons, each without the whitespace around it. Each command is
    /// run as a line until one fails: the batch fails exactly when some
    /// command is rejected by the tokenizer or the parser, and its error is
    /// that of the first such command. No action ends a batch.
    pub fn run_batch(&self, cmd: &str) -> (r: Result<(), String>)
        requires
            self.is_sound() || forall|i: int|
                0 <= i < batch_fragments(cmd@).len() ==> is_blank(#[trigger] batch_fragments(cmd@)[i])
                    || is_misquoted(batch_fragments(cmd@)[i]),
        ensures
            r is Err <==> first_failure(self.grammar(), batch_fragments(cmd@)) is Some,
            r is Err ==> r->Err_0@ == first_failure(self.grammar(), batch_fragments(cmd@)).unwrap(),
    {
        let lines = fragments(cmd);
        let ghost all = batch_fragments(cmd@);
        let mut k: usize = 0;
        assert(all.subrange(0, all.len() as int) =~= all);
        while k < lines.len()
            invariant
                k <= lines.len(),
                self.is_sound() || forall|i: int|
                    0 <= i < all.len() ==> is_blank(#[trigger] all[i]) || is_misquoted(all[i]),
                texts(lines@) == all,
                all == batch_fragments(cmd@),
                first_failure(self.grammar(), all) == first_failure(
                    self.grammar(),
                    all.subrange(k as int, all.len() as int),
                ),
            decreases lines.len() - k,
        {
            let ghost rest = all.subrange(k as int, all.len() as int);
            assert(texts(lines@)[k as int] == lines[k as int]@);
            assert(rest[0] == lines[k as int]@);
            assert(rest.drop_first() =~= all.subrange(k + 1, all.len() as int));
            let outcome = self.run(lines[k].as_str());
            assert(rest.len() > 0);
            assert(first_failure(self.grammar(), rest) == match line_error(self.grammar(), rest[0]) {
                Some(e) => Some(e),
                None => first_failure(self.grammar(), rest.drop_first()),
            });
            match batch_step(outcome) {
                Some(e) => {
                    return Err(e);
                },
                None => {},
            }
            k += 1;
        }
        Ok(())
    }

    /// Completes the content of an edit buffer: its words are the tokens to
    /// complete, and the suggestion, if there is one, is the new content. Of
    /// the answer of a registered task nothing is known beforehand.
    pub fn suggest_line(&self, buffer: &str) -> (r: Option<String>)
        ensures
            line_words(buffer@).len() == 0 ==> r is None,
            line_words(buffer@).len() > 0 && !self.names().contains(line_words(buffer@)[0]) ==> r
                is Some && completes_to(
                self.candidates().to_set(),
                line_words(buffer@)[0],
                r.unwrap()@,
            ),
            line_words(buffer@).len() > 0 && !self.names().contains(line_words(buffer@)[0])
                ==> line_words(buffer@)[0].is_prefix_of(r.unwrap()@) && (r.unwrap()@ == line_words(
                buffer@,
            )[0] || self.candidates().contains(r.unwrap()@)),
            line_words(buffer@).len() > 0 && !self.names().contains(line_words(buffer@)[0]) && (
            exists|c: Seq<char>|
                self.candidates().contains(c) && line_words(buffer@)[0].is_prefix_of(c))
                ==> self.candidates().contains(r.unwrap()@),
    {
        let tokens = words(buffer);
        let mut args: Vec<&str> = Vec::new();
        let mut i: usize = 0;
        while i < tokens.len()
            invariant
                i <= tokens.len(),
                args.len() == i,
                forall|k: int| 0 <= k < i ==> (#[trigger] args[k])@ == tokens[k]@,
            decreases tokens.len() - i,
        {
            args.push(tokens[i].as_str());
            i += 1;
        }
        proof {
            if tokens.len() > 0 {
                assert(texts(tokens@)[0] == tokens[0]@);
            }
        }
        self.suggests(args.as_slice())
    }

    /// The prompt of an interactive session, unless the caller sets one: the
    /// name of the root command, then `> `.
    pub fn label(&self) -> (r: String)
        ensures
            r@ == default_label(self.root_name()),
    {
        let mut text = name_of(&self.cmd);
        text.append("> ");
        text
    }
}

impl Task for Cli {
    /// The merged grammar: the root's own, with the grammar of every
    /// registered task attached as a subcommand. Its subcommands are exactly
    /// the registered names, each slot shows the name and the text of the
    /// grammar registered at its place, and it is a multicall root.
    fn command(&self) -> (c: Command)
        ensures
            c == self.grammar(),
            command_name(c) == self.root_name(),
            subcommand_names(c) == self.names(),
            subcommand_names(c).no_duplicates(),
            is_multicall_root(c),
            self.slots_show_grammars(),
    {
        proof {
            use_type_invariant(self);
            self.names_are_distinct();
            self.slots_are_shown();
        }
        copy_of(&self.merged)
    }

    /// Executes the selected subcommand's task and returns its action
    /// unchanged: what `resulting_action` makes of what `dispatch` gives.
    /// Matches that select no registered task run none and continue; of the
    /// action of a task that runs nothing is known beforehand.
    fn action(&self, matches: &ArgMatches) -> (r: TaskAction)
        ensures
            !routable(self.names(), selected_name(*matches)) ==> r == TaskAction::Continue,
    {
        resulting_action(self.dispatch(matches))
    }

    /// Completes a token list. Without tokens there is no suggestion. A first
    /// token that names a registered task hands the rest to that task: what
    /// the task offers comes back as it is, and where it offers nothing,
    /// nothing is offered. Any other first token is completed against the
    /// registered names and `help`.
    fn suggests(&self, args: &[&str]) -> (r: Option<String>)
        ensures
            args@.len() == 0 ==> r is None,
            args@.len() > 0 && !self.names().contains(args@[0]@) ==> r is Some && completes_to(
                self.candidates().to_set(),
                args@[0]@,
                r.unwrap()@,
            ),
            args@.len() > 0 && !self.names().contains(args@[0]@) ==> args@[0]@.is_prefix_of(
                r.unwrap()@,
            ) && (r.unwrap()@ == args@[0]@ || self.candidates().contains(r.unwrap()@)),
            args@.len() > 0 && !self.names().contains(args@[0]@) && (exists|c: Seq<char>|
                self.candidates().contains(c) && args@[0]@.is_prefix_of(c))
                ==> self.candidates().contains(r.unwrap()@),
    {
        proof {
            use_type_invariant(self);
        }
        if args.len() == 0 {
            return None;
        }
        match self.resolve(args) {
            Some((i, rest)) => handed_back(self.entries[i].task.suggests(rest)),
            None => Some(complete(self.candidate_list(), args[0])),
        }
    }
}

} // verus!
