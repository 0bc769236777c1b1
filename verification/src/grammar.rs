//! Grammars and parsed arguments, as the argument parser holds them.
//!
//! A grammar is opaque here. What is said of it goes by names: its own name
//! and what it says of itself, the same of the subcommands attached to it,
//! some of its settings, whether
//! the parser's own checks of it pass, and what the parser makes of a token
//! list under it. Every function of this file hands its arguments to the
//! argument parser and states what the parser does to those; none of it is
//! proved.

use clap::{ArgMatches, Command};
use vstd::prelude::*;

use crate::tokens::texts;

verus! {

/// `clap::Command`, a grammar: carried through, never looked into.
#[verifier::external_type_specification]
#[verifier::external_body]
pub struct ExCommand(Command);

/// `clap::ArgMatches`, parsed arguments: carried through, never looked into.
#[verifier::external_type_specification]
#[verifier::external_body]
pub struct ExArgMatches(ArgMatches);

/// The name of a grammar: what `Command::get_name` reads.
pub uninterp spec fn command_name(c: Command) -> Seq<char>;

/// The names of the subcommands attached to a grammar, in the order of attachment.
pub uninterp spec fn subcommand_names(c: Command) -> Seq<Seq<char>>;

/// The text that a grammar says of itself in the help, if it says one: what
/// `Command::get_about` reads, as plain text.
pub uninterp spec fn about_text(c: Command) -> Option<Seq<char>>;

/// What the subcommands attached to a grammar say of themselves, in the order
/// of attachment.
pub uninterp spec fn subcommand_abouts(c: Command) -> Seq<Option<Seq<char>>>;

/// Whether a grammar is in multicall mode: its first token is a subcommand's
/// name, with no program name before it.
pub uninterp spec fn is_multicall(c: Command) -> bool;

/// Whether a grammar asks for a subcommand.
pub uninterp spec fn needs_subcommand(c: Command) -> bool;

/// Whether a grammar answers an empty argument list with its help.
pub uninterp spec fn helps_without_arguments(c: Command) -> bool;

/// Whether a grammar is strict: it neither admits subcommands that it does
/// not know nor ignores errors. A grammar is strict unless it is told
/// otherwise.
pub uninterp spec fn is_strict(c: Command) -> bool;

/// Whether the parser's own checks of a grammar and of its subcommands pass,
/// so that building them for a parse does not panic. The checks are the
/// parser's: an argument declared twice, a conflict with an argument that
/// does not exist, and the like.
pub uninterp spec fn is_consistent(c: Command) -> bool;

/// The error text that the parser gives for a token list under a grammar, or
/// `None` where it accepts the tokens.
pub uninterp spec fn parse_error(c: Command, tokens: Seq<Seq<char>>) -> Option<Seq<char>>;

/// The name of the subcommand that the parser selects for a token list that it
/// accepts under a grammar, if it selects one.
pub uninterp spec fn parse_selection(c: Command, tokens: Seq<Seq<char>>) -> Option<Seq<char>>;

/// The name of the subcommand that parsed arguments select, if they select one.
pub uninterp spec fn selected_name(m: ArgMatches) -> Option<Seq<char>>;

/// The selected subcommand's own arguments within parsed arguments, if they
/// select one.
pub uninterp spec fn selected_arguments(m: ArgMatches) -> Option<ArgMatches>;

/// The settings of a multicall root: multicall mode, a subcommand required,
/// help for an empty argument list, and strictness.
pub open spec fn is_multicall_root(c: Command) -> bool {
    is_multicall(c) && needs_subcommand(c) && helps_without_arguments(c) && is_strict(c)
}

/// Whether two grammars have the same name, the same text about themselves,
/// the same names and texts of their subcommands, and the same settings.
pub open spec fn same_shape(r: Command, c: Command) -> bool {
    &&& command_name(r) == command_name(c)
    &&& subcommand_names(r) == subcommand_names(c)
    &&& is_multicall(r) == is_multicall(c)
    &&& needs_subcommand(r) == needs_subcommand(c)
    &&& helps_without_arguments(r) == helps_without_arguments(c)
    &&& is_strict(r) == is_strict(c)
    &&& about_text(r) == about_text(c)
    &&& subcommand_abouts(r) == subcommand_abouts(c)
}

/// `Command::new`: a grammar of the given name with no subcommand, no
/// argument of its own and every setting at its default: it is strict, and it
/// passes the parser's checks.
#[verifier::external_body]
pub(crate) fn named_command(name: &str) -> (c: Command)
    ensures
        command_name(c) == name@,
        subcommand_names(c) == Seq::<Seq<char>>::empty(),
        about_text(c) is None,
        subcommand_abouts(c) == Seq::<Option<Seq<char>>>::empty(),
        is_strict(c),
        is_consistent(c),
{
    Command::new(name.to_string())
}

/// `Command::multicall`: sets that one setting; the name, the subcommands and
/// the other settings stay.
#[verifier::external_body]
pub(crate) fn with_multicall(c: Command, yes: bool) -> (r: Command)
    ensures
        command_name(r) == command_name(c),
        subcommand_names(r) == subcommand_names(c),
        is_multicall(r) == yes,
        needs_subcommand(r) == needs_subcommand(c),
        helps_without_arguments(r) == helps_without_arguments(c),
        is_strict(r) == is_strict(c),
        about_text(r) == about_text(c),
        subcommand_abouts(r) == subcommand_abouts(c),
{
    c.multicall(yes)
}

/// `Command::arg_required_else_help`: sets that one setting; the name, the
/// subcommands and the other settings stay.
#[verifier::external_body]
pub(crate) fn with_arg_required_else_help(c: Command, yes: bool) -> (r: Command)
    ensures
        command_name(r) == command_name(c),
        subcommand_names(r) == subcommand_names(c),
        is_multicall(r) == is_multicall(c),
        needs_subcommand(r) == needs_subcommand(c),
        helps_without_arguments(r) == yes,
        is_strict(r) == is_strict(c),
        about_text(r) == about_text(c),
        subcommand_abouts(r) == subcommand_abouts(c),
{
    c.arg_required_else_help(yes)
}

/// `Command::subcommand_required`: sets that one setting; the name, the
/// subcommands and the other settings stay.
#[verifier::external_body]
pub(crate) fn with_subcommand_required(c: Command, yes: bool) -> (r: Command)
    ensures
        command_name(r) == command_name(c),
        subcommand_names(r) == subcommand_names(c),
        is_multicall(r) == is_multicall(c),
        needs_subcommand(r) == yes,
        helps_without_arguments(r) == helps_without_arguments(c),
        is_strict(r) == is_strict(c),
        about_text(r) == about_text(c),
        subcommand_abouts(r) == subcommand_abouts(c),
{
    c.subcommand_required(yes)
}

/// `Command::subcommand_value_name`: a text of the help output; the name, the
/// subcommands and the settings stay.
#[verifier::external_body]
pub(crate) fn with_subcommand_value_name(c: Command, value_name: &'static str) -> (r: Command)
    ensures
        same_shape(r, c),
{
    c.subcommand_value_name(value_name)
}

/// `Command::subcommand_help_heading`: a text of the help output; the name,
/// the subcommands and the settings stay.
#[verifier::external_body]
pub(crate) fn with_subcommand_help_heading(c: Command, heading: &'static str) -> (r: Command)
    ensures
        same_shape(r, c),
{
    c.subcommand_help_heading(heading)
}

/// `Command::help_template`: the layout of the help output; the name, the
/// subcommands and the settings stay.
#[verifier::external_body]
pub(crate) fn with_help_template(c: Command, template: &'static str) -> (r: Command)
    ensures
        same_shape(r, c),
{
    c.help_template(template)
}

/// `Command::subcommand`: the second grammar is appended to the subcommands of
/// the first, under its own name and with its own text about itself; the
/// first keeps its name, its text and its settings.
#[verifier::external_body]
pub(crate) fn with_subcommand(c: Command, sub: Command) -> (r: Command)
    ensures
        command_name(r) == command_name(c),
        subcommand_names(r) == subcommand_names(c).push(command_name(sub)),
        is_multicall(r) == is_multicall(c),
        needs_subcommand(r) == needs_subcommand(c),
        helps_without_arguments(r) == helps_without_arguments(c),
        is_strict(r) == is_strict(c),
        about_text(r) == about_text(c),
        subcommand_abouts(r) == subcommand_abouts(c).push(about_text(sub)),
{
    c.subcommand(sub)
}

/// `Command::clone`: the same grammar once more.
#[verifier::external_body]
pub(crate) fn copy_of(c: &Command) -> (r: Command)
    ensures
        r == *c,
{
    c.clone()
}

/// `Command::get_name`, copied into a `String`.
#[verifier::external_body]
pub(crate) fn name_of(c: &Command) -> (s: String)
    ensures
        s@ == command_name(*c),
{
    c.get_name().to_string()
}

/// `Command::try_get_matches_from`, with the parser's error rendered as text
/// by its `Display`. The parser builds the grammar first and panics where its
/// own checks of the grammar fail: such a grammar is left out. What it makes
/// of the tokens depends on the grammar and the tokens alone, and goes by the
/// names `parse_error` and `parse_selection`. Under a strict grammar the
/// parser's validation refuses tokens that select no subcommand where one is
/// required, and a subcommand that it selects is one of the grammar's own,
/// under that subcommand's name.
#[verifier::external_body]
pub(crate) fn match_tokens(c: Command, tokens: Vec<String>) -> (r: Result<ArgMatches, String>)
    requires
        is_consistent(c),
    ensures
        r is Err <==> parse_error(c, texts(tokens@)) is Some,
        r is Err ==> r->Err_0@ == parse_error(c, texts(tokens@)).unwrap(),
        r is Ok ==> selected_name(r->Ok_0) == parse_selection(c, texts(tokens@)),
        r is Ok && is_strict(c) && needs_subcommand(c) ==> parse_selection(c, texts(tokens@))
            is Some,
        r is Ok && is_strict(c) && parse_selection(c, texts(tokens@)) is Some
            ==> subcommand_names(c).contains(parse_selection(c, texts(tokens@)).unwrap()),
{
    c.try_get_matches_from(tokens).map_err(|e| e.to_string())
}

/// `ArgMatches::subcommand`: the selected subcommand's name and its own
/// arguments, if one was selected.
#[verifier::external_body]
pub(crate) fn selected<'a>(m: &'a ArgMatches) -> (r: Option<(&'a str, &'a ArgMatches)>)
    ensures
        r is Some <==> selected_name(*m) is Some,
        r is Some ==> r.unwrap().0@ == selected_name(*m).unwrap(),
        r is Some ==> selected_arguments(*m) == Some(*r.unwrap().1),
        r is None ==> selected_arguments(*m) is None,
{
    m.subcommand()
}

} // verus!
