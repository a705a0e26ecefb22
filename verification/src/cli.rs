//! The command line: `lev <command> --function <name> [values]`.
//!
//! A command is `get`, `set` or `unset`. The function is named once, as
//! `-f NAME`, `-fNAME`, `-f=NAME`, `--function NAME` or `--function=NAME`.
//! Every other argument that does not start with `-` is a value: a
//! `NAME=VALUE` pair for `set`, a name for `unset`; `get` takes none. After
//! `--` every argument is a value, whatever it starts with. `-h` and `--help`
//! ask for help, `-V` and `--version` for the version, and so does the
//! command `help`.
//!
//! Reading goes from left to right and stops at once at an argument that
//! asks for help or the version, or that is not known. What is wrong with
//! the arguments that are known (a pair without `=`, a function named twice,
//! without a name, or not at all) is reported when all have been read.

use crate::mapping::{pair_views, text_views, Text};
use crate::merge::Request;
use crate::protocol::{get, mutate, Action, ActionView, State};
use crate::text::{chars, count_leading, find, head, is_first, leading, piece, same, tail};
use vstd::prelude::*;

verus! {

/// The name and the value that `text` gives as `NAME=VALUE`: what stands
/// before its first `=`, and what stands after it. `None` where `text` holds
/// no `=`.
pub open spec fn key_value(text: Text) -> Option<(Text, Text)> {
    if exists|at: int| is_first(text, '=', at) {
        let at = choose|at: int| is_first(text, '=', at);
        Some((text.take(at), text.skip(at + 1)))
    } else {
        None
    }
}

/// What is said of a text that should be a `NAME=VALUE` pair and holds no
/// `=`.
pub open spec fn no_equals_message(text: Text) -> Text {
    "invalid KEY=value: no `=` found in `"@ + text + "`"@
}

/// The first `=` of a text decides how it splits.
pub proof fn lemma_key_value_splits_at(text: Text, at: int)
    requires
        is_first(text, '=', at),
    ensures
        key_value(text) == Some((text.take(at), text.skip(at + 1))),
{
    let chosen = choose|at: int| is_first(text, '=', at);
    assert(chosen == at) by {
        if chosen < at {
            assert(text[chosen] != '=');
        }
        if at < chosen {
            assert(text[at] != '=');
        }
    }
}

/// Splits `NAME=VALUE` at its first `=`. Either side may be empty, and the
/// value may hold further `=`. A text without `=` is refused with a message
/// that quotes it.
pub fn parse_key_val(s: &str) -> (parsed: Result<(String, String), String>)
    ensures
        parsed is Ok <==> s@.contains('='),
        match parsed {
            Ok(pair) => key_value(s@) == Some((pair.0@, pair.1@)),
            Err(message) => key_value(s@) is None && message@ == no_equals_message(s@),
        },
{
    let letters = chars(s);
    match find(&letters, '=') {
        Some(at) => {
            proof {
                lemma_key_value_splits_at(s@, at as int);
            }
            assert(at < letters.len());
            let name = piece(s, 0, at);
            let value = piece(s, at + 1, letters.len());
            Ok((name, value))
        },
        None => {
            let message = "invalid KEY=value: no `=` found in `".to_owned().concat(s).concat("`");
            Err(message)
        },
    }
}

/// What to do, as the command line asks for it.
#[derive(Debug, Clone, PartialEq, Eq)]
pub enum Options {
    /// Show the environment of a function.
    Get { function: String },
    /// Set variables in the environment of a function.
    Assign { function: String, vars: Vec<(String, String)> },
    /// Unset variables in the environment of a function.
    Unset { function: String, names: Vec<String> },
}

/// Why a command line was not taken as [`Options`].
#[derive(Debug, Clone, PartialEq, Eq)]
pub enum UsageError {
    /// No command was given.
    MissingCommand,
    /// The argument is no command, no known option, or a value that the
    /// command does not take.
    UnexpectedArgument(String),
    /// The function option stands without a name behind it.
    MissingValue,
    /// The function was named more than once.
    RepeatedFunction,
    /// The function was not named.
    MissingFunction,
    /// A value of `set` holds no `=`; this is the message that quotes it.
    InvalidPair(String),
    /// Help was asked for.
    Help,
    /// The version was asked for.
    Version,
}

/// [`Options`] as the contracts see them.
pub enum OptionsView {
    Get { function: Text },
    Assign { function: Text, vars: Seq<(Text, Text)> },
    Unset { function: Text, names: Seq<Text> },
}

/// A [`UsageError`] as the contracts see it.
pub enum UsageErrorView {
    MissingCommand,
    UnexpectedArgument(Text),
    MissingValue,
    RepeatedFunction,
    MissingFunction,
    InvalidPair(Text),
    Help,
    Version,
}

impl View for Options {
    type V = OptionsView;

    open spec fn view(&self) -> OptionsView {
        match *self {
            Options::Get { function } => OptionsView::Get { function: function@ },
            Options::Assign { function, vars } => OptionsView::Assign {
                function: function@,
                vars: pair_views(vars@),
            },
            Options::Unset { function, names } => OptionsView::Unset {
                function: function@,
                names: text_views(names@),
            },
        }
    }
}

impl View for UsageError {
    type V = UsageErrorView;

    open spec fn view(&self) -> UsageErrorView {
        match *self {
            UsageError::MissingCommand => UsageErrorView::MissingCommand,
            UsageError::UnexpectedArgument(argument) => UsageErrorView::UnexpectedArgument(
                argument@,
            ),
            UsageError::MissingValue => UsageErrorView::MissingValue,
            UsageError::RepeatedFunction => UsageErrorView::RepeatedFunction,
            UsageError::MissingFunction => UsageErrorView::MissingFunction,
            UsageError::InvalidPair(message) => UsageErrorView::InvalidPair(message@),
            UsageError::Help => UsageErrorView::Help,
            UsageError::Version => UsageErrorView::Version,
        }
    }
}

/// One of the three commands.
#[derive(Debug, Clone, Copy, PartialEq, Eq)]
pub enum Command {
    Get,
    Assign,
    Unset,
}

/// The command that `word` names.
pub open spec fn command_named(word: Text) -> Option<Command> {
    if word == "get"@ {
        Some(Command::Get)
    } else if word == "set"@ {
        Some(Command::Assign)
    } else if word == "unset"@ {
        Some(Command::Unset)
    } else {
        None
    }
}

/// Whether `argument` is an option rather than a value: it starts with `-`
/// and is longer than that.
pub open spec fn is_option(argument: Text) -> bool {
    argument.len() >= 2 && argument[0] == '-'
}

/// `text` without the `=` signs it starts with.
pub open spec fn trimmed(text: Text) -> Text {
    text.skip(leading(text, '=') as int)
}

/// What an option says.
pub enum Meaning {
    /// It asks for help.
    Help,
    /// It asks for the version.
    Version,
    /// It names the function: by the name attached to it, or, where none is
    /// attached, by the argument that follows.
    Function(Option<Text>),
    /// It is no option of this program.
    Unknown,
}

/// What the option `argument` says.
///
/// A long option starts with two dashes or more. Its name ends at the first
/// `=`, and what follows the `=` is attached to it. A short option starts
/// with one dash, and its first letter decides: what follows `f` is attached
/// to it, and what follows `h` or `V` is not looked at. An attached name
/// loses the `=` signs it starts with.
pub open spec fn meaning(argument: Text) -> Meaning {
    let stripped = argument.skip(leading(argument, '-') as int);
    if argument.len() >= 2 && argument[1] == '-' {
        let (name, attached) = match key_value(stripped) {
            Some((name, rest)) => (name, Some(trimmed(rest))),
            None => (stripped, None),
        };
        if name == "function"@ {
            Meaning::Function(attached)
        } else if name == "help"@ {
            Meaning::Help
        } else if name == "version"@ {
            Meaning::Version
        } else {
            Meaning::Unknown
        }
    } else if stripped.len() == 0 {
        Meaning::Unknown
    } else if stripped[0] == 'f' {
        if stripped.len() == 1 {
            Meaning::Function(None)
        } else {
            Meaning::Function(Some(trimmed(stripped.skip(1))))
        }
    } else if stripped[0] == 'h' {
        Meaning::Help
    } else if stripped[0] == 'V' {
        Meaning::Version
    } else {
        Meaning::Unknown
    }
}

/// What has been read of the arguments of a command.
pub struct Gathered {
    /// The function, once it has been named.
    pub function: Option<Text>,
    /// The pairs read for `set`.
    pub vars: Seq<(Text, Text)>,
    /// The names read for `unset`.
    pub names: Seq<Text>,
    /// The first thing found wrong with the arguments read.
    pub fault: Option<UsageErrorView>,
}

impl Gathered {
    /// `self` with `fault` noted, unless a fault was noted before.
    pub open spec fn noting(self, fault: UsageErrorView) -> Gathered {
        if self.fault is Some {
            self
        } else {
            Gathered { fault: Some(fault), ..self }
        }
    }

    /// `self` after the function option has been read, with `name` as the
    /// name it gave. A second function option is a fault, and so is one
    /// without a name.
    pub open spec fn naming(self, name: Option<Text>) -> Gathered {
        if self.function is Some {
            self.noting(UsageErrorView::RepeatedFunction)
        } else {
            match name {
                Some(name) => Gathered { function: Some(name), ..self },
                None => self.noting(UsageErrorView::MissingValue),
            }
        }
    }
}

/// The options that a command and its arguments make once all are read:
/// the first fault where there is one, and otherwise the options, for which
/// the function has to be named.
pub open spec fn completed(command: Command, gathered: Gathered) -> Result<
    OptionsView,
    UsageErrorView,
> {
    match gathered.fault {
        Some(fault) => Err(fault),
        None => match gathered.function {
            None => Err(UsageErrorView::MissingFunction),
            Some(function) => Ok(
                match command {
                    Command::Get => OptionsView::Get { function },
                    Command::Assign => OptionsView::Assign { function, vars: gathered.vars },
                    Command::Unset => OptionsView::Unset { function, names: gathered.names },
                },
            ),
        },
    }
}

/// Reads the arguments `rest` of `command`, first to last, after `gathered`
/// has been read. `literal` says that `--` has been passed, so that every
/// argument is a value.
pub open spec fn scanned(
    command: Command,
    rest: Seq<Text>,
    gathered: Gathered,
    literal: bool,
) -> Result<OptionsView, UsageErrorView>
    decreases rest.len(),
{
    if rest.len() == 0 {
        completed(command, gathered)
    } else {
        let argument = rest[0];
        if literal || !is_option(argument) {
            match command {
                Command::Get => Err(UsageErrorView::UnexpectedArgument(argument)),
                Command::Assign => match key_value(argument) {
                    Some(pair) => scanned(
                        command,
                        rest.skip(1),
                        Gathered { vars: gathered.vars.push(pair), ..gathered },
                        literal,
                    ),
                    None => scanned(
                        command,
                        rest.skip(1),
                        gathered.noting(UsageErrorView::InvalidPair(no_equals_message(argument))),
                        literal,
                    ),
                },
                Command::Unset => scanned(
                    command,
                    rest.skip(1),
                    Gathered { names: gathered.names.push(argument), ..gathered },
                    literal,
                ),
            }
        } else if argument == "--"@ {
            scanned(command, rest.skip(1), gathered, true)
        } else {
            match meaning(argument) {
                Meaning::Help => Err(UsageErrorView::Help),
                Meaning::Version => Err(UsageErrorView::Version),
                Meaning::Unknown => Err(UsageErrorView::UnexpectedArgument(argument)),
                Meaning::Function(Some(name)) => scanned(
                    command,
                    rest.skip(1),
                    gathered.naming(Some(name)),
                    literal,
                ),
                Meaning::Function(None) => if rest.len() >= 2 && !is_option(rest[1]) {
                    scanned(command, rest.skip(2), gathered.naming(Some(rest[1])), literal)
                } else {
                    scanned(command, rest.skip(1), gathered.naming(None), literal)
                },
            }
        }
    }
}

/// What `help` followed by `rest` asks for: help, where nothing follows or
/// one command does, and nothing else.
pub open spec fn help_asked(rest: Seq<Text>) -> UsageErrorView {
    if rest.len() == 0 {
        UsageErrorView::Help
    } else if command_named(rest[0]) is None && rest[0] != "help"@ {
        UsageErrorView::UnexpectedArgument(rest[0])
    } else if rest.len() == 1 {
        UsageErrorView::Help
    } else {
        UsageErrorView::UnexpectedArgument(rest[1])
    }
}

/// The options that a whole command line asks for. The first argument is the
/// name the program was called by and is passed over; the second is the
/// command.
pub open spec fn parsed(args: Seq<Text>) -> Result<OptionsView, UsageErrorView> {
    if args.len() < 2 {
        Err(UsageErrorView::MissingCommand)
    } else {
        let word = args[1];
        match command_named(word) {
            Some(command) => scanned(
                command,
                args.skip(2),
                Gathered { function: None, vars: Seq::empty(), names: Seq::empty(), fault: None },
                false,
            ),
            None => if word == "help"@ {
                Err(help_asked(args.skip(2)))
            } else if is_option(word) && word != "--"@ {
                match meaning(word) {
                    Meaning::Help => Err(UsageErrorView::Help),
                    Meaning::Version => Err(UsageErrorView::Version),
                    _ => Err(UsageErrorView::UnexpectedArgument(word)),
                }
            } else {
                Err(UsageErrorView::UnexpectedArgument(word))
            },
        }
    }
}

/// The texts of a list of arguments.
pub open spec fn argument_views(args: Seq<&str>) -> Seq<Text> {
    args.map_values(|argument: &str| argument@)
}

/// The text of a function name that may not have been read yet.
pub open spec fn name_view(function: Option<String>) -> Option<Text> {
    match function {
        Some(name) => Some(name@),
        None => None,
    }
}

/// The view of a fault that may not have been found yet.
pub open spec fn fault_view(fault: Option<UsageError>) -> Option<UsageErrorView> {
    match fault {
        Some(fault) => Some(fault@),
        None => None,
    }
}

/// Whether `letters` is an option rather than a value.
fn starts_option(letters: &Vec<char>) -> (option: bool)
    ensures
        option == is_option(letters@),
{
    letters.len() >= 2 && letters[0] == '-'
}

/// The command that `word` names, if it names one.
fn command(word: &Vec<char>) -> (command: Option<Command>)
    ensures
        command == command_named(word@),
{
    if same(word, &chars("get")) {
        Some(Command::Get)
    } else if same(word, &chars("set")) {
        Some(Command::Assign)
    } else if same(word, &chars("unset")) {
        Some(Command::Unset)
    } else {
        None
    }
}

/// What an option says, with the attached name given by the place where it
/// starts in the argument.
enum Read {
    Help,
    Version,
    Function(Option<usize>),
    Unknown,
}

/// What the option `letters` says.
fn read(letters: &Vec<char>) -> (read: Read)
    requires
        is_option(letters@),
    ensures
        match read {
            Read::Help => meaning(letters@) == Meaning::Help,
            Read::Version => meaning(letters@) == Meaning::Version,
            Read::Unknown => meaning(letters@) == Meaning::Unknown,
            Read::Function(None) => meaning(letters@) == Meaning::Function(None),
            Read::Function(Some(from)) => from <= letters.len() && meaning(letters@)
                == Meaning::Function(Some(letters@.skip(from as int))),
        },
{
    let dashes = count_leading(letters, '-');
    let stripped = tail(letters, dashes);
    if letters[1] == '-' {
        let (name, attached) = match find(&stripped, '=') {
            Some(at) => {
                assert(at < stripped.len());
                let rest = tail(&stripped, at + 1);
                let signs = count_leading(&rest, '=');
                proof {
                    lemma_key_value_splits_at(stripped@, at as int);
                    assert(trimmed(rest@) =~= letters@.skip(dashes + at + 1 + signs));
                }
                (head(&stripped, at), Some(dashes + at + 1 + signs))
            },
            None => (stripped, None),
        };
        if same(&name, &chars("function")) {
            Read::Function(attached)
        } else if same(&name, &chars("help")) {
            Read::Help
        } else if same(&name, &chars("version")) {
            Read::Version
        } else {
            Read::Unknown
        }
    } else if stripped.len() == 0 {
        Read::Unknown
    } else if stripped[0] == 'f' {
        if stripped.len() == 1 {
            Read::Function(None)
        } else {
            let rest = tail(&stripped, 1);
            let signs = count_leading(&rest, '=');
            proof {
                assert(trimmed(rest@) =~= letters@.skip(dashes + 1 + signs));
            }
            Read::Function(Some(dashes + 1 + signs))
        }
    } else if stripped[0] == 'h' {
        Read::Help
    } else if stripped[0] == 'V' {
        Read::Version
    } else {
        Read::Unknown
    }
}

/// What `help` followed by the arguments from the third on asks for.
fn help(args: &[&str]) -> (asked: UsageError)
    requires
        args.len() >= 2,
    ensures
        asked@ == help_asked(argument_views(args@).skip(2)),
{
    let ghost rest = argument_views(args@).skip(2);
    if args.len() == 2 {
        return UsageError::Help;
    }
    let first = chars(args[2]);
    assert(rest[0] == first@);
    if command(&first).is_none() && !same(&first, &chars("help")) {
        UsageError::UnexpectedArgument(args[2].to_owned())
    } else if args.len() == 3 {
        UsageError::Help
    } else {
        assert(rest[1] == args[3]@);
        UsageError::UnexpectedArgument(args[3].to_owned())
    }
}

impl Options {
    /// Reads a command line, program name first.
    ///
    /// The outcome is what [`parsed`] says of the arguments: the options
    /// where the line is well formed, and otherwise what stopped the
    /// reading, or the first thing found wrong when it was done.
    pub fn from_iter(args: &[&str]) -> (outcome: Result<Options, UsageError>)
        ensures
            match outcome {
                Ok(options) => parsed(argument_views(args@)) == Ok::<OptionsView, UsageErrorView>(
                    options@,
                ),
                Err(error) => parsed(argument_views(args@)) == Err::<OptionsView, UsageErrorView>(
                    error@,
                ),
            },
    {
        let ghost all = argument_views(args@);
        if args.len() < 2 {
            return Err(UsageError::MissingCommand);
        }
        let word = chars(args[1]);
        assert(all[1] == word@);
        let command = match command(&word) {
            Some(command) => command,
            None => {
                if same(&word, &chars("help")) {
                    return Err(help(args));
                } else if starts_option(&word) && !same(&word, &chars("--")) {
                    return Err(
                        match read(&word) {
                            Read::Help => UsageError::Help,
                            Read::Version => UsageError::Version,
                            _ => UsageError::UnexpectedArgument(args[1].to_owned()),
                        },
                    );
                } else {
                    return Err(UsageError::UnexpectedArgument(args[1].to_owned()));
                }
            },
        };
        let mut function: Option<String> = None;
        let mut vars: Vec<(String, String)> = Vec::new();
        let mut names: Vec<String> = Vec::new();
        let mut fault: Option<UsageError> = None;
        let mut literal = false;
        let mut i: usize = 2;
        assert(pair_views(vars@) =~= Seq::empty());
        assert(text_views(names@) =~= Seq::empty());
        while i < args.len()
            invariant
                2 <= i <= args.len(),
                all == argument_views(args@),
                parsed(all) == scanned(
                    command,
                    all.skip(i as int),
                    Gathered {
                        function: name_view(function),
                        vars: pair_views(vars@),
                        names: text_views(names@),
                        fault: fault_view(fault),
                    },
                    literal,
                ),
            decreases args.len() - i,
        {
            let argument = args[i];
            let letters = chars(argument);
            let ghost rest = all.skip(i as int);
            proof {
                assert(rest[0] == letters@);
                assert(rest.skip(1) =~= all.skip(i + 1));
            }
            if literal || !starts_option(&letters) {
                match command {
                    Command::Get => {
                        return Err(UsageError::UnexpectedArgument(argument.to_owned()));
                    },
                    Command::Assign => match parse_key_val(argument) {
                        Ok(pair) => {
                            proof {
                                assert(pair_views(vars@.push(pair)) =~= pair_views(vars@).push(
                                    (pair.0@, pair.1@),
                                ));
                            }
                            vars.push(pair);
                        },
                        Err(message) => {
                            if fault.is_none() {
                                fault = Some(UsageError::InvalidPair(message));
                            }
                        },
                    },
                    Command::Unset => {
                        let name = argument.to_owned();
                        proof {
                            assert(text_views(names@.push(name)) =~= text_views(names@).push(
                                name@,
                            ));
                        }
                        names.push(name);
                    },
                }
                i += 1;
            } else if same(&letters, &chars("--")) {
                literal = true;
                i += 1;
            } else {
                match read(&letters) {
                    Read::Help => {
                        return Err(UsageError::Help);
                    },
                    Read::Version => {
                        return Err(UsageError::Version);
                    },
                    Read::Unknown => {
                        return Err(UsageError::UnexpectedArgument(argument.to_owned()));
                    },
                    Read::Function(Some(from)) => {
                        if function.is_some() {
                            if fault.is_none() {
                                fault = Some(UsageError::RepeatedFunction);
                            }
                        } else {
                            function = Some(piece(argument, from, letters.len()));
                        }
                        i += 1;
                    },
                    Read::Function(None) => {
                        let follows = args.len() - i >= 2 && !starts_option(&chars(args[i + 1]));
                        if function.is_some() {
                            if fault.is_none() {
                                fault = Some(UsageError::RepeatedFunction);
                            }
                        } else if follows {
                            function = Some(args[i + 1].to_owned());
                        } else if fault.is_none() {
                            fault = Some(UsageError::MissingValue);
                        }
                        if follows {
                            proof {
                                assert(rest[1] == args[i + 1]@);
                                assert(rest.skip(2) =~= all.skip(i + 2));
                            }
                            i += 2;
                        } else {
                            i += 1;
                        }
                    },
                }
            }
        }
        match fault {
            Some(fault) => Err(fault),
            None => match function {
                None => Err(UsageError::MissingFunction),
                Some(function) => Ok(
                    match command {
                        Command::Get => Options::Get { function },
                        Command::Assign => Options::Assign { function, vars },
                        Command::Unset => Options::Unset { function, names },
                    },
                ),
            },
        }
    }

    /// Starts what the options ask for: a read for `get`, a change for the
    /// other two.
    pub fn start<G, U>(self) -> (begun: (State, Action<G, U>))
        ensures
            begun.1@ == (ActionView::<G, U>::GetFunctionConfiguration {
                function_name: self.function()@,
            }),
            begun.0 == (State::Fetching {
                function_name: self.function(),
                request: self.request(),
            }),
    {
        match self {
            Options::Get { function } => get(function),
            Options::Assign { function, vars } => mutate(function, Request::Assign(vars)),
            Options::Unset { function, names } => mutate(function, Request::Remove(names)),
        }
    }

    /// The function that the options name.
    pub open spec fn function(self) -> String {
        match self {
            Options::Get { function } => function,
            Options::Assign { function, .. } => function,
            Options::Unset { function, .. } => function,
        }
    }

    /// The change that the options ask for, `None` for a read.
    pub open spec fn request(self) -> Option<Request> {
        match self {
            Options::Get { .. } => None,
            Options::Assign { vars, .. } => Some(Request::Assign(vars)),
            Options::Unset { names, .. } => Some(Request::Remove(names)),
        }
    }
}

} // verus!
