//! Deciding what a line of arguments asks for, and doing it.
//!
//! One argument of the line names the command: the first in an interactive
//! session, the second where the line is a program's argument list, whose
//! first argument is the program's own name. The name is held against the
//! built-ins first, `quit`, `exit` and `help`, so that no registered command
//! can take their place, and then looked up in the registry.
//!
//! A command that runs at once is called here. One that has to be awaited is
//! handed back to the caller, where the dispatcher was told that the caller
//! can await; otherwise it is refused.
//!
//! Nothing is printed here. What there is to show comes back as a report.

use vstd::prelude::*;
use crate::command::{callable, Command, CommandType};
use crate::registry::{place_of, Registry};
use crate::text::{
    byte_len, count_bytes, is_word, lemma_byte_len_covers, lemma_spaces_add, lemma_texts_push, padded,
    push_spaces, texts,
};

verus! {

/// Where the arguments come from.
#[derive(Debug, Clone, Copy, PartialEq, Eq, Structural)]
pub enum Personality {
    /// A line typed into a running shell: the first argument is the command.
    Interactive,
    /// The argument list of a program: the first argument is the program's
    /// name, the second is the command, and the built-ins can be written as
    /// flags too.
    CommandLine,
}

/// The one dispatch algorithm, with what tells its uses apart.
#[derive(Clone, Copy)]
pub struct Dispatcher<'a> {
    /// Where the arguments come from.
    pub personality: Personality,
    /// Whether the caller can await a command.
    pub asynchronous: bool,
    /// The name to show for the program in the usage line, in place of the
    /// first argument. Only read for a program's argument list.
    pub project: Option<&'a String>,
}

/// What a line of arguments asks for.
#[derive(Debug, Clone, Copy, PartialEq, Eq, Structural)]
pub enum Resolution {
    /// Nothing: the line has no command.
    Idle,
    /// To end the session.
    Quit,
    /// The list of commands.
    Help,
    /// A command that is not registered.
    NotFound,
    /// The registered command at this place of the registry.
    Found(usize),
}

/// A request that the dispatcher turned down.
#[derive(Debug, PartialEq, Eq)]
pub enum DispatchError {
    /// No command is registered under this name.
    CommandNotFound(String),
    /// The command has to be awaited, and the caller cannot await.
    UnsupportedAsync,
}

impl DispatchError {
    /// The refusal in words.
    pub open spec fn text(&self, personality: Personality) -> Seq<char> {
        match *self {
            DispatchError::CommandNotFound(name) => "Command not found: "@ + name@,
            DispatchError::UnsupportedAsync => match personality {
                Personality::Interactive => "Async commands cannot be run in sync shells."@,
                Personality::CommandLine => "Async commands cannot be run in sync apps."@,
            },
        }
    }

    /// The refusal in words, for the user of a shell of this personality.
    pub fn message(&self, personality: Personality) -> (message: String)
        ensures
            message@ == self.text(personality),
    {
        match self {
            DispatchError::CommandNotFound(name) => {
                let mut message = String::from_str("Command not found: ");
                message.append(name.as_str());
                message
            },
            DispatchError::UnsupportedAsync => match personality {
                Personality::Interactive => String::from_str(
                    "Async commands cannot be run in sync shells.",
                ),
                Personality::CommandLine => String::from_str(
                    "Async commands cannot be run in sync apps.",
                ),
            },
        }
    }
}

/// What a dispatch has to show to the user.
#[derive(Debug, PartialEq, Eq)]
pub enum Report<E> {
    /// Nothing.
    Silent,
    /// The help text, line by line.
    Help(Vec<String>),
    /// The request was turned down.
    Refused(DispatchError),
    /// The command ran and failed with this error.
    Failed(E),
}

/// How a dispatch ended.
#[derive(Debug, PartialEq, Eq)]
pub struct Outcome<E> {
    /// The session is to end.
    pub terminate: bool,
    /// What to show to the user.
    pub report: Report<E>,
}

/// How far a dispatch got.
#[derive(Debug, PartialEq, Eq)]
pub enum Step<E> {
    /// To the end.
    Done(Outcome<E>),
    /// To a command that the caller has to await: the command at `place` of
    /// the registry, to be called with `args`. Its result goes to
    /// [`conclude`].
    Await { place: usize, args: Vec<String> },
}

/// A report, with its texts as sequences of characters.
pub enum ReportView<E> {
    Silent,
    Help(Seq<Seq<char>>),
    NotFound(Seq<char>),
    UnsupportedAsync,
    Failed(E),
}

/// An outcome, with its texts as sequences of characters.
pub struct OutcomeView<E> {
    pub terminate: bool,
    pub report: ReportView<E>,
}

/// A step, with its texts as sequences of characters.
pub enum StepView<E> {
    Done(OutcomeView<E>),
    Await { place: usize, args: Seq<Seq<char>> },
}

impl<E> View for Report<E> {
    type V = ReportView<E>;

    open spec fn view(&self) -> ReportView<E> {
        match *self {
            Report::Silent => ReportView::Silent,
            Report::Help(lines) => ReportView::Help(texts(lines@)),
            Report::Refused(DispatchError::CommandNotFound(name)) => ReportView::NotFound(name@),
            Report::Refused(DispatchError::UnsupportedAsync) => ReportView::UnsupportedAsync,
            Report::Failed(error) => ReportView::Failed(error),
        }
    }
}

impl<E> View for Outcome<E> {
    type V = OutcomeView<E>;

    open spec fn view(&self) -> OutcomeView<E> {
        OutcomeView { terminate: self.terminate, report: self.report@ }
    }
}

impl<E> View for Step<E> {
    type V = StepView<E>;

    open spec fn view(&self) -> StepView<E> {
        match *self {
            Step::Done(outcome) => StepView::Done(outcome@),
            Step::Await { place, args } => StepView::Await { place, args: texts(args@) },
        }
    }
}

/// The place of the command's name among the arguments.
pub open spec fn command_at(personality: Personality) -> int {
    match personality {
        Personality::Interactive => 0,
        Personality::CommandLine => 1,
    }
}

/// `name` asks to end the session.
pub open spec fn is_quit(name: Seq<char>, personality: Personality) -> bool {
    ||| name == "quit"@
    ||| name == "exit"@
    ||| personality == Personality::CommandLine && (name == "--quit"@ || name == "--exit"@)
}

/// `name` asks for the help text.
pub open spec fn is_help(name: Seq<char>, personality: Personality) -> bool {
    ||| name == "help"@
    ||| personality == Personality::CommandLine && name == "--help"@
}

/// What the arguments `tokens` ask for, with `entries` registered.
pub open spec fn resolution<C, A>(
    tokens: Seq<Seq<char>>,
    entries: Seq<(Seq<char>, Command<C, A>)>,
    personality: Personality,
) -> Resolution {
    if tokens.len() <= command_at(personality) {
        Resolution::Idle
    } else {
        let name = tokens[command_at(personality)];
        if is_quit(name, personality) {
            Resolution::Quit
        } else if is_help(name, personality) {
            Resolution::Help
        } else {
            match place_of(entries, name) {
                Some(place) => Resolution::Found(place as usize),
                None => Resolution::NotFound,
            }
        }
    }
}

/// The arguments that a command is called with: its own name, and what
/// follows it.
pub open spec fn arguments(tokens: Seq<Seq<char>>, personality: Personality) -> Seq<Seq<char>> {
    tokens.skip(command_at(personality))
}

impl Personality {
    /// The place of the command's name among the arguments.
    pub fn command_at(&self) -> (place: usize)
        ensures
            place == command_at(*self),
    {
        match self {
            Personality::Interactive => 0,
            Personality::CommandLine => 1,
        }
    }

    /// Whether `name` asks to end the session.
    pub fn is_quit(&self, name: &String) -> (quit: bool)
        ensures
            quit == is_quit(name@, *self),
    {
        is_word(name, "quit") || is_word(name, "exit") || (matches!(
            self,
            Personality::CommandLine
        ) && (is_word(name, "--quit") || is_word(name, "--exit")))
    }

    /// Whether `name` asks for the help text.
    pub fn is_help(&self, name: &String) -> (help: bool)
        ensures
            help == is_help(name@, *self),
    {
        is_word(name, "help") || (matches!(self, Personality::CommandLine) && is_word(
            name,
            "--help",
        ))
    }
}

/// Decides what the arguments ask for, without doing it.
pub fn resolve<C, A>(
    tokens: &Vec<String>,
    commands: &Registry<C, A>,
    personality: Personality,
) -> (found: Resolution)
    requires
        commands.wf(),
    ensures
        found == resolution(texts(tokens@), commands@, personality),
        found matches Resolution::Found(place) ==> place < commands@.len() && commands@[place as int].0
            == texts(tokens@)[command_at(personality)],
{
    let at: usize = personality.command_at();
    if tokens.len() <= at {
        return Resolution::Idle;
    }
    let name = &tokens[at];
    assert(name@ == texts(tokens@)[at as int]);
    if personality.is_quit(name) {
        Resolution::Quit
    } else if personality.is_help(name) {
        Resolution::Help
    } else {
        match commands.index_of(name.as_str()) {
            Some(place) => Resolution::Found(place),
            None => Resolution::NotFound,
        }
    }
}

/// The line of a command in the help text of an interactive session.
pub open spec fn entry_line(name: Seq<char>, help: Seq<char>) -> Seq<char> {
    "    "@ + name + " - "@ + help
}

/// The line of a command in the help text of a program: the names stand in a
/// column of `width` characters.
pub open spec fn column_line(name: Seq<char>, help: Seq<char>, width: nat) -> Seq<char> {
    "    "@ + padded(name, width) + help
}

/// The longest name of the built-ins and of `entries`, counted in bytes.
pub open spec fn longest_name<C, A>(entries: Seq<(Seq<char>, Command<C, A>)>) -> nat
    decreases entries.len(),
{
    if entries.len() == 0 {
        4
    } else {
        let before = longest_name(entries.drop_last());
        let last = byte_len(entries.last().0);
        if last > before {
            last
        } else {
            before
        }
    }
}

/// The help text of an interactive session: the shell's description, the
/// built-ins, and the registered commands in the registry's order.
pub open spec fn interactive_help<C, A>(
    description: Seq<char>,
    entries: Seq<(Seq<char>, Command<C, A>)>,
) -> Seq<Seq<char>> {
    seq![
        description,
        "    help - displays help information."@,
        "    quit - quits the shell."@,
        "    exit - exits the shell."@,
    ] + Seq::new(entries.len(), |i: int| entry_line(entries[i].0, entries[i].1.help@))
}

/// The help text of a program: its name, the description, how to call it,
/// the built-ins, and the registered commands in the registry's order.
pub open spec fn command_line_help<C, A>(
    program: Seq<char>,
    shown: Seq<char>,
    description: Seq<char>,
    entries: Seq<(Seq<char>, Command<C, A>)>,
) -> Seq<Seq<char>> {
    let width: nat = longest_name(entries) + 5;
    seq![
        program,
        description,
        "USAGE:"@,
        "    "@ + shown + " [SUBCOMMAND]"@,
        Seq::<char>::empty(),
        "Where [SUBCOMMAND] is one of:"@,
        column_line("help"@, "displays help information."@, width),
        column_line("quit"@, "deletes all temporary state information."@, width),
        column_line("exit"@, "deletes all temporary state information."@, width),
    ] + Seq::new(entries.len(), |i: int| column_line(entries[i].0, entries[i].1.help@, width))
}

/// Every command of `entries` that runs at once may be called on every state
/// and on every list of arguments.
pub open spec fn runnable<T, E, C: Fn(&mut T, Vec<String>) -> Result<(), E>, A>(
    entries: Seq<(Seq<char>, Command<C, A>)>,
) -> bool {
    forall|i: int|
        0 <= i < entries.len() ==> (#[trigger] entries[i].1.command matches CommandType::Sync(action)
            ==> callable::<T, E, C>(action))
}

/// How a dispatch ends with the result of the command that it ran: a failure
/// is reported, and the session goes on either way.
pub open spec fn concluded<E>(result: Result<(), E>) -> OutcomeView<E> {
    match result {
        Ok(_) => OutcomeView { terminate: false, report: ReportView::Silent },
        Err(error) => OutcomeView { terminate: false, report: ReportView::Failed(error) },
    }
}

/// Ends a dispatch with the result of the command that it ran.
pub fn conclude<E>(result: Result<(), E>) -> (outcome: Outcome<E>)
    ensures
        outcome@ == concluded(result),
{
    match result {
        Ok(_) => Outcome { terminate: false, report: Report::Silent },
        Err(error) => Outcome { terminate: false, report: Report::Failed(error) },
    }
}

/// No name is longer than the longest, which is at least as long as a
/// built-in.
pub proof fn lemma_longest_name<C, A>(entries: Seq<(Seq<char>, Command<C, A>)>)
    ensures
        longest_name(entries) >= 4,
        forall|i: int| 0 <= i < entries.len() ==> byte_len(#[trigger] entries[i].0) <= longest_name(entries),
    decreases entries.len(),
{
    if entries.len() > 0 {
        lemma_longest_name(entries.drop_last());
        assert forall|i: int| 0 <= i < entries.len() implies byte_len(#[trigger] entries[i].0)
            <= longest_name(entries) by {
            if i < entries.len() - 1 {
                assert(entries.drop_last()[i] == entries[i]);
            }
        }
    }
}

/// The length of the longest name of the built-ins and of `commands`.
fn measure<C, A>(commands: &Registry<C, A>) -> (longest: usize)
    requires
        commands.wf(),
    ensures
        longest == longest_name(commands@),
{
    let count: usize = commands.len();
    let mut longest: usize = 4;
    let mut place: usize = 0;
    assert(commands@.take(0) =~= Seq::<(Seq<char>, Command<C, A>)>::empty());
    while place < count
        invariant
            commands.wf(),
            count == commands@.len(),
            place <= count,
            longest == longest_name(commands@.take(place as int)),
        decreases count - place,
    {
        assert(commands@.take(place + 1).drop_last() =~= commands@.take(place as int));
        if let Some((name, _)) = commands.entry(place) {
            let bytes: usize = count_bytes(name.as_str());
            if bytes > longest {
                longest = bytes;
            }
        }
        place = place + 1;
    }
    assert(commands@.take(count as int) =~= commands@);
    longest
}

/// One line of the help text of an interactive session.
fn write_entry(name: &str, help: &str) -> (line: String)
    ensures
        line@ == entry_line(name@, help@),
{
    let mut line = String::from_str("    ");
    line.append(name);
    line.append(" - ");
    line.append(help);
    line
}

/// One line of the help text of a program, the name in a column that is
/// `longest + 5` characters wide.
fn write_column(name: &str, help: &str, longest: usize) -> (line: String)
    requires
        byte_len(name@) <= longest,
    ensures
        line@ == column_line(name@, help@, (longest + 5) as nat),
{
    let mut line = String::from_str("    ");
    line.append(name);
    let length: usize = name.unicode_len();
    proof {
        lemma_byte_len_covers(name@);
        lemma_spaces_add((longest - length) as nat, 5);
    }
    push_spaces(&mut line, longest - length);
    push_spaces(&mut line, 5);
    assert(line@ =~= "    "@ + padded(name@, (longest + 5) as nat));
    line.append(help);
    line
}

/// The help text of an interactive session.
fn write_interactive_help<C, A>(description: &str, commands: &Registry<C, A>) -> (lines: Vec<String>)
    requires
        commands.wf(),
    ensures
        texts(lines@) == interactive_help(description@, commands@),
{
    let mut lines: Vec<String> = Vec::new();
    lines.push(String::from_str(description));
    lines.push(String::from_str("    help - displays help information."));
    lines.push(String::from_str("    quit - quits the shell."));
    lines.push(String::from_str("    exit - exits the shell."));
    let ghost head = texts(lines@);
    let count: usize = commands.len();
    let mut place: usize = 0;
    assert(texts(lines@) =~= head + Seq::new(
        0,
        |i: int| entry_line(commands@[i].0, commands@[i].1.help@),
    ));
    while place < count
        invariant
            commands.wf(),
            count == commands@.len(),
            place <= count,
            texts(lines@) == head + Seq::new(
                place as nat,
                |i: int| entry_line(commands@[i].0, commands@[i].1.help@),
            ),
        decreases count - place,
    {
        if let Some((name, command)) = commands.entry(place) {
            let line = write_entry(name.as_str(), command.help.as_str());
            let ghost before = lines@;
            lines.push(line);
            proof {
                lemma_texts_push(before, line);
                assert(texts(lines@) =~= head + Seq::new(
                    (place + 1) as nat,
                    |i: int| entry_line(commands@[i].0, commands@[i].1.help@),
                ));
            }
        }
        place = place + 1;
    }
    assert(head =~= seq![
        description@,
        "    help - displays help information."@,
        "    quit - quits the shell."@,
        "    exit - exits the shell."@,
    ]);
    lines
}

/// The help text of a program.
fn write_command_line_help<C, A>(
    program: &str,
    shown: &str,
    description: &str,
    commands: &Registry<C, A>,
) -> (lines: Vec<String>)
    requires
        commands.wf(),
    ensures
        texts(lines@) == command_line_help(program@, shown@, description@, commands@),
{
    let longest: usize = measure(commands);
    proof {
        lemma_longest_name(commands@);
        reveal_strlit("help");
        reveal_strlit("quit");
        reveal_strlit("exit");
        lemma_four_bytes("help"@);
        lemma_four_bytes("quit"@);
        lemma_four_bytes("exit"@);
    }
    let ghost width = (longest + 5) as nat;
    let mut usage = String::from_str("    ");
    usage.append(shown);
    usage.append(" [SUBCOMMAND]");
    let mut lines: Vec<String> = Vec::new();
    lines.push(String::from_str(program));
    lines.push(String::from_str(description));
    lines.push(String::from_str("USAGE:"));
    lines.push(usage);
    lines.push(String::new());
    lines.push(String::from_str("Where [SUBCOMMAND] is one of:"));
    lines.push(write_column("help", "displays help information.", longest));
    lines.push(write_column("quit", "deletes all temporary state information.", longest));
    lines.push(write_column("exit", "deletes all temporary state information.", longest));
    let ghost head = texts(lines@);
    let count: usize = commands.len();
    let mut place: usize = 0;
    assert(texts(lines@) =~= head + Seq::new(
        0,
        |i: int| column_line(commands@[i].0, commands@[i].1.help@, width),
    ));
    while place < count
        invariant
            commands.wf(),
            count == commands@.len(),
            place <= count,
            longest == longest_name(commands@),
            width == longest + 5,
            forall|i: int| 0 <= i < commands@.len() ==> byte_len(#[trigger] commands@[i].0) <= longest,
            texts(lines@) == head + Seq::new(
                place as nat,
                |i: int| column_line(commands@[i].0, commands@[i].1.help@, width),
            ),
        decreases count - place,
    {
        if let Some((name, command)) = commands.entry(place) {
            assert(byte_len(commands@[place as int].0) <= longest);
            let line = write_column(name.as_str(), command.help.as_str(), longest);
            let ghost before = lines@;
            lines.push(line);
            proof {
                lemma_texts_push(before, line);
                assert(texts(lines@) =~= head + Seq::new(
                    (place + 1) as nat,
                    |i: int| column_line(commands@[i].0, commands@[i].1.help@, width),
                ));
            }
        }
        place = place + 1;
    }
    assert(head =~= seq![
        program@,
        description@,
        "USAGE:"@,
        "    "@ + shown@ + " [SUBCOMMAND]"@,
        Seq::<char>::empty(),
        "Where [SUBCOMMAND] is one of:"@,
        column_line("help"@, "displays help information."@, width),
        column_line("quit"@, "deletes all temporary state information."@, width),
        column_line("exit"@, "deletes all temporary state information."@, width),
    ]);
    lines
}

/// Four characters below U+0080 take four bytes.
proof fn lemma_four_bytes(text: Seq<char>)
    requires
        text.len() == 4,
        forall|i: int| 0 <= i < 4 ==> (text[i] as u32) < 0x80,
    ensures
        byte_len(text) == 4,
{
    reveal_with_fuel(vstd::utf8::encode_utf8, 5);
    let a = text.drop_first();
    let b = a.drop_first();
    let c = b.drop_first();
    let d = c.drop_first();
    assert(a[0] == text[1] && b[0] == text[2] && c[0] == text[3]);
    assert(d.len() == 0);
}

impl<'a> Dispatcher<'a> {
    /// The name shown for the program in the usage line.
    pub open spec fn shown(&self, program: Seq<char>) -> Seq<char> {
        match self.project {
            Some(project) => project@,
            None => program,
        }
    }

    /// The help text for the arguments `tokens`.
    pub open spec fn help<C, A>(
        &self,
        tokens: Seq<Seq<char>>,
        description: Seq<char>,
        entries: Seq<(Seq<char>, Command<C, A>)>,
    ) -> Seq<Seq<char>> {
        match self.personality {
            Personality::Interactive => interactive_help(description, entries),
            Personality::CommandLine => command_line_help(
                tokens[0],
                self.shown(tokens[0]),
                description,
                entries,
            ),
        }
    }

    /// The command that a dispatch of `tokens` calls, with the arguments
    /// that it passes: the registered command of that name, if it runs at
    /// once. `None` where the dispatch calls no command.
    pub open spec fn calls<C, A>(
        &self,
        tokens: Seq<Seq<char>>,
        entries: Seq<(Seq<char>, Command<C, A>)>,
    ) -> Option<(C, Seq<Seq<char>>)> {
        match resolution(tokens, entries, self.personality) {
            Resolution::Found(place) => match entries[place as int].1.command {
                CommandType::Sync(action) => Some((action, arguments(tokens, self.personality))),
                CommandType::Async(_) => None,
            },
            _ => None,
        }
    }

    /// What a dispatch comes to where it calls no command, from the state
    /// `before` to the state `after`:
    /// - without a command among the arguments, nothing happens;
    /// - `quit` and `exit` end the session, and nothing else does;
    /// - `help` reports the help text;
    /// - a name that is not registered is reported as not found;
    /// - a command that has to be awaited is handed back where the caller
    ///   can await, and refused where it cannot.
    ///
    /// In each of these the state is left as it was. Of a command that is
    /// called this says nothing.
    pub open spec fn settles<T, E, C, A>(
        &self,
        tokens: Seq<Seq<char>>,
        description: Seq<char>,
        entries: Seq<(Seq<char>, Command<C, A>)>,
        before: T,
        after: T,
        step: StepView<E>,
    ) -> bool {
        match resolution(tokens, entries, self.personality) {
            Resolution::Idle => {
                &&& after == before
                &&& step == StepView::<E>::Done(
                    OutcomeView { terminate: false, report: ReportView::Silent },
                )
            },
            Resolution::Quit => {
                &&& after == before
                &&& step == StepView::<E>::Done(
                    OutcomeView { terminate: true, report: ReportView::Silent },
                )
            },
            Resolution::Help => {
                &&& after == before
                &&& step == StepView::<E>::Done(
                    OutcomeView {
                        terminate: false,
                        report: ReportView::Help(self.help(tokens, description, entries)),
                    },
                )
            },
            Resolution::NotFound => {
                &&& after == before
                &&& step == StepView::<E>::Done(
                    OutcomeView {
                        terminate: false,
                        report: ReportView::NotFound(tokens[command_at(self.personality)]),
                    },
                )
            },
            Resolution::Found(place) => match entries[place as int].1.command {
                CommandType::Sync(_) => true,
                CommandType::Async(_) => {
                    &&& after == before
                    &&& step == if self.asynchronous {
                        StepView::<E>::Await { place, args: arguments(tokens, self.personality) }
                    } else {
                        StepView::<E>::Done(
                            OutcomeView { terminate: false, report: ReportView::UnsupportedAsync },
                        )
                    }
                },
            },
        }
    }
}

/// The arguments from `at` on, for the command to own.
fn arguments_from(tokens: Vec<String>, at: usize) -> (args: Vec<String>)
    requires
        at <= tokens@.len(),
    ensures
        texts(args@) == texts(tokens@).skip(at as int),
{
    if at == 0 {
        assert(texts(tokens@).skip(0) =~= texts(tokens@));
        return tokens;
    }
    let mut args: Vec<String> = Vec::new();
    let mut next: usize = at;
    assert(texts(args@) =~= texts(tokens@).subrange(at as int, next as int));
    while next < tokens.len()
        invariant
            at <= next <= tokens@.len(),
            texts(args@) == texts(tokens@).subrange(at as int, next as int),
        decreases tokens@.len() - next,
    {
        let token = tokens[next].clone();
        let ghost before = args@;
        args.push(token);
        next = next + 1;
        proof {
            lemma_texts_push(before, token);
            assert(texts(args@) =~= texts(tokens@).subrange(at as int, next as int));
        }
    }
    assert(texts(tokens@).subrange(at as int, next as int) =~= texts(tokens@).skip(at as int));
    args
}

impl<'a> Dispatcher<'a> {
    /// Writes the help text for the arguments `tokens`. The help text of a
    /// program begins with the program's name, which has to be there.
    pub fn write_help<C, A>(
        &self,
        tokens: &Vec<String>,
        description: &str,
        commands: &Registry<C, A>,
    ) -> (lines: Vec<String>)
        requires
            commands.wf(),
            self.personality == Personality::CommandLine ==> tokens@.len() > 0,
        ensures
            texts(lines@) == self.help(texts(tokens@), description@, commands@),
    {
        match self.personality {
            Personality::Interactive => write_interactive_help(description, commands),
            Personality::CommandLine => {
                let program = tokens[0].as_str();
                let shown = match self.project {
                    Some(project) => project.as_str(),
                    None => program,
                };
                write_command_line_help(program, shown, description, commands)
            },
        }
    }

    /// Does what the arguments `tokens` ask for.
    ///
    /// A built-in is served here, whatever is registered under its name. A
    /// registered command that runs at once is called with the state and
    /// with its arguments, and the state is left as the command left it,
    /// also where the command failed. A command that has to be awaited is
    /// handed back where the caller can await, with the state untouched, and
    /// refused where it cannot. Only `quit` and `exit` end the session.
    ///
    /// The commands that run at once have to take every state and every
    /// list of arguments, as a function without a precondition does.
    pub fn dispatch<T, E, C: Fn(&mut T, Vec<String>) -> Result<(), E>, A>(
        &self,
        tokens: Vec<String>,
        commands: &Registry<C, A>,
        state: &mut T,
        description: &str,
    ) -> (step: Step<E>)
        requires
            commands.wf(),
            runnable::<T, E, C, A>(commands@),
        ensures
            self.settles(
                texts(tokens@),
                description@,
                commands@,
                *old(state),
                *final(state),
                step@,
            ),
            self.calls(texts(tokens@), commands@) matches Some((action, given)) ==> (exists|
                borrowed: &mut T,
                args: Vec<String>,
                result: Result<(), E>,
            |
                {
                    &&& *borrowed == *old(state)
                    &&& *final(borrowed) == *final(state)
                    &&& texts(args@) == given
                    &&& #[trigger] call_ensures(action, (borrowed, args), result)
                    &&& step@ == StepView::Done(concluded(result))
                }),
    {
        match resolve(&tokens, commands, self.personality) {
            Resolution::Idle => Step::Done(Outcome { terminate: false, report: Report::Silent }),
            Resolution::Quit => Step::Done(Outcome { terminate: true, report: Report::Silent }),
            Resolution::Help => {
                let lines = self.write_help(&tokens, description, commands);
                Step::Done(Outcome { terminate: false, report: Report::Help(lines) })
            },
            Resolution::NotFound => {
                let name = tokens[self.personality.command_at()].clone();
                Step::Done(
                    Outcome {
                        terminate: false,
                        report: Report::Refused(DispatchError::CommandNotFound(name)),
                    },
                )
            },
            Resolution::Found(place) => {
                let args = arguments_from(tokens, self.personality.command_at());
                match commands.entry(place) {
                    Some((_, command)) => match &command.command {
                        CommandType::Sync(action) => {
                            let ghost called = self.calls(texts(tokens@), commands@)->Some_0;
                            assert(called.0 == *action && called.1 == texts(args@));
                            let result = action(state, args);
                            let outcome = conclude(result);
                            assert(exists|borrowed: &mut T, passed: Vec<String>, result: Result<(), E>|
                                {
                                    &&& *borrowed == *old(state)
                                    &&& *final(borrowed) == *state
                                    &&& texts(passed@) == called.1
                                    &&& #[trigger] call_ensures(*action, (borrowed, passed), result)
                                    &&& outcome@ == concluded(result)
                                });
                            Step::Done(outcome)
                        },
                        CommandType::Async(_) => {
                            if self.asynchronous {
                                Step::Await { place, args }
                            } else {
                                Step::Done(
                                    Outcome {
                                        terminate: false,
                                        report: Report::Refused(DispatchError::UnsupportedAsync),
                                    },
                                )
                            }
                        },
                    },
                    None => Step::Done(Outcome { terminate: false, report: Report::Silent }),
                }
            },
        }
    }
}

/// `name` is one of the built-ins.
pub open spec fn is_builtin(name: Seq<char>, personality: Personality) -> bool {
    is_quit(name, personality) || is_help(name, personality)
}

/// A built-in cannot be shadowed: where the arguments name one, what they ask
/// for does not depend on what is registered.
pub proof fn lemma_builtins_first<C, A>(
    tokens: Seq<Seq<char>>,
    personality: Personality,
    one: Seq<(Seq<char>, Command<C, A>)>,
    other: Seq<(Seq<char>, Command<C, A>)>,
)
    requires
        tokens.len() > command_at(personality),
        is_builtin(tokens[command_at(personality)], personality),
    ensures
        resolution(tokens, one, personality) == resolution(tokens, other, personality),
        resolution(tokens, one, personality) is Quit || resolution(tokens, one, personality) is Help,
{
}

/// `quit` and `exit` end the session and leave the state as it was, whatever
/// is registered.
pub proof fn lemma_quit_ends_session<T, E, C, A>(
    dispatcher: Dispatcher,
    tokens: Seq<Seq<char>>,
    description: Seq<char>,
    entries: Seq<(Seq<char>, Command<C, A>)>,
    before: T,
    after: T,
    step: StepView<E>,
)
    requires
        dispatcher.settles(tokens, description, entries, before, after, step),
        tokens.len() > command_at(dispatcher.personality),
        tokens[command_at(dispatcher.personality)] == "quit"@ || tokens[command_at(
            dispatcher.personality,
        )] == "exit"@,
    ensures
        after == before,
        step == StepView::<E>::Done(OutcomeView { terminate: true, report: ReportView::Silent }),
{
}

/// A name that is neither a built-in nor registered is reported as not found:
/// the session goes on, and the state is left as it was.
pub proof fn lemma_unregistered_not_found<T, E, C, A>(
    dispatcher: Dispatcher,
    tokens: Seq<Seq<char>>,
    description: Seq<char>,
    entries: Seq<(Seq<char>, Command<C, A>)>,
    before: T,
    after: T,
    step: StepView<E>,
)
    requires
        dispatcher.settles(tokens, description, entries, before, after, step),
        tokens.len() > command_at(dispatcher.personality),
        !is_builtin(tokens[command_at(dispatcher.personality)], dispatcher.personality),
        forall|i: int|
            0 <= i < entries.len() ==> (#[trigger] entries[i]).0 != tokens[command_at(
                dispatcher.personality,
            )],
    ensures
        after == before,
        step == StepView::<E>::Done(
            OutcomeView {
                terminate: false,
                report: ReportView::NotFound(tokens[command_at(dispatcher.personality)]),
            },
        ),
{
}

/// A command that fails does not end the session: its error is reported, and
/// nothing is undone, for the dispatch ends with what the command's result
/// comes to and leaves the state as the command left it.
pub proof fn lemma_failure_goes_on<E>(error: E)
    ensures
        !concluded(Err::<(), E>(error)).terminate,
        concluded(Err::<(), E>(error)).report == ReportView::Failed(error),
        !concluded(Ok::<(), E>(())).terminate,
        concluded(Ok::<(), E>(())).report == ReportView::<E>::Silent,
{
}

/// Only `quit` and `exit` end a session: a dispatch that ends it was asked
/// to, and left the state as it was.
pub proof fn lemma_only_quit_terminates<T, E, C, A>(
    dispatcher: Dispatcher,
    tokens: Seq<Seq<char>>,
    description: Seq<char>,
    entries: Seq<(Seq<char>, Command<C, A>)>,
    before: T,
    after: T,
    outcome: OutcomeView<E>,
)
    requires
        dispatcher.settles(tokens, description, entries, before, after, StepView::Done(outcome)),
        outcome.terminate,
        resolution(tokens, entries, dispatcher.personality) matches Resolution::Found(place)
            ==> entries[place as int].1.command is Async,
    ensures
        resolution(tokens, entries, dispatcher.personality) is Quit,
        after == before,
{
}

/// Registering a command under the name of a built-in does not change what
/// the built-in does. All that it changes of the help text is that the
/// command is listed, as every registered command is, in a line of its own
/// at the end.
pub proof fn lemma_help_after_shadowing<C, A>(
    dispatcher: Dispatcher,
    tokens: Seq<Seq<char>>,
    description: Seq<char>,
    entries: Seq<(Seq<char>, Command<C, A>)>,
    name: Seq<char>,
    command: Command<C, A>,
)
    requires
        name == "help"@ || name == "quit"@ || name == "exit"@,
    ensures
        resolution(tokens, entries.push((name, command)), dispatcher.personality) is Help
            <==> resolution(tokens, entries, dispatcher.personality) is Help,
        dispatcher.help(tokens, description, entries.push((name, command))) == dispatcher.help(
            tokens,
            description,
            entries,
        ).push(
            match dispatcher.personality {
                Personality::Interactive => entry_line(name, command.help@),
                Personality::CommandLine => column_line(
                    name,
                    command.help@,
                    longest_name(entries) + 5,
                ),
            },
        ),
{
    let more = entries.push((name, command));
    reveal_strlit("help");
    reveal_strlit("quit");
    reveal_strlit("exit");
    lemma_four_bytes(name);
    lemma_longest_name(entries);
    assert(more.drop_last() =~= entries);
    assert(longest_name(more) == longest_name(entries));
    assert(dispatcher.help(tokens, description, more) =~= dispatcher.help(
        tokens,
        description,
        entries,
    ).push(
        match dispatcher.personality {
            Personality::Interactive => entry_line(name, command.help@),
            Personality::CommandLine => column_line(
                name,
                command.help@,
                longest_name(entries) + 5,
            ),
        },
    ));
}

} // verus!
