//! An interactive shell: a prompt, commands, and a state that the commands
//! share.
//!
//! The host program runs the loop: it reads a line and hands the result to
//! [`Shell::step`], shows what came back, and stops when the turn ends the
//! session. The session ends when the input ends, or when the handler says
//! so.

use vstd::prelude::*;
use crate::dispatch::{concluded, runnable, Outcome, Step, StepView};
use crate::handler::{AsyncHandler, DefaultAsyncHandler, DefaultHandler, Handler};
use crate::input_handler::{InputResult, IO};
use crate::registry::Registry;
use crate::text::texts;
use crate::tokenizer::{tokenize, tokenized, tokens_of, unescape, UnescapeError};

verus! {

/// A shell.
///
/// - `T`: the state that the commands share.
/// - `M`: the prompt, which the host program prints before it reads.
/// - `H`: the handler, a [`Handler`] or an [`AsyncHandler`].
/// - `I`: the line source, which the host program reads from.
/// - `C`, `A`: the functions of the commands that run at once, and of those
///   that are awaited.
pub struct Shell<T, M, H, I, C, A> {
    /// The prompt.
    pub prompt: M,
    /// The commands, by name.
    pub commands: Registry<C, A>,
    /// The state that the commands share.
    pub state: T,
    /// The handler, which serves each line.
    pub handler: H,
    /// What the shell is for; the first line of its help text.
    pub description: String,
    /// The line source.
    pub input_handler: I,
}

/// One turn of a shell's loop, for one attempt to read a line.
pub enum Turn<D> {
    /// The input has ended, and with it the session.
    Ended,
    /// The read was interrupted. Nothing was done.
    Interrupted,
    /// The line could not be split into arguments. Nothing was done.
    Rejected(UnescapeError),
    /// The line was split; `D` is what came of it.
    Line(D),
}

/// What one attempt to read a line comes to before anything is dispatched.
pub open spec fn reading(input: InputResult) -> Turn<Seq<Seq<char>>> {
    match input {
        InputResult::EOF => Turn::Ended,
        InputResult::Interrupted => Turn::Interrupted,
        InputResult::S(line) => match tokenized(line@) {
            Ok(tokens) => Turn::Line(tokens),
            Err(e) => Turn::Rejected(e),
        },
    }
}

impl<E> Turn<Outcome<E>> {
    /// Whether the turn ends the session: the input has ended, or the
    /// dispatch said so.
    pub open spec fn ends(&self) -> bool {
        match *self {
            Turn::Ended => true,
            Turn::Line(outcome) => outcome.terminate,
            _ => false,
        }
    }

    /// Whether the turn ends the session.
    pub fn terminates(&self) -> (ends: bool)
        ensures
            ends == self.ends(),
    {
        match self {
            Turn::Ended => true,
            Turn::Line(outcome) => outcome.terminate,
            _ => false,
        }
    }
}

impl<T, M, C, A> Shell<T, M, DefaultHandler, IO, C, A> {
    /// A shell without commands that reads from the standard input.
    pub fn new(state: T, prompt: M) -> (shell: Self)
        ensures
            shell.state == state,
            shell.prompt == prompt,
            shell.commands.wf(),
            shell.commands@.len() == 0,
            shell.description@.len() == 0,
    {
        Shell {
            prompt,
            commands: Registry::new(),
            state,
            handler: DefaultHandler(),
            description: String::new(),
            input_handler: IO,
        }
    }
}

impl<T, M, C, A> Shell<T, M, DefaultAsyncHandler, IO, C, A> {
    /// A shell without commands that reads from the standard input and can
    /// await its commands.
    pub fn new_async(state: T, prompt: M) -> (shell: Self)
        ensures
            shell.state == state,
            shell.prompt == prompt,
            shell.commands.wf(),
            shell.commands@.len() == 0,
            shell.description@.len() == 0,
    {
        Shell {
            prompt,
            commands: Registry::new(),
            state,
            handler: DefaultAsyncHandler(),
            description: String::new(),
            input_handler: IO,
        }
    }
}

impl<T, M, H, I, C, A> Shell<T, M, H, I, C, A> {
    /// Splits a line into its arguments, reading it from its first
    /// character to its last.
    pub fn unescape(command: &str) -> (result: Result<Vec<String>, UnescapeError>)
        ensures
            match result {
                Ok(tokens) => tokens_of(command@) == Ok::<Seq<Seq<char>>, UnescapeError>(
                    texts(tokens@),
                ),
                Err(e) => tokens_of(command@) == Err::<Seq<Seq<char>>, UnescapeError>(e),
            },
    {
        unescape(command)
    }

    /// Reads what one attempt to read a line brought: the arguments of the
    /// line, or why there are none.
    pub fn read(input: InputResult) -> (turn: Turn<Vec<String>>)
        ensures
            match turn {
                Turn::Ended => reading(input) is Ended,
                Turn::Interrupted => reading(input) is Interrupted,
                Turn::Rejected(e) => reading(input) == Turn::<Seq<Seq<char>>>::Rejected(e),
                Turn::Line(tokens) => reading(input) == Turn::Line(texts(tokens@)),
            },
    {
        match input {
            InputResult::EOF => Turn::Ended,
            InputResult::Interrupted => Turn::Interrupted,
            InputResult::S(line) => match tokenize(line.as_str()) {
                Ok(tokens) => Turn::Line(tokens),
                Err(e) => Turn::Rejected(e),
            },
        }
    }
}

impl<T, E, M, H: Handler<T, E, C, A>, I, C: Fn(&mut T, Vec<String>) -> Result<(), E>, A> Shell<
    T,
    M,
    H,
    I,
    C,
    A,
> {
    /// A shell without commands, with the given handler and line source.
    pub fn new_with_handler(state: T, prompt: M, handler: H, input_handler: I) -> (shell: Self)
        ensures
            shell.state == state,
            shell.prompt == prompt,
            shell.handler == handler,
            shell.input_handler == input_handler,
            shell.commands.wf(),
            shell.commands@.len() == 0,
            shell.description@.len() == 0,
    {
        Shell {
            prompt,
            commands: Registry::new(),
            state,
            handler,
            description: String::new(),
            input_handler,
        }
    }

    /// One turn of the loop: takes what the read brought, and has the
    /// handler serve the line if there is one.
    ///
    /// Only the state can change, and only where a line is served.
    pub fn step(&mut self, input: InputResult) -> (turn: Turn<Outcome<E>>)
        requires
            old(self).commands.wf(),
            runnable::<T, E, C, A>(old(self).commands@),
        ensures
            final(self).commands == old(self).commands,
            final(self).prompt == old(self).prompt,
            final(self).handler == old(self).handler,
            final(self).description == old(self).description,
            final(self).input_handler == old(self).input_handler,
            match reading(input) {
                Turn::Ended => turn is Ended && final(self).state == old(self).state,
                Turn::Interrupted => turn is Interrupted && final(self).state == old(self).state,
                Turn::Rejected(e) => turn == Turn::<Outcome<E>>::Rejected(e) && final(self).state
                    == old(self).state,
                Turn::Line(tokens) => turn matches Turn::Line(outcome) && old(self).handler.serves(
                    tokens,
                    old(self).description@,
                    old(self).commands@,
                    old(self).state,
                    final(self).state,
                    outcome@,
                ) && (old(self).handler.calls(tokens, old(self).commands@) matches Some(
                    (action, given),
                ) ==> (exists|borrowed: &mut T, passed: Vec<String>, result: Result<(), E>|
                    {
                        &&& *borrowed == old(self).state
                        &&& *final(borrowed) == final(self).state
                        &&& texts(passed@) == given
                        &&& #[trigger] call_ensures(action, (borrowed, passed), result)
                        &&& outcome@ == concluded(result)
                    })),
            },
    {
        match Self::read(input) {
            Turn::Ended => Turn::Ended,
            Turn::Interrupted => Turn::Interrupted,
            Turn::Rejected(e) => Turn::Rejected(e),
            Turn::Line(tokens) => Turn::Line(
                self.handler.handle(
                    tokens,
                    &self.commands,
                    &mut self.state,
                    self.description.as_str(),
                ),
            ),
        }
    }
}

impl<T, E, M, H: AsyncHandler<T, E, C, A>, I, C: Fn(&mut T, Vec<String>) -> Result<(), E>, A> Shell<
    T,
    M,
    H,
    I,
    C,
    A,
> {
    /// A shell without commands that can await them, with the given handler
    /// and line source.
    pub fn new_with_async_handler(state: T, prompt: M, handler: H, input_handler: I) -> (shell: Self)
        ensures
            shell.state == state,
            shell.prompt == prompt,
            shell.handler == handler,
            shell.input_handler == input_handler,
            shell.commands.wf(),
            shell.commands@.len() == 0,
            shell.description@.len() == 0,
    {
        Shell {
            prompt,
            commands: Registry::new(),
            state,
            handler,
            description: String::new(),
            input_handler,
        }
    }

    /// One turn of the loop, up to a command that has to be awaited: takes
    /// what the read brought, and has the handler serve the line if there is
    /// one.
    ///
    /// Only the state can change, and only where a line is served.
    pub fn step_async(&mut self, input: InputResult) -> (turn: Turn<Step<E>>)
        requires
            old(self).commands.wf(),
            runnable::<T, E, C, A>(old(self).commands@),
        ensures
            final(self).commands == old(self).commands,
            final(self).prompt == old(self).prompt,
            final(self).handler == old(self).handler,
            final(self).description == old(self).description,
            final(self).input_handler == old(self).input_handler,
            match reading(input) {
                Turn::Ended => turn is Ended && final(self).state == old(self).state,
                Turn::Interrupted => turn is Interrupted && final(self).state == old(self).state,
                Turn::Rejected(e) => turn == Turn::<Step<E>>::Rejected(e) && final(self).state
                    == old(self).state,
                Turn::Line(tokens) => turn matches Turn::Line(step) && old(self).handler.serves(
                    tokens,
                    old(self).description@,
                    old(self).commands@,
                    old(self).state,
                    final(self).state,
                    step@,
                ) && (old(self).handler.calls(tokens, old(self).commands@) matches Some(
                    (action, given),
                ) ==> (exists|borrowed: &mut T, passed: Vec<String>, result: Result<(), E>|
                    {
                        &&& *borrowed == old(self).state
                        &&& *final(borrowed) == final(self).state
                        &&& texts(passed@) == given
                        &&& #[trigger] call_ensures(action, (borrowed, passed), result)
                        &&& step@ == StepView::Done(concluded(result))
                    })),
            },
    {
        match Self::read(input) {
            Turn::Ended => Turn::Ended,
            Turn::Interrupted => Turn::Interrupted,
            Turn::Rejected(e) => Turn::Rejected(e),
            Turn::Line(tokens) => Turn::Line(
                self.handler.handle_async(
                    tokens,
                    &self.commands,
                    &mut self.state,
                    self.description.as_str(),
                ),
            ),
        }
    }
}

} // verus!
