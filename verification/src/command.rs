//! A command: something to run, and a line of help for it.

use vstd::prelude::*;

verus! {

/// What a command runs: a function that is called and returns, or one whose
/// result has to be awaited.
///
/// `C` is the type of the functions that run at once, `A` the type of those
/// that are awaited. Both take the session state and the arguments, the
/// command's own name first.
#[derive(Clone)]
pub enum CommandType<C, A> {
    /// Runs at once.
    Sync(C),
    /// Hands back a result that is awaited.
    Async(A),
}

/// A command of a shell. Which kind of action it holds is fixed when it is
/// made.
#[derive(Clone)]
pub struct Command<C, A> {
    /// What the command runs.
    pub command: CommandType<C, A>,
    /// One line that says what the command does, shown by `help`.
    pub help: String,
}

impl<C, A> Command<C, A> {
    /// A command that runs at once.
    pub fn new(help: String, command: C) -> (made: Self)
        ensures
            made.help == help,
            made.command == CommandType::<C, A>::Sync(command),
    {
        Command { command: CommandType::Sync(command), help }
    }

    /// A command whose result is awaited.
    pub fn new_async(help: String, command: A) -> (made: Self)
        ensures
            made.help == help,
            made.command == CommandType::<C, A>::Async(command),
    {
        Command { command: CommandType::Async(command), help }
    }
}

/// The action may be called on every state and on every list of arguments.
pub open spec fn callable<T, E, C: Fn(&mut T, Vec<String>) -> Result<(), E>>(action: C) -> bool {
    forall|state: &mut T, args: Vec<String>| call_requires(action, (state, args))
}

} // verus!
