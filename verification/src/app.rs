//! A program that serves one command per run, taken from its arguments, and
//! keeps the state of its commands from one run to the next.
//!
//! The host program keeps the store: before the run it reads what the store
//! holds and hands it to [`App::load_cache`]; after the run it does to the
//! store what [`App::run_vec`] says. The state is kept after every run but
//! one that ends the session, `quit` or `exit`, which clears the store.

use vstd::prelude::*;
use crate::command_line::{CommandLineHandler, DefaultAsyncCLIHandler, DefaultCommandLineHandler};
use crate::dispatch::{concluded, runnable, Outcome, Step, StepView};
use crate::handler::{AsyncHandler, Handler};
use crate::registry::Registry;
use crate::shell::Shell;
use crate::text::texts;

verus! {

/// A program with commands.
///
/// The handler has to read its arguments as a program's argument list, the
/// program's name first.
pub struct App<T, H, C, A> {
    /// The commands, by name.
    pub commands: Registry<C, A>,
    /// The state that the commands share.
    pub state: T,
    /// The handler, which serves the arguments.
    pub handler: H,
    /// What the program is for; shown in its help text.
    pub description: String,
}

/// What is to be done to the store after a run.
#[derive(Debug, Clone, Copy, PartialEq, Eq, Structural)]
pub enum StoreAction {
    /// Remove what the store holds. Nothing to remove is no failure.
    Clear,
    /// Write the state to the store.
    Save,
}

/// A run, and what is to be done to the store after it.
pub struct Run<E> {
    /// How the dispatch ended.
    pub outcome: Outcome<E>,
    /// What is to be done to the store.
    pub store: StoreAction,
}

/// What is to be done to the store after a run that ended the session, or
/// did not.
pub open spec fn store_after(terminate: bool) -> StoreAction {
    if terminate {
        StoreAction::Clear
    } else {
        StoreAction::Save
    }
}

/// What the store holds once `action` is done for the state `state`.
pub open spec fn stored<T>(action: StoreAction, state: T) -> Option<T> {
    match action {
        StoreAction::Clear => None,
        StoreAction::Save => Some(state),
    }
}

/// The state that a run starts with: what the store holds, or else the
/// state that the program was made with.
pub open spec fn loaded<T>(initial: T, cached: Option<T>) -> T {
    match cached {
        Some(state) => state,
        None => initial,
    }
}

/// Decides what is to be done to the store after a run.
pub fn store_action(terminate: bool) -> (action: StoreAction)
    ensures
        action == store_after(terminate),
{
    if terminate {
        StoreAction::Clear
    } else {
        StoreAction::Save
    }
}

/// The next run starts with the state that this run ended with, unless this
/// run ended the session: then the next run starts with the state that the
/// program is made with.
pub proof fn lemma_state_round_trip<T>(terminate: bool, state: T, initial: T)
    ensures
        !terminate ==> loaded(initial, stored(store_after(terminate), state)) == state,
        terminate ==> loaded(initial, stored(store_after(terminate), state)) == initial,
{
}

impl<T, C, A> App<T, DefaultCommandLineHandler, C, A> {
    /// A program without commands, which keeps its state under
    /// `project_name`.
    pub fn new(state: T, project_name: String) -> (app: Self)
        ensures
            app.state == state,
            app.handler.proj_name == Some(project_name),
            app.commands.wf(),
            app.commands@.len() == 0,
            app.description@.len() == 0,
    {
        App {
            commands: Registry::new(),
            state,
            handler: DefaultCommandLineHandler { proj_name: Some(project_name) },
            description: String::new(),
        }
    }

    /// The program that serves what `shell` served: its commands, its state
    /// and its description. It keeps its state under the name that it is
    /// called by.
    pub fn from_shell<M, H, I>(shell: Shell<T, M, H, I, C, A>) -> (app: Self)
        ensures
            app.commands == shell.commands,
            app.state == shell.state,
            app.description == shell.description,
            app.handler.proj_name is None,
    {
        App {
            commands: shell.commands,
            state: shell.state,
            handler: DefaultCommandLineHandler { proj_name: None },
            description: shell.description,
        }
    }
}

impl<T, C, A> App<T, DefaultAsyncCLIHandler, C, A> {
    /// The program that serves what `shell` served and can await its
    /// commands. It keeps its state under the name that it is called by.
    pub fn from_shell_async<M, H, I>(shell: Shell<T, M, H, I, C, A>) -> (app: Self)
        ensures
            app.commands == shell.commands,
            app.state == shell.state,
            app.description == shell.description,
            app.handler.proj_name is None,
    {
        App {
            commands: shell.commands,
            state: shell.state,
            handler: DefaultAsyncCLIHandler { proj_name: None },
            description: shell.description,
        }
    }
}

impl<T, H: CommandLineHandler, C, A> App<T, H, C, A> {
    /// A program without commands, with the given handler.
    pub fn new_with_handler(state: T, handler: H) -> (app: Self)
        ensures
            app.state == state,
            app.handler == handler,
            app.commands.wf(),
            app.commands@.len() == 0,
            app.description@.len() == 0,
    {
        App { commands: Registry::new(), state, handler, description: String::new() }
    }

    /// Starts from what the store holds: `cached` takes the place of the
    /// state, if there is any.
    pub fn load_cache(&mut self, cached: Option<T>)
        ensures
            final(self).state == loaded(old(self).state, cached),
            final(self).commands == old(self).commands,
            final(self).handler == old(self).handler,
            final(self).description == old(self).description,
    {
        if let Some(state) = cached {
            self.state = state;
        }
    }
}

impl<
    T,
    E,
    H: CommandLineHandler + Handler<T, E, C, A>,
    C: Fn(&mut T, Vec<String>) -> Result<(), E>,
    A,
> App<T, H, C, A> {
    /// Serves a program's argument list, the program's name first, and says
    /// what is to be done to the store: it is cleared where the run ends the
    /// session, and gets the state otherwise.
    pub fn run_vec(&mut self, vec: Vec<String>) -> (run: Run<E>)
        requires
            old(self).commands.wf(),
            runnable::<T, E, C, A>(old(self).commands@),
        ensures
            final(self).commands == old(self).commands,
            final(self).handler == old(self).handler,
            final(self).description == old(self).description,
            old(self).handler.serves(
                texts(vec@),
                old(self).description@,
                old(self).commands@,
                old(self).state,
                final(self).state,
                run.outcome@,
            ),
            old(self).handler.calls(texts(vec@), old(self).commands@) matches Some((action, given))
                ==> (exists|borrowed: &mut T, passed: Vec<String>, result: Result<(), E>|
                {
                    &&& *borrowed == old(self).state
                    &&& *final(borrowed) == final(self).state
                    &&& texts(passed@) == given
                    &&& #[trigger] call_ensures(action, (borrowed, passed), result)
                    &&& run.outcome@ == concluded(result)
                }),
            run.store == store_after(run.outcome.terminate),
    {
        let outcome = self.handler.handle(
            vec,
            &self.commands,
            &mut self.state,
            self.description.as_str(),
        );
        let store = store_action(outcome.terminate);
        Run { outcome, store }
    }
}

impl<
    T,
    E,
    H: CommandLineHandler + AsyncHandler<T, E, C, A>,
    C: Fn(&mut T, Vec<String>) -> Result<(), E>,
    A,
> App<T, H, C, A> {
    /// Serves a program's argument list, the program's name first, up to a
    /// command that has to be awaited. What is to be done to the store
    /// follows from the outcome, once it is there: see [`store_action`].
    pub fn run_vec_async(&mut self, vec: Vec<String>) -> (step: Step<E>)
        requires
            old(self).commands.wf(),
            runnable::<T, E, C, A>(old(self).commands@),
        ensures
            final(self).commands == old(self).commands,
            final(self).handler == old(self).handler,
            final(self).description == old(self).description,
            old(self).handler.serves(
                texts(vec@),
                old(self).description@,
                old(self).commands@,
                old(self).state,
                final(self).state,
                step@,
            ),
            old(self).handler.calls(texts(vec@), old(self).commands@) matches Some((action, given))
                ==> (exists|borrowed: &mut T, passed: Vec<String>, result: Result<(), E>|
                {
                    &&& *borrowed == old(self).state
                    &&& *final(borrowed) == final(self).state
                    &&& texts(passed@) == given
                    &&& #[trigger] call_ensures(action, (borrowed, passed), result)
                    &&& step@ == StepView::Done(concluded(result))
                }),
    {
        self.handler.handle_async(vec, &self.commands, &mut self.state, self.description.as_str())
    }
}

} // verus!
