//! Handlers for a program's argument list, and where such a program keeps
//! its state between two runs.
//!
//! The first argument is the program's name and the second is the command.
//! Besides `help`, `quit` and `exit` the built-ins can be written as flags:
//! `--help`, `--quit`, `--exit`.
//!
//! The state is kept in one file below the user's home directory:
//! - Linux: `.cache/NAME/shellfish.json`
//! - Windows: `AppData/Local/NAME/shellfish.json`
//! - macOS: `Library Support/NAME/shellfish.json`
//!
//! where `NAME` is the project's name, or else the name that the program was
//! called by.

use vstd::prelude::*;
use crate::command::Command;
use crate::dispatch::{Dispatcher, Outcome, OutcomeView, Personality, Step, StepView};
use crate::handler::{finished, AsyncHandler, Handler};
use crate::registry::Registry;
use crate::text::{lemma_texts_push, texts};

verus! {

/// The systems that keep their caches in a place of their own.
#[derive(Debug, Clone, Copy, PartialEq, Eq, Structural)]
pub enum Platform {
    Linux,
    Windows,
    MacOs,
    /// Any other system: the cache lies in the home directory itself.
    Other,
}

/// The directories, from the home directory down, in which a system keeps
/// the caches of its programs.
pub open spec fn cache_home(platform: Platform) -> Seq<Seq<char>> {
    match platform {
        Platform::Linux => seq![".cache"@],
        Platform::Windows => seq!["AppData"@, "Local"@],
        Platform::MacOs => seq!["Library Support"@],
        Platform::Other => Seq::empty(),
    }
}

/// The way from the home directory to the file that keeps the state of the
/// program `name`, one directory after the other and the file last. Without
/// a name there is no such file.
pub open spec fn cache_path(platform: Platform, name: Option<Seq<char>>) -> Option<Seq<Seq<char>>> {
    match name {
        Some(name) => Some(cache_home(platform).push(name).push("shellfish.json"@)),
        None => None,
    }
}

/// The name that a program's cache goes by: the project's name, or else the
/// name that the program was called by.
pub open spec fn cache_name(project: Option<Seq<char>>, program: Option<Seq<char>>) -> Option<
    Seq<char>,
> {
    match project {
        Some(project) => Some(project),
        None => program,
    }
}

/// The characters of a text that may be missing.
pub open spec fn text_of(text: Option<&str>) -> Option<Seq<char>> {
    match text {
        Some(text) => Some(text@),
        None => None,
    }
}

/// The characters of a string that may be missing.
pub open spec fn string_of(text: Option<String>) -> Option<Seq<char>> {
    match text {
        Some(text) => Some(text@),
        None => None,
    }
}

/// Works out where the program `project`, called as `program`, keeps its
/// state.
pub fn locate_cache(platform: Platform, project: Option<&str>, program: Option<&str>) -> (path: Option<
    Vec<String>,
>)
    ensures
        match path {
            Some(path) => cache_path(platform, cache_name(text_of(project), text_of(program)))
                == Some(texts(path@)),
            None => cache_path(platform, cache_name(text_of(project), text_of(program))) is None,
        },
{
    let name = match project {
        Some(project) => project,
        None => match program {
            Some(program) => program,
            None => {
                return None;
            },
        },
    };
    let mut path: Vec<String> = Vec::new();
    match platform {
        Platform::Linux => {
            path.push(String::from_str(".cache"));
        },
        Platform::Windows => {
            path.push(String::from_str("AppData"));
            path.push(String::from_str("Local"));
        },
        Platform::MacOs => {
            path.push(String::from_str("Library Support"));
        },
        Platform::Other => {},
    }
    assert(texts(path@) =~= cache_home(platform));
    let ghost home = path@;
    let named = String::from_str(name);
    path.push(named);
    let ghost below = path@;
    let file = String::from_str("shellfish.json");
    path.push(file);
    proof {
        lemma_texts_push(home, named);
        lemma_texts_push(below, file);
    }
    Some(path)
}

/// A handler that knows where its program keeps its state.
pub trait CommandLineHandler {
    /// The way from the home directory to the file that keeps the state, one
    /// directory after the other and the file last; `None` where there is
    /// no name to keep it under. `program` is the name that the program was
    /// called by, if it is known.
    fn get_cache(&self, platform: Platform, program: Option<&str>) -> (path: Option<Vec<String>>);
}

/// The handler of a program whose commands all run at once.
#[derive(Default, Clone, Eq, PartialEq)]
pub struct DefaultCommandLineHandler {
    /// The name of the project: shown in the usage line, and the name under
    /// which the state is kept.
    pub proj_name: Option<String>,
}

/// The handler of a program that can await its commands.
#[derive(Default, Clone, Eq, PartialEq)]
pub struct DefaultAsyncCLIHandler {
    /// The name of the project: shown in the usage line, and the name under
    /// which the state is kept.
    pub proj_name: Option<String>,
}

/// The text of a string that may be missing.
fn borrowed(text: &Option<String>) -> (slice: Option<&str>)
    ensures
        text_of(slice) == string_of(*text),
{
    match text {
        Some(text) => Some(text.as_str()),
        None => None,
    }
}

impl DefaultCommandLineHandler {
    /// The dispatcher that this handler stands for.
    pub open spec fn dispatcher(&self) -> Dispatcher<'_> {
        Dispatcher {
            personality: Personality::CommandLine,
            asynchronous: false,
            project: match self.proj_name {
                Some(name) => Some(&name),
                None => None,
            },
        }
    }
}

impl DefaultAsyncCLIHandler {
    /// The dispatcher that this handler stands for.
    pub open spec fn dispatcher(&self) -> Dispatcher<'_> {
        Dispatcher {
            personality: Personality::CommandLine,
            asynchronous: true,
            project: match self.proj_name {
                Some(name) => Some(&name),
                None => None,
            },
        }
    }
}

impl CommandLineHandler for DefaultCommandLineHandler {
    fn get_cache(&self, platform: Platform, program: Option<&str>) -> (path: Option<Vec<String>>)
        ensures
            match path {
                Some(path) => cache_path(
                    platform,
                    cache_name(string_of(self.proj_name), text_of(program)),
                ) == Some(texts(path@)),
                None => cache_path(
                    platform,
                    cache_name(string_of(self.proj_name), text_of(program)),
                ) is None,
            },
    {
        locate_cache(platform, borrowed(&self.proj_name), program)
    }
}

impl CommandLineHandler for DefaultAsyncCLIHandler {
    fn get_cache(&self, platform: Platform, program: Option<&str>) -> (path: Option<Vec<String>>)
        ensures
            match path {
                Some(path) => cache_path(
                    platform,
                    cache_name(string_of(self.proj_name), text_of(program)),
                ) == Some(texts(path@)),
                None => cache_path(
                    platform,
                    cache_name(string_of(self.proj_name), text_of(program)),
                ) is None,
            },
    {
        locate_cache(platform, borrowed(&self.proj_name), program)
    }
}

impl<T, E, C: Fn(&mut T, Vec<String>) -> Result<(), E>, A> Handler<
    T,
    E,
    C,
    A,
> for DefaultCommandLineHandler {
    open spec fn serves(
        &self,
        args: Seq<Seq<char>>,
        description: Seq<char>,
        entries: Seq<(Seq<char>, Command<C, A>)>,
        before: T,
        after: T,
        outcome: OutcomeView<E>,
    ) -> bool {
        self.dispatcher().settles(args, description, entries, before, after, StepView::Done(outcome))
    }

    open spec fn calls(&self, args: Seq<Seq<char>>, entries: Seq<(Seq<char>, Command<C, A>)>) -> Option<
        (C, Seq<Seq<char>>),
    > {
        self.dispatcher().calls(args, entries)
    }

    /// Serves `args` as [`Dispatcher::dispatch`] does, for a caller that
    /// cannot await.
    fn handle(
        &self,
        args: Vec<String>,
        commands: &Registry<C, A>,
        state: &mut T,
        description: &str,
    ) -> (outcome: Outcome<E>)
        ensures
            self.dispatcher().settles(
                texts(args@),
                description@,
                commands@,
                *old(state),
                *final(state),
                StepView::Done(outcome@),
            ),
    {
        let dispatcher = Dispatcher {
            personality: Personality::CommandLine,
            asynchronous: false,
            project: match &self.proj_name {
                Some(name) => Some(name),
                None => None,
            },
        };
        finished(dispatcher.dispatch(args, commands, state, description))
    }
}

impl<T, E, C: Fn(&mut T, Vec<String>) -> Result<(), E>, A> AsyncHandler<
    T,
    E,
    C,
    A,
> for DefaultAsyncCLIHandler {
    open spec fn serves(
        &self,
        args: Seq<Seq<char>>,
        description: Seq<char>,
        entries: Seq<(Seq<char>, Command<C, A>)>,
        before: T,
        after: T,
        step: StepView<E>,
    ) -> bool {
        self.dispatcher().settles(args, description, entries, before, after, step)
    }

    open spec fn calls(&self, args: Seq<Seq<char>>, entries: Seq<(Seq<char>, Command<C, A>)>) -> Option<
        (C, Seq<Seq<char>>),
    > {
        self.dispatcher().calls(args, entries)
    }

    /// Serves `args` as [`Dispatcher::dispatch`] does, for a caller that
    /// can await.
    fn handle_async(
        &self,
        args: Vec<String>,
        commands: &Registry<C, A>,
        state: &mut T,
        description: &str,
    ) -> (step: Step<E>)
        ensures
            self.dispatcher().settles(
                texts(args@),
                description@,
                commands@,
                *old(state),
                *final(state),
                step@,
            ),
    {
        let dispatcher = Dispatcher {
            personality: Personality::CommandLine,
            asynchronous: true,
            project: match &self.proj_name {
                Some(name) => Some(name),
                None => None,
            },
        };
        dispatcher.dispatch(args, commands, state, description)
    }
}

} // verus!
