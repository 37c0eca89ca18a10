//! Handlers: how a shell serves one line of arguments.
//!
//! A handler gets the arguments, the registered commands, the session state
//! and the shell's description. The handlers of this module are the four
//! uses of the one dispatcher: for a line typed into a shell or for a
//! program's argument list, and for callers that can await a command or
//! cannot. A shell takes any other implementation of the traits as well.

use vstd::prelude::*;
use crate::command::Command;
use crate::dispatch::{
    concluded, runnable, Dispatcher, Outcome, OutcomeView, Personality, Report, Step, StepView,
};
use crate::registry::Registry;
use crate::text::texts;

verus! {

/// Serves a line of arguments to the end.
pub trait Handler<T, E, C: Fn(&mut T, Vec<String>) -> Result<(), E>, A> {
    /// What the handler promises of every call: how the outcome, and the
    /// state after the call, follow from what the call was given. A handler
    /// that does not say promises nothing.
    open spec fn serves(
        &self,
        args: Seq<Seq<char>>,
        description: Seq<char>,
        entries: Seq<(Seq<char>, Command<C, A>)>,
        before: T,
        after: T,
        outcome: OutcomeView<E>,
    ) -> bool {
        true
    }

    /// The command that the handler calls for `args`, with the arguments
    /// that it passes, where it promises to call just that command and to
    /// end with what [`conclude`](crate::dispatch::conclude) makes of the
    /// command's result. `None` where it promises no such thing, as a
    /// handler does that does not say.
    open spec fn calls(&self, args: Seq<Seq<char>>, entries: Seq<(Seq<char>, Command<C, A>)>) -> Option<
        (C, Seq<Seq<char>>),
    > {
        None
    }

    /// Serves `args`. The outcome says whether the session is to end and
    /// what to show to the user.
    fn handle(
        &self,
        args: Vec<String>,
        commands: &Registry<C, A>,
        state: &mut T,
        description: &str,
    ) -> (outcome: Outcome<E>)
        requires
            commands.wf(),
            runnable::<T, E, C, A>(commands@),
        ensures
            self.serves(
                texts(args@),
                description@,
                commands@,
                *old(state),
                *final(state),
                outcome@,
            ),
            self.calls(texts(args@), commands@) matches Some((action, given)) ==> (exists|
                borrowed: &mut T,
                passed: Vec<String>,
                result: Result<(), E>,
            |
                {
                    &&& *borrowed == *old(state)
                    &&& *final(borrowed) == *final(state)
                    &&& texts(passed@) == given
                    &&& #[trigger] call_ensures(action, (borrowed, passed), result)
                    &&& outcome@ == concluded(result)
                }),
    ;
}

/// Serves a line of arguments up to a command that has to be awaited.
pub trait AsyncHandler<T, E, C: Fn(&mut T, Vec<String>) -> Result<(), E>, A> {
    /// What the handler promises of every call: how the step, and the state
    /// after the call, follow from what the call was given. A handler that
    /// does not say promises nothing.
    open spec fn serves(
        &self,
        args: Seq<Seq<char>>,
        description: Seq<char>,
        entries: Seq<(Seq<char>, Command<C, A>)>,
        before: T,
        after: T,
        step: StepView<E>,
    ) -> bool {
        true
    }

    /// The command that the handler calls for `args`, with the arguments
    /// that it passes, where it promises to call just that command and to
    /// end with what [`conclude`](crate::dispatch::conclude) makes of the
    /// command's result. `None` where it promises no such thing, as a
    /// handler does that does not say.
    open spec fn calls(&self, args: Seq<Seq<char>>, entries: Seq<(Seq<char>, Command<C, A>)>) -> Option<
        (C, Seq<Seq<char>>),
    > {
        None
    }

    /// Serves `args`, to the end or up to the command that the caller has to
    /// await.
    fn handle_async(
        &self,
        args: Vec<String>,
        commands: &Registry<C, A>,
        state: &mut T,
        description: &str,
    ) -> (step: Step<E>)
        requires
            commands.wf(),
            runnable::<T, E, C, A>(commands@),
        ensures
            self.serves(
                texts(args@),
                description@,
                commands@,
                *old(state),
                *final(state),
                step@,
            ),
            self.calls(texts(args@), commands@) matches Some((action, given)) ==> (exists|
                borrowed: &mut T,
                passed: Vec<String>,
                result: Result<(), E>,
            |
                {
                    &&& *borrowed == *old(state)
                    &&& *final(borrowed) == *final(state)
                    &&& texts(passed@) == given
                    &&& #[trigger] call_ensures(action, (borrowed, passed), result)
                    &&& step@ == StepView::Done(concluded(result))
                }),
    ;
}

/// The handler of an interactive shell whose commands all run at once. Its
/// built-ins are `help`, `quit` and `exit`.
#[derive(Default, Copy, Clone, Eq, PartialEq)]
pub struct DefaultHandler();

/// The handler of an interactive shell that can await its commands. Its
/// built-ins are `help`, `quit` and `exit`.
#[derive(Default, Copy, Clone, Eq, PartialEq)]
pub struct DefaultAsyncHandler();

impl DefaultHandler {
    /// The dispatcher that this handler stands for.
    pub open spec fn dispatcher(&self) -> Dispatcher<'static> {
        Dispatcher { personality: Personality::Interactive, asynchronous: false, project: None }
    }
}

impl DefaultAsyncHandler {
    /// The dispatcher that this handler stands for.
    pub open spec fn dispatcher(&self) -> Dispatcher<'static> {
        Dispatcher { personality: Personality::Interactive, asynchronous: true, project: None }
    }
}

/// The outcome of a dispatch that had nothing to hand back.
pub(crate) fn finished<E>(step: Step<E>) -> (outcome: Outcome<E>)
    requires
        step is Done,
    ensures
        step@ == StepView::Done(outcome@),
{
    match step {
        Step::Done(outcome) => outcome,
        Step::Await { .. } => Outcome { terminate: false, report: Report::Silent },
    }
}

impl<T, E, C: Fn(&mut T, Vec<String>) -> Result<(), E>, A> Handler<T, E, C, A> for DefaultHandler {
    open spec fn serves(
        &self,
        args: Seq<Seq<char>>,
        description: Seq<char>,
        entries: Seq<(Seq<char>, Command<C, A>)>,
        before: T,
        after: T,
        outcome: OutcomeView<E>,
    ) -> bool {
        self.dispatcher().settles(args, description, entries, before, after, StepView::Done(outcome))
    }

    open spec fn calls(&self, args: Seq<Seq<char>>, entries: Seq<(Seq<char>, Command<C, A>)>) -> Option<
        (C, Seq<Seq<char>>),
    > {
        self.dispatcher().calls(args, entries)
    }

    /// Serves `args` as [`Dispatcher::dispatch`] does, for a caller that
    /// cannot await.
    fn handle(
        &self,
        args: Vec<String>,
        commands: &Registry<C, A>,
        state: &mut T,
        description: &str,
    ) -> (outcome: Outcome<E>)
        ensures
            self.dispatcher().settles(
                texts(args@),
                description@,
                commands@,
                *old(state),
                *final(state),
                StepView::Done(outcome@),
            ),
    {
        let dispatcher = Dispatcher {
            personality: Personality::Interactive,
            asynchronous: false,
            project: None,
        };
        finished(dispatcher.dispatch(args, commands, state, description))
    }
}

impl<T, E, C: Fn(&mut T, Vec<String>) -> Result<(), E>, A> AsyncHandler<
    T,
    E,
    C,
    A,
> for DefaultAsyncHandler {
    open spec fn serves(
        &self,
        args: Seq<Seq<char>>,
        description: Seq<char>,
        entries: Seq<(Seq<char>, Command<C, A>)>,
        before: T,
        after: T,
        step: StepView<E>,
    ) -> bool {
        self.dispatcher().settles(args, description, entries, before, after, step)
    }

    open spec fn calls(&self, args: Seq<Seq<char>>, entries: Seq<(Seq<char>, Command<C, A>)>) -> Option<
        (C, Seq<Seq<char>>),
    > {
        self.dispatcher().calls(args, entries)
    }

    /// Serves `args` as [`Dispatcher::dispatch`] does, for a caller that
    /// can await.
    fn handle_async(
        &self,
        args: Vec<String>,
        commands: &Registry<C, A>,
        state: &mut T,
        description: &str,
    ) -> (step: Step<E>)
        ensures
            self.dispatcher().settles(
                texts(args@),
                description@,
                commands@,
                *old(state),
                *final(state),
                step@,
            ),
    {
        let dispatcher = Dispatcher {
            personality: Personality::Interactive,
            asynchronous: true,
            project: None,
        };
        dispatcher.dispatch(args, commands, state, description)
    }
}

} // verus!
