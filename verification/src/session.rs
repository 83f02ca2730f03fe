//! One invocation of the wrapper as a machine: it hands out the git commands
//! of a plan one at a time and decides, from what became of each child
//! process, whether the next one runs or the program ends.

use vstd::prelude::*;
use crate::command::{plan, plan_of, rest};
use crate::config::{checked, config_of_text, Config, ConfigError};
use crate::exit::{end_after_wait, exit_if_code_nonzero, fatal, log_err, Exit, ExitView};

verus! {

/// What became of one child process.
#[derive(Debug, PartialEq, Eq)]
pub enum Outcome {
    /// It could not be started; the text names the cause.
    NotSpawned(String),
    /// It could not be waited for; the text names the cause.
    NotWaited(String),
    /// It ran and ended, with this exit code if it had one.
    Exited(Option<i32>),
}

/// An `Outcome` with its text as a sequence of characters.
pub enum OutcomeView {
    NotSpawned(Seq<char>),
    NotWaited(Seq<char>),
    Exited(Option<i32>),
}

impl View for Outcome {
    type V = OutcomeView;

    open spec fn view(&self) -> OutcomeView {
        match *self {
            Outcome::NotSpawned(cause) => OutcomeView::NotSpawned(cause@),
            Outcome::NotWaited(cause) => OutcomeView::NotWaited(cause@),
            Outcome::Exited(status) => OutcomeView::Exited(status),
        }
    }
}

/// What the caller is to do next.
#[derive(Debug, PartialEq, Eq)]
pub enum Action {
    /// Run git with these arguments, wait for it, and report the outcome.
    Run(Vec<String>),
    /// Log the message, if there is one, and exit with the code.
    Exit(Exit),
}

/// An `Action` as mathematical values.
pub enum ActionView {
    Run(Seq<Seq<char>>),
    Exit(ExitView),
}

impl View for Action {
    type V = ActionView;

    open spec fn view(&self) -> ActionView {
        match *self {
            Action::Run(line) => ActionView::Run(line.deep_view()),
            Action::Exit(exit) => ActionView::Exit(exit@),
        }
    }
}

/// The end of a run in which nothing failed.
pub open spec fn success() -> ExitView {
    ExitView { code: 0, message: None }
}

/// Whether the outcome of a child ends the program, and how: a child that
/// could not be started or waited for ends it with status 1, a child that
/// exited with a code other than zero ends it with that code.
pub open spec fn end_of(outcome: OutcomeView) -> Option<ExitView> {
    match outcome {
        OutcomeView::NotSpawned(cause) => Some(fatal("Error running git command"@, cause)),
        OutcomeView::NotWaited(cause) => end_after_wait(Err(cause)),
        OutcomeView::Exited(status) => end_after_wait(Ok(status)),
    }
}

/// The commands of one invocation and how many of them have been handed out.
#[derive(Debug)]
pub struct Session {
    steps: Vec<Vec<String>>,
    issued: usize,
}

/// A `Session` as mathematical values: the argument lists of its commands
/// and the number of commands handed out.
pub struct SessionView {
    pub steps: Seq<Seq<Seq<char>>>,
    pub issued: nat,
}

impl View for Session {
    type V = SessionView;

    closed spec fn view(&self) -> SessionView {
        SessionView { steps: self.steps.deep_view(), issued: self.issued as nat }
    }
}

/// The session after the next command has been handed out, and the action
/// that hands it out; with no command left, the successful end.
pub open spec fn proceed(session: SessionView) -> (SessionView, ActionView) {
    if session.issued < session.steps.len() {
        (
            SessionView { steps: session.steps, issued: session.issued + 1 },
            ActionView::Run(session.steps[session.issued as int]),
        )
    } else {
        (session, ActionView::Exit(success()))
    }
}

/// The session and the action after the outcome of the command that was
/// handed out last.
pub open spec fn react(session: SessionView, outcome: OutcomeView) -> (SessionView, ActionView) {
    match end_of(outcome) {
        Some(exit) => (session, ActionView::Exit(exit)),
        None => proceed(session),
    }
}

impl Session {
    #[verifier::type_invariant]
    spec fn issued_in_range(&self) -> bool {
        self.issued <= self.steps@.len()
    }

    /// A session that is to run `steps` in their order.
    pub fn new(steps: Vec<Vec<String>>) -> (session: Session)
        ensures
            session@ == (SessionView { steps: steps.deep_view(), issued: 0 }),
    {
        Session { steps, issued: 0 }
    }

    /// The number of commands handed out so far.
    pub fn issued(&self) -> (count: usize)
        ensures
            count == self@.issued,
            count <= self@.steps.len(),
    {
        proof {
            use_type_invariant(self);
        }
        self.issued
    }

    /// Hands out the next command, or the successful end where none is left.
    pub fn start(&mut self) -> (action: Action)
        ensures
            (final(self)@, action@) == proceed(old(self)@),
    {
        proof {
            use_type_invariant(&*self);
        }
        if self.issued < self.steps.len() {
            let line = rest(&self.steps[self.issued], 0);
            assert(line.deep_view() =~= self.steps@[self.issued as int].deep_view());
            self.issued = self.issued + 1;
            Action::Run(line)
        } else {
            Action::Exit(Exit { code: 0, message: None })
        }
    }

    /// Takes the outcome of the command handed out last and decides what
    /// comes next: the end of the program where the child failed, else the
    /// next command, else the successful end.
    pub fn resume(&mut self, outcome: Outcome) -> (action: Action)
        ensures
            (final(self)@, action@) == react(old(self)@, outcome@),
    {
        let waited = match outcome {
            Outcome::NotSpawned(cause) => {
                match log_err::<Option<i32>>(Err(cause), "Error running git command") {
                    Ok(status) => Ok(status),
                    Err(exit) => {
                        return Action::Exit(exit);
                    },
                }
            },
            Outcome::NotWaited(cause) => Err(cause),
            Outcome::Exited(status) => Ok(status),
        };
        match exit_if_code_nonzero(waited) {
            Some(exit) => Action::Exit(exit),
            None => self.start(),
        }
    }
}

/// Sets up the session for a configuration and a command line. A
/// configuration without remotes, or without a remote named `origin`, gives
/// the error and no session, so that no command is ever handed out for it.
pub fn prepare(config: &Config, args: &Vec<String>) -> (prepared: Result<Session, ConfigError>)
    ensures
        match checked(config@) {
            Ok(()) => prepared is Ok && prepared->Ok_0@ == (SessionView {
                steps: plan_of(config@, args.deep_view()),
                issued: 0,
            }),
            Err(error) => prepared is Err && prepared->Err_0 == error,
        },
{
    match config.validate() {
        Ok(()) => Ok(Session::new(plan(config, args))),
        Err(error) => Err(error),
    }
}

/// Sets up the session for the text of a configuration file and a command
/// line. Text that cannot be read as a configuration counts as one without
/// remotes.
pub fn launch(text: &str, args: &Vec<String>) -> (prepared: Result<Session, ConfigError>)
    ensures
        match checked(config_of_text(text@)) {
            Ok(()) => prepared is Ok && prepared->Ok_0@ == (SessionView {
                steps: plan_of(config_of_text(text@), args.deep_view()),
                issued: 0,
            }),
            Err(error) => prepared is Err && prepared->Err_0 == error,
        },
{
    let config = Config::from_toml(text);
    prepare(&config, args)
}

} // verus!
