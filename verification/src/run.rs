//! What a whole run does: which commands are started and how the program
//! ends, for every way in which the child processes can turn out.

use vstd::prelude::*;
use crate::command::{plan_of, pushes, remote_adds};
use crate::config::{
    checked, config_in, config_of_text, empty_config, message_of, ConfigError, ConfigView,
};
use crate::document::{document_of, member_of};
use crate::repos::has_name;
use crate::exit::ExitView;
use crate::session::{end_of, proceed, react, success, ActionView, OutcomeView, SessionView};

verus! {

/// A run: the commands that were started, in their order, and the end of the
/// program; no end where the outcomes ran out while a child was running.
pub struct Run {
    pub started: Seq<Seq<Seq<char>>>,
    pub end: Option<ExitView>,
}

/// The run that follows `action` in `session` when the children that are
/// still to be started turn out as `outcomes` says, one after the other.
pub open spec fn play(session: SessionView, action: ActionView, outcomes: Seq<OutcomeView>) -> Run
    decreases outcomes.len(),
{
    match action {
        ActionView::Exit(exit) => Run { started: Seq::empty(), end: Some(exit) },
        ActionView::Run(line) => if outcomes.len() == 0 {
            Run { started: seq![line], end: None }
        } else {
            let (next, then) = react(session, outcomes[0]);
            let later = play(next, then, outcomes.drop_first());
            Run { started: seq![line] + later.started, end: later.end }
        },
    }
}

/// The run of a fresh session over `steps`.
pub open spec fn run_of(steps: Seq<Seq<Seq<char>>>, outcomes: Seq<OutcomeView>) -> Run {
    let (session, action) = proceed(SessionView { steps, issued: 0 });
    play(session, action, outcomes)
}

/// The position of the first outcome that ends the program, or the number
/// of outcomes where none does.
pub open spec fn first_end(outcomes: Seq<OutcomeView>) -> int
    decreases outcomes.len(),
{
    if outcomes.len() == 0 {
        0
    } else if end_of(outcomes[0]).is_some() {
        0
    } else {
        1 + first_end(outcomes.drop_first())
    }
}

/// `first_end` is in range, no outcome before it ends the program, and the
/// one at it, if there is one, does.
pub proof fn lemma_first_end(outcomes: Seq<OutcomeView>)
    ensures
        0 <= first_end(outcomes) <= outcomes.len(),
        forall|i: int| 0 <= i < first_end(outcomes) ==> end_of(#[trigger] outcomes[i]).is_none(),
        first_end(outcomes) < outcomes.len() ==> end_of(outcomes[first_end(outcomes)]).is_some(),
    decreases outcomes.len(),
{
    if outcomes.len() > 0 && end_of(outcomes[0]).is_none() {
        let later = outcomes.drop_first();
        lemma_first_end(later);
        assert forall|i: int| 0 <= i < first_end(outcomes) implies end_of(
            #[trigger] outcomes[i],
        ).is_none() by {
            if i > 0 {
                assert(outcomes[i] == later[i - 1]);
            }
        }
        if first_end(later) < later.len() {
            assert(outcomes[first_end(outcomes)] == later[first_end(later)]);
        }
    }
}

/// What a run comes to when there is an outcome for every step: the steps up
/// to and including the first that fails are started, in their order, and
/// the program ends as that failure says; with no failure, every step is
/// started and the program ends with status 0.
pub open spec fn outcome_of_plan(steps: Seq<Seq<Seq<char>>>, outcomes: Seq<OutcomeView>) -> Run
    recommends
        outcomes.len() == steps.len(),
{
    let k = first_end(outcomes);
    if k < outcomes.len() {
        Run { started: steps.take(k + 1), end: end_of(outcomes[k]) }
    } else {
        Run { started: steps, end: Some(success()) }
    }
}

proof fn lemma_play(steps: Seq<Seq<Seq<char>>>, issued: nat, outcomes: Seq<OutcomeView>)
    requires
        1 <= issued <= steps.len(),
        outcomes.len() == steps.len() - issued + 1,
    ensures
        play(
            SessionView { steps, issued },
            ActionView::Run(steps[issued - 1]),
            outcomes,
        ) == ({
            let k = first_end(outcomes);
            if k < outcomes.len() {
                Run { started: steps.subrange(issued - 1, issued + k), end: end_of(outcomes[k]) }
            } else {
                Run { started: steps.subrange(issued - 1, steps.len() as int), end: Some(success()) }
            }
        }),
    decreases outcomes.len(),
{
    let session = SessionView { steps, issued };
    let line = steps[issued - 1];
    let later = outcomes.drop_first();
    let k = first_end(outcomes);
    lemma_first_end(outcomes);
    let played = play(session, ActionView::Run(line), outcomes);
    if end_of(outcomes[0]).is_some() {
        let stopped = play(session, ActionView::Exit(end_of(outcomes[0]).unwrap()), later);
        assert(stopped.started =~= Seq::empty());
        assert(played.started =~= steps.subrange(issued - 1, issued as int));
    } else if issued < steps.len() {
        lemma_play(steps, issued + 1, later);
        lemma_first_end(later);
        let j = first_end(later);
        if j < later.len() {
            assert(outcomes[k] == later[j]);
            assert(played.started =~= steps.subrange(issued - 1, issued + k));
        } else {
            assert(played.started =~= steps.subrange(issued - 1, steps.len() as int));
        }
    } else {
        let finished = play(session, ActionView::Exit(success()), later);
        assert(finished.started =~= Seq::empty());
        assert(played.started =~= steps.subrange(issued - 1, steps.len() as int));
    }
}

/// The first failure ends the run: of a plan whose children turn out as
/// `outcomes` says, the session starts the steps up to and including the
/// first whose child fails, and nothing after it, and ends the program with
/// status 1 where that child could not be started or waited for, with the
/// child's own exit code where it exited with one that is not zero. Where no
/// child fails, it starts every step and ends the program with status 0.
pub proof fn lemma_run_stops_at_first_failure(
    steps: Seq<Seq<Seq<char>>>,
    outcomes: Seq<OutcomeView>,
)
    requires
        outcomes.len() == steps.len(),
    ensures
        run_of(steps, outcomes) == outcome_of_plan(steps, outcomes),
{
    lemma_first_end(outcomes);
    if steps.len() == 0 {
        assert(run_of(steps, outcomes).started =~= steps);
    } else {
        lemma_play(steps, 1, outcomes);
        let k = first_end(outcomes);
        if k < outcomes.len() {
            assert(steps.subrange(0, 1 + k) =~= steps.take(k + 1));
        } else {
            assert(steps.subrange(0, steps.len() as int) =~= steps);
        }
    }
}

/// The end of the program on a configuration that cannot be used: status 1
/// and the line that says what the file lacks.
pub open spec fn refusal(error: ConfigError) -> ExitView {
    ExitView { code: 1, message: Some(message_of(error)) }
}

/// The whole program on a configuration and a command line: a configuration
/// that cannot be used ends it before anything is started; any other runs
/// the plan for the command line.
pub open spec fn program(config: ConfigView, args: Seq<Seq<char>>, outcomes: Seq<OutcomeView>) -> Run {
    match checked(config) {
        Err(error) => Run { started: Seq::empty(), end: Some(refusal(error)) },
        Ok(()) => run_of(plan_of(config, args), outcomes),
    }
}

/// The end of a run of one command: as the child's failure says, or with
/// status 0 where the child did not fail.
pub open spec fn end_after(outcome: OutcomeView) -> ExitView {
    match end_of(outcome) {
        Some(exit) => exit,
        None => success(),
    }
}

/// Without a remote the program ends with status 1, whatever the command
/// line, and starts no child process.
pub proof fn lemma_no_repos_starts_nothing(
    config: ConfigView,
    args: Seq<Seq<char>>,
    outcomes: Seq<OutcomeView>,
)
    requires
        config.repos.len() == 0,
    ensures
        program(config, args, outcomes).started.len() == 0,
        program(config, args, outcomes).end == Some(refusal(ConfigError::NoRepos)),
        refusal(ConfigError::NoRepos).code == 1,
{
}

/// With remotes of which none is named `origin` the program ends with
/// status 1, whatever the command line, and starts no child process.
pub proof fn lemma_no_origin_starts_nothing(
    config: ConfigView,
    args: Seq<Seq<char>>,
    outcomes: Seq<OutcomeView>,
)
    requires
        config.repos.len() > 0,
        !has_name(config.repos, "origin"@),
    ensures
        program(config, args, outcomes).started.len() == 0,
        program(config, args, outcomes).end == Some(refusal(ConfigError::NoOrigin)),
        refusal(ConfigError::NoOrigin).code == 1,
{
}

/// Text that is no TOML document, text nested beyond what the parser is
/// given to read, and a document of another shape than a configuration has,
/// such as one without a `repos` table, are taken for the empty
/// configuration, and so the program ends on them as it does without a
/// remote.
pub proof fn lemma_unreadable_text_is_no_repos(
    text: Seq<char>,
    args: Seq<Seq<char>>,
    outcomes: Seq<OutcomeView>,
)
    requires
        match document_of(text) {
            Some(document) => config_in(document).is_none(),
            None => true,
        },
    ensures
        config_of_text(text) == empty_config(),
        program(config_of_text(text), args, outcomes) == program(empty_config(), args, outcomes),
        program(config_of_text(text), args, outcomes) == (Run {
            started: Seq::empty(),
            end: Some(refusal(ConfigError::NoRepos)),
        }),
{
}

/// A document without an entry `repos` is of another shape than a
/// configuration has.
pub proof fn lemma_repos_are_required(document: toml::Value)
    requires
        member_of(document, "repos"@).is_none(),
    ensures
        config_in(document).is_none(),
{
}

/// Without an argument the program runs git's help and ends as that child
/// says: with its exit code, with status 0 where that is zero or missing.
pub proof fn lemma_no_argument_shows_help(
    config: ConfigView,
    args: Seq<Seq<char>>,
    outcome: OutcomeView,
)
    requires
        checked(config) is Ok,
        args.len() < 2,
    ensures
        program(config, args, seq![outcome]) == (Run {
            started: seq![seq!["--help"@]],
            end: Some(end_after(outcome)),
        }),
{
    lemma_single_step(seq!["--help"@], outcome);
}

/// A first argument other than `push` and `init` has the program hand every
/// argument after its own name to git, unchanged and in order, in one
/// command, and end as that child says.
pub proof fn lemma_other_subcommands_are_forwarded(
    config: ConfigView,
    args: Seq<Seq<char>>,
    outcome: OutcomeView,
)
    requires
        checked(config) is Ok,
        args.len() >= 2,
        args[1] != "push"@,
        args[1] != "init"@,
    ensures
        program(config, args, seq![outcome]) == (Run {
            started: seq![args.skip(1)],
            end: Some(end_after(outcome)),
        }),
{
    lemma_single_step(args.skip(1), outcome);
}

/// A push starts one `push <name> <branch>` per remote, each followed by the
/// arguments after `push`, in the order of the remotes, as far as no child
/// fails; the first failure is the end.
pub proof fn lemma_push_goes_to_every_remote(
    config: ConfigView,
    args: Seq<Seq<char>>,
    outcomes: Seq<OutcomeView>,
)
    requires
        checked(config) is Ok,
        args.len() >= 2,
        args[1] == "push"@,
        outcomes.len() == config.repos.len(),
    ensures
        program(config, args, outcomes) == outcome_of_plan(
            pushes(config, args.skip(2)),
            outcomes,
        ),
{
    lemma_run_stops_at_first_failure(pushes(config, args.skip(2)), outcomes);
}

/// An init starts `init` with the arguments after it, then one `remote add`
/// per remote, then `fetch origin`, then `checkout master`, as far as no
/// child fails; the first failure is the end.
pub proof fn lemma_init_adds_every_remote(
    config: ConfigView,
    args: Seq<Seq<char>>,
    outcomes: Seq<OutcomeView>,
)
    requires
        checked(config) is Ok,
        args.len() >= 2,
        args[1] == "init"@,
        outcomes.len() == config.repos.len() + 3,
    ensures
        program(config, args, outcomes) == outcome_of_plan(
            seq![seq!["init"@] + args.skip(2)] + remote_adds(config) + seq![
                seq!["fetch"@, "origin"@],
                seq!["checkout"@, "master"@],
            ],
            outcomes,
        ),
{
    assert("init"@ != "push"@) by {
        reveal_strlit("init");
        reveal_strlit("push");
        assert("init"@[0] != "push"@[0]);
    }
    lemma_run_stops_at_first_failure(plan_of(config, args), outcomes);
}

proof fn lemma_single_step(line: Seq<Seq<char>>, outcome: OutcomeView)
    ensures
        run_of(seq![line], seq![outcome]) == (Run {
            started: seq![line],
            end: Some(end_after(outcome)),
        }),
{
    let steps = seq![line];
    let outcomes = seq![outcome];
    lemma_run_stops_at_first_failure(steps, outcomes);
    lemma_first_end(outcomes);
    assert(steps.take(1) =~= steps);
}

} // verus!
