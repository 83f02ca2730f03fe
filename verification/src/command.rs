//! From a command line to the git invocations that it stands for.

use vstd::prelude::*;
use vstd::string::StringExecFns;
use crate::config::{branch_of, Config, ConfigView};

verus! {

/// What the first argument after the program's name selects.
#[derive(Debug, Clone, Copy, PartialEq, Eq, Structural)]
pub enum Subcommand {
    /// No argument at all: show git's help.
    Help,
    /// `push`: push to every remote in turn.
    Push,
    /// `init`: create the repository and add every remote.
    Init,
    /// Anything else: hand the arguments to git as they are.
    Forward,
}

/// The subcommand that `args` selects; `args[0]` is the program's name.
pub open spec fn subcommand_of(args: Seq<Seq<char>>) -> Subcommand {
    if args.len() < 2 {
        Subcommand::Help
    } else if args[1] == "push"@ {
        Subcommand::Push
    } else if args[1] == "init"@ {
        Subcommand::Init
    } else {
        Subcommand::Forward
    }
}

/// The push to one remote: `push <name> <branch>`, then the user's own
/// arguments.
pub open spec fn push_to(name: Seq<char>, branch: Seq<char>, extra: Seq<Seq<char>>) -> Seq<
    Seq<char>,
> {
    seq!["push"@, name, branch] + extra
}

/// `remote add <name> <url>`.
pub open spec fn add_remote(name: Seq<char>, url: Seq<char>) -> Seq<Seq<char>> {
    seq!["remote"@, "add"@, name, url]
}

/// One push per remote, in the order of the remotes.
pub open spec fn pushes(config: ConfigView, extra: Seq<Seq<char>>) -> Seq<Seq<Seq<char>>> {
    Seq::new(config.repos.len(), |i: int| push_to(config.repos[i].0, branch_of(config), extra))
}

/// One `remote add` per remote, in the order of the remotes.
pub open spec fn remote_adds(config: ConfigView) -> Seq<Seq<Seq<char>>> {
    Seq::new(config.repos.len(), |i: int| add_remote(config.repos[i].0, config.repos[i].1))
}

/// The argument lists with which git is to be run, one after the other, for
/// the command line `args`.
pub open spec fn plan_of(config: ConfigView, args: Seq<Seq<char>>) -> Seq<Seq<Seq<char>>> {
    match subcommand_of(args) {
        Subcommand::Help => seq![seq!["--help"@]],
        Subcommand::Push => pushes(config, args.skip(2)),
        Subcommand::Init => seq![seq!["init"@] + args.skip(2)] + remote_adds(config) + seq![
            seq!["fetch"@, "origin"@],
            seq!["checkout"@, "master"@],
        ],
        Subcommand::Forward => seq![args.skip(1)],
    }
}

fn is_word(arg: &String, word: &str) -> (same: bool)
    ensures
        same == (arg@ == word@),
{
    let word = String::from_str(word);
    *arg == word
}

/// The arguments from position `from` on.
pub(crate) fn rest(args: &Vec<String>, from: usize) -> (tail: Vec<String>)
    requires
        from <= args@.len(),
    ensures
        tail.deep_view() == args.deep_view().skip(from as int),
{
    let mut tail: Vec<String> = Vec::new();
    let mut i: usize = from;
    while i < args.len()
        invariant
            from <= i <= args@.len(),
            tail@.len() == i - from,
            forall|k: int| 0 <= k < tail@.len() ==> (#[trigger] tail@[k])@ == args@[from + k]@,
        decreases args@.len() - i,
    {
        tail.push(args[i].clone());
        i += 1;
    }
    assert(tail.deep_view() =~= args.deep_view().skip(from as int));
    tail
}

/// `words`, followed by the arguments from position `from` on.
fn with_rest(words: Vec<String>, args: &Vec<String>, from: usize) -> (line: Vec<String>)
    requires
        from <= args@.len(),
    ensures
        line.deep_view() == words.deep_view() + args.deep_view().skip(from as int),
{
    let ghost head = words.deep_view();
    let mut line = words;
    let mut tail = rest(args, from);
    let ghost copied = tail.deep_view();
    line.append(&mut tail);
    assert(line.deep_view() =~= head + copied);
    line
}

impl Subcommand {
    /// Reads the subcommand off the command line.
    pub fn select(args: &Vec<String>) -> (selected: Subcommand)
        ensures
            selected == subcommand_of(args.deep_view()),
    {
        if args.len() < 2 {
            Subcommand::Help
        } else if is_word(&args[1], "push") {
            Subcommand::Push
        } else if is_word(&args[1], "init") {
            Subcommand::Init
        } else {
            Subcommand::Forward
        }
    }

    /// The line that is logged when the wrapper takes a subcommand over
    /// from git; `None` for what it only hands on.
    pub fn notice(&self) -> (line: Option<String>)
        ensures
            match *self {
                Subcommand::Push => line is Some && line->0@ == "Intercepted push command"@,
                Subcommand::Init => line is Some && line->0@ == "Intercepted init command"@,
                _ => line is None,
            },
    {
        match self {
            Subcommand::Push => Some(String::from_str("Intercepted push command")),
            Subcommand::Init => Some(String::from_str("Intercepted init command")),
            _ => None,
        }
    }
}

/// Works out the git invocations for a command line: the argument list of
/// each, in the order in which they are to run.
pub fn plan(config: &Config, args: &Vec<String>) -> (steps: Vec<Vec<String>>)
    ensures
        steps.deep_view() == plan_of(config@, args.deep_view()),
{
    let mut steps: Vec<Vec<String>> = Vec::new();
    match Subcommand::select(args) {
        Subcommand::Help => {
            let mut line: Vec<String> = Vec::new();
            line.push(String::from_str("--help"));
            steps.push(line);
            assert(steps.deep_view() =~= seq![seq!["--help"@]]) by {
                assert(steps@[0].deep_view() =~= seq!["--help"@]);
            }
        },
        Subcommand::Push => {
            let branch = config.branch();
            let remotes = config.repos.entries();
            let ghost extra = args.deep_view().skip(2);
            let mut i: usize = 0;
            while i < remotes.len()
                invariant
                    i <= remotes@.len(),
                    2 <= args@.len(),
                    extra == args.deep_view().skip(2),
                    branch@ == branch_of(config@),
                    remotes@.len() == config@.repos.len(),
                    forall|k: int|
                        0 <= k < remotes@.len() ==> (#[trigger] remotes@[k])@ == config@.repos[k],
                    steps@.len() == i,
                    forall|k: int|
                        0 <= k < i ==> (#[trigger] steps@[k]).deep_view() == push_to(
                            config@.repos[k].0,
                            branch_of(config@),
                            extra,
                        ),
                decreases remotes@.len() - i,
            {
                let mut words: Vec<String> = Vec::new();
                words.push(String::from_str("push"));
                words.push(remotes[i].name.clone());
                words.push(branch.clone());
                assert(words.deep_view() =~= seq!["push"@, remotes@[i as int].name@, branch@]);
                let line = with_rest(words, args, 2);
                steps.push(line);
                i += 1;
            }
            assert(steps.deep_view() =~= pushes(config@, extra));
        },
        Subcommand::Init => {
            let mut words: Vec<String> = Vec::new();
            words.push(String::from_str("init"));
            assert(words.deep_view() =~= seq!["init"@]);
            let line = with_rest(words, args, 2);
            steps.push(line);
            let remotes = config.repos.entries();
            let mut i: usize = 0;
            while i < remotes.len()
                invariant
                    i <= remotes@.len(),
                    2 <= args@.len(),
                    remotes@.len() == config@.repos.len(),
                    forall|k: int|
                        0 <= k < remotes@.len() ==> (#[trigger] remotes@[k])@ == config@.repos[k],
                    steps@.len() == i + 1,
                    steps@[0].deep_view() == seq!["init"@] + args.deep_view().skip(2),
                    forall|k: int|
                        0 <= k < i ==> (#[trigger] steps@[k + 1]).deep_view() == add_remote(
                            config@.repos[k].0,
                            config@.repos[k].1,
                        ),
                decreases remotes@.len() - i,
            {
                let mut words: Vec<String> = Vec::new();
                words.push(String::from_str("remote"));
                words.push(String::from_str("add"));
                words.push(remotes[i].name.clone());
                words.push(remotes[i].url.clone());
                assert(words.deep_view() =~= add_remote(
                    remotes@[i as int].name@,
                    remotes@[i as int].url@,
                ));
                steps.push(words);
                i += 1;
            }
            let mut fetch: Vec<String> = Vec::new();
            fetch.push(String::from_str("fetch"));
            fetch.push(String::from_str("origin"));
            assert(fetch.deep_view() =~= seq!["fetch"@, "origin"@]);
            steps.push(fetch);
            let mut checkout: Vec<String> = Vec::new();
            checkout.push(String::from_str("checkout"));
            checkout.push(String::from_str("master"));
            assert(checkout.deep_view() =~= seq!["checkout"@, "master"@]);
            steps.push(checkout);
            assert(steps.deep_view() =~= plan_of(config@, args.deep_view())) by {
                let n = config@.repos.len() as int;
                assert forall|k: int| 0 <= k < n + 3 implies steps.deep_view()[k] == plan_of(
                    config@,
                    args.deep_view(),
                )[k] by {
                    if 1 <= k <= n {
                        assert(steps@[(k - 1) + 1].deep_view() == add_remote(
                            config@.repos[k - 1].0,
                            config@.repos[k - 1].1,
                        ));
                    }
                }
            }
        },
        Subcommand::Forward => {
            let line = rest(args, 1);
            steps.push(line);
            assert(steps.deep_view() =~= seq![args.deep_view().skip(1)]);
        },
    }
    steps
}

} // verus!
