use gitm::command::{plan, Subcommand};
use gitm::config::{Config, Options};
use gitm::repos::RepoSet;

fn argv(list: &[&str]) -> Vec<String> {
    list.iter().map(|s| s.to_string()).collect()
}

fn lines(list: &[&[&str]]) -> Vec<Vec<String>> {
    list.iter().map(|line| argv(line)).collect()
}

fn three_remotes(branch: Option<&str>) -> Config {
    let mut repos = RepoSet::new();
    repos.insert("origin".to_string(), "U0".to_string());
    repos.insert("a".to_string(), "U1".to_string());
    repos.insert("b".to_string(), "U2".to_string());
    Config { repos, options: Some(Options { branch: branch.map(|b| b.to_string()) }) }
}

#[test]
fn select_reads_the_first_argument() {
    assert_eq!(Subcommand::select(&argv(&[])), Subcommand::Help);
    assert_eq!(Subcommand::select(&argv(&["gitm"])), Subcommand::Help);
    assert_eq!(Subcommand::select(&argv(&["gitm", "push"])), Subcommand::Push);
    assert_eq!(Subcommand::select(&argv(&["gitm", "push", "--force"])), Subcommand::Push);
    assert_eq!(Subcommand::select(&argv(&["gitm", "init"])), Subcommand::Init);
    assert_eq!(Subcommand::select(&argv(&["gitm", "status", "-sb"])), Subcommand::Forward);
    assert_eq!(Subcommand::select(&argv(&["gitm", "--help"])), Subcommand::Forward);
}

#[test]
fn select_matches_whole_words_only() {
    assert_eq!(Subcommand::select(&argv(&["gitm", "Push"])), Subcommand::Forward);
    assert_eq!(Subcommand::select(&argv(&["gitm", "pushes"])), Subcommand::Forward);
    assert_eq!(Subcommand::select(&argv(&["gitm", "pus"])), Subcommand::Forward);
    assert_eq!(Subcommand::select(&argv(&["gitm", ""])), Subcommand::Forward);
    assert_eq!(Subcommand::select(&argv(&["gitm", "status", "push"])), Subcommand::Forward);
    assert_eq!(Subcommand::select(&argv(&["push"])), Subcommand::Help);
    assert_eq!(Subcommand::select(&argv(&["init", "x"])), Subcommand::Forward);
}

#[test]
fn notice_names_the_intercepted_subcommand() {
    assert_eq!(Subcommand::Push.notice(), Some("Intercepted push command".to_string()));
    assert_eq!(Subcommand::Init.notice(), Some("Intercepted init command".to_string()));
    assert_eq!(Subcommand::Help.notice(), None);
    assert_eq!(Subcommand::Forward.notice(), None);
}

#[test]
fn plan_without_arguments_asks_for_help() {
    let config = three_remotes(Some("dev"));
    assert_eq!(plan(&config, &argv(&["gitm"])), lines(&[&["--help"]]));
    assert_eq!(plan(&config, &argv(&[])), lines(&[&["--help"]]));
}

#[test]
fn plan_for_push_has_one_push_per_remote() {
    let config = three_remotes(Some("dev"));
    assert_eq!(
        plan(&config, &argv(&["gitm", "push", "--force"])),
        lines(&[
            &["push", "origin", "dev", "--force"],
            &["push", "a", "dev", "--force"],
            &["push", "b", "dev", "--force"],
        ])
    );
}

#[test]
fn plan_for_push_defaults_to_master() {
    let config = three_remotes(None);
    assert_eq!(
        plan(&config, &argv(&["gitm", "push"])),
        lines(&[&["push", "origin", "master"], &["push", "a", "master"], &["push", "b", "master"]])
    );
}

#[test]
fn plan_for_push_keeps_every_trailing_argument() {
    let config = three_remotes(Some("dev"));
    let steps = plan(&config, &argv(&["gitm", "push", "--tags", "-f", "push", ""]));
    assert_eq!(steps.len(), 3);
    assert_eq!(steps[1], argv(&["push", "a", "dev", "--tags", "-f", "push", ""]));
}

#[test]
fn plan_for_push_without_remotes_is_empty() {
    let config = Config::default();
    assert_eq!(plan(&config, &argv(&["gitm", "push"])), lines(&[]));
}

#[test]
fn plan_for_init_adds_every_remote_and_checks_out_master() {
    let config = three_remotes(Some("dev"));
    assert_eq!(
        plan(&config, &argv(&["gitm", "init"])),
        lines(&[
            &["init"],
            &["remote", "add", "origin", "U0"],
            &["remote", "add", "a", "U1"],
            &["remote", "add", "b", "U2"],
            &["fetch", "origin"],
            &["checkout", "master"],
        ])
    );
}

#[test]
fn plan_for_init_hands_trailing_arguments_to_init_only() {
    let config = three_remotes(None);
    let steps = plan(&config, &argv(&["gitm", "init", "--bare", "dir"]));
    assert_eq!(steps.len(), 6);
    assert_eq!(steps[0], argv(&["init", "--bare", "dir"]));
    assert_eq!(steps[1], argv(&["remote", "add", "origin", "U0"]));
    assert_eq!(steps[4], argv(&["fetch", "origin"]));
    assert_eq!(steps[5], argv(&["checkout", "master"]));
}

#[test]
fn plan_forwards_anything_else_unchanged() {
    let config = three_remotes(Some("dev"));
    assert_eq!(plan(&config, &argv(&["gitm", "status", "-sb"])), lines(&[&["status", "-sb"]]));
    assert_eq!(
        plan(&config, &argv(&["gitm", "commit", "-m", "push init", "--", "b", "a"])),
        lines(&[&["commit", "-m", "push init", "--", "b", "a"]])
    );
    assert_eq!(plan(&config, &argv(&["gitm", ""])), lines(&[&[""]]));
}
