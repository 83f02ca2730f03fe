use gitm::config::{Config, ConfigError, Options, CFG_NAME};
use gitm::repos::{Remote, RepoSet};

fn owned(s: &str) -> String {
    s.to_string()
}

fn remote(name: &str, url: &str) -> Remote {
    Remote { name: owned(name), url: owned(url) }
}

fn with_repos(pairs: &[(&str, &str)]) -> Config {
    let mut repos = RepoSet::new();
    for (name, url) in pairs {
        repos.insert(owned(name), owned(url));
    }
    Config { repos, options: None }
}

fn document(text: &str) -> toml::Value {
    text.parse::<toml::Value>().unwrap()
}

#[test]
fn config_file_name() {
    assert_eq!(CFG_NAME, ".gitm.toml");
}

#[test]
fn default_config_has_no_repos_and_no_options() {
    let config = Config::default();
    assert!(config.repos.is_empty());
    assert_eq!(config.options, None);
    assert_eq!(config.branch(), "master");
}

#[test]
fn from_toml_reads_repos_and_branch() {
    let config = Config::from_toml(
        "[repos]\norigin = \"U0\"\na = \"U1\"\nb = \"U2\"\n\n[options]\nbranch = \"dev\"\n",
    );
    let mut entries: Vec<(String, String)> =
        config.repos.entries().iter().map(|r| (r.name.clone(), r.url.clone())).collect();
    entries.sort();
    assert_eq!(
        entries,
        vec![
            (owned("a"), owned("U1")),
            (owned("b"), owned("U2")),
            (owned("origin"), owned("U0")),
        ]
    );
    assert_eq!(config.repos.get(&owned("origin")), Some(&owned("U0")));
    assert_eq!(config.options, Some(Options { branch: Some(owned("dev")) }));
    assert_eq!(config.branch(), "dev");
    assert_eq!(config.validate(), Ok(()));
}

#[test]
fn from_toml_keeps_names_and_urls_apart() {
    let config = Config::from_toml("[repos]\norigin = \"git@example.org:me/project.git\"\n");
    assert_eq!(
        config.repos.entries(),
        &vec![remote("origin", "git@example.org:me/project.git")]
    );
    assert_eq!(config.options, None);
}

#[test]
fn from_toml_without_options_pushes_master() {
    let config = Config::from_toml("[repos]\norigin = \"U0\"\n");
    assert_eq!(config.options, None);
    assert_eq!(config.branch(), "master");
}

#[test]
fn from_toml_with_options_without_branch_pushes_master() {
    let config = Config::from_toml("[repos]\norigin = \"U0\"\n[options]\n");
    assert_eq!(config.options, Some(Options { branch: None }));
    assert_eq!(config.branch(), "master");
    assert_eq!(config.repos.len(), 1);
}

#[test]
fn from_toml_ignores_other_content() {
    let config = Config::from_toml(
        "title = \"x\"\nnumber = 3\n[repos]\norigin = \"U0\"\n[options]\nbranch = \"dev\"\ncolor = true\n[extra]\nk = [1, 2]\n",
    );
    assert_eq!(config.repos.entries(), &vec![remote("origin", "U0")]);
    assert_eq!(config.options, Some(Options { branch: Some(owned("dev")) }));
}

#[test]
fn from_toml_inline_tables_are_tables() {
    let config =
        Config::from_toml("repos = { origin = \"U0\", a = \"U1\" }\noptions = { branch = \"dev\" }\n");
    assert_eq!(config.repos.len(), 2);
    assert_eq!(config.repos.get(&owned("a")), Some(&owned("U1")));
    assert_eq!(config.branch(), "dev");
}

#[test]
fn from_toml_malformed_text_is_the_empty_config() {
    for text in ["[repos", "repos = ", "= 3", "[repos]\norigin = \"U0\"\norigin = \"U1\"\n", "\"", "a b c"] {
        let config = Config::from_toml(text);
        assert!(config.repos.is_empty(), "{:?}", text);
        assert_eq!(config.options, None, "{:?}", text);
        assert_eq!(config.validate(), Err(ConfigError::NoRepos), "{:?}", text);
    }
}

#[test]
fn from_toml_missing_repos_is_the_empty_config() {
    for text in ["", "[options]\nbranch = \"dev\"\n", "title = \"x\"\n"] {
        let config = Config::from_toml(text);
        assert!(config.repos.is_empty(), "{:?}", text);
        assert_eq!(config.options, None, "{:?}", text);
        assert_eq!(config.branch(), "master");
    }
}

#[test]
fn from_toml_repos_of_another_shape_is_the_empty_config() {
    for text in [
        "repos = \"origin\"\n",
        "repos = 3\n",
        "repos = [\"U0\"]\n",
        "[repos]\norigin = 3\n",
        "[repos]\norigin = \"U0\"\na = true\n",
        "[repos]\norigin = \"U0\"\n[repos.a]\nurl = \"U1\"\n",
        "[repos]\norigin = [\"U0\"]\n",
    ] {
        let config = Config::from_toml(text);
        assert!(config.repos.is_empty(), "{:?}", text);
        assert_eq!(config.options, None, "{:?}", text);
    }
}

#[test]
fn from_toml_options_of_another_shape_is_the_empty_config() {
    for text in [
        "options = \"dev\"\n[repos]\norigin = \"U0\"\n",
        "options = 3\n[repos]\norigin = \"U0\"\n",
        "options = [\"dev\"]\n[repos]\norigin = \"U0\"\n",
        "[repos]\norigin = \"U0\"\n[options]\nbranch = 3\n",
        "[repos]\norigin = \"U0\"\n[options]\nbranch = [\"dev\"]\n",
        "[repos]\norigin = \"U0\"\n[options.branch]\nname = \"dev\"\n",
    ] {
        let config = Config::from_toml(text);
        assert!(config.repos.is_empty(), "{:?}", text);
        assert_eq!(config.options, None, "{:?}", text);
    }
}

#[test]
fn from_toml_empty_repos_table_has_no_repos() {
    let config = Config::from_toml("[repos]\n[options]\nbranch = \"dev\"\n");
    assert!(config.repos.is_empty());
    assert_eq!(config.options, Some(Options { branch: Some(owned("dev")) }));
    assert_eq!(config.validate(), Err(ConfigError::NoRepos));
}

#[test]
fn from_document_reads_the_expected_shape() {
    let config =
        Config::from_document(&document("[repos]\norigin = \"U0\"\n[options]\nbranch = \"dev\"\n"))
            .unwrap();
    assert_eq!(config.repos.entries(), &vec![remote("origin", "U0")]);
    assert_eq!(config.options, Some(Options { branch: Some(owned("dev")) }));
}

#[test]
fn from_document_refuses_other_shapes() {
    assert!(Config::from_document(&document("")).is_none());
    assert!(Config::from_document(&document("repos = 1")).is_none());
    assert!(Config::from_document(&document("[repos]\na = 1")).is_none());
    assert!(Config::from_document(&document("options = 1\n[repos]\na = \"x\"")).is_none());
    assert!(Config::from_document(&document("[repos]\na = \"x\"\n[options]\nbranch = 1")).is_none());
    assert!(Config::from_document(&toml::Value::String(owned("repos"))).is_none());
    assert!(Config::from_document(&toml::Value::Integer(1)).is_none());
}

#[test]
fn from_document_accepts_an_empty_repos_table() {
    let config = Config::from_document(&document("[repos]\n")).unwrap();
    assert!(config.repos.is_empty());
    assert_eq!(config.options, None);
}

#[test]
fn validate_wants_a_repo() {
    assert_eq!(with_repos(&[]).validate(), Err(ConfigError::NoRepos));
    assert_eq!(Config::default().validate(), Err(ConfigError::NoRepos));
}

#[test]
fn validate_wants_origin() {
    assert_eq!(with_repos(&[("a", "U1")]).validate(), Err(ConfigError::NoOrigin));
    assert_eq!(with_repos(&[("a", "U1"), ("b", "U2")]).validate(), Err(ConfigError::NoOrigin));
    assert_eq!(with_repos(&[("Origin", "U0")]).validate(), Err(ConfigError::NoOrigin));
    assert_eq!(with_repos(&[("a", "origin")]).validate(), Err(ConfigError::NoOrigin));
}

#[test]
fn validate_accepts_origin_anywhere() {
    assert_eq!(with_repos(&[("origin", "U0")]).validate(), Ok(()));
    assert_eq!(with_repos(&[("a", "U1"), ("origin", "U0"), ("b", "U2")]).validate(), Ok(()));
}

#[test]
fn branch_is_the_configured_one_or_master() {
    let mut config = with_repos(&[("origin", "U0")]);
    assert_eq!(config.branch(), "master");
    config.options = Some(Options { branch: None });
    assert_eq!(config.branch(), "master");
    config.options = Some(Options { branch: Some(owned("dev")) });
    assert_eq!(config.branch(), "dev");
    config.options = Some(Options { branch: Some(owned("")) });
    assert_eq!(config.branch(), "");
}

#[test]
fn config_error_messages() {
    assert_eq!(ConfigError::NoRepos.message(), "Please add repos to the .gitm.toml file");
    assert_eq!(ConfigError::NoOrigin.message(), "Origin repo required in .gitm.toml file");
    assert_eq!(ConfigError::NoRepos.exit_code(), 1);
    assert_eq!(ConfigError::NoOrigin.exit_code(), 1);
}
