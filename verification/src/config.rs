//! The configuration: the remotes to mirror to and the branch to push.

use vstd::prelude::*;
use vstd::string::StringExecFns;
use crate::document::{as_text, document_of, keys, keys_of, member, member_of, read, text_of};
use crate::repos::{has_name, RepoSet};

verus! {

/// Name of the configuration file, looked up in the working directory.
pub const CFG_NAME: &'static str = ".gitm.toml";

/// The `options` table.
#[derive(Debug, PartialEq, Eq)]
pub struct Options {
    pub branch: Option<String>,
}

/// An `Options` with its text as a sequence of characters.
pub struct OptionsView {
    pub branch: Option<Seq<char>>,
}

impl View for Options {
    type V = OptionsView;

    open spec fn view(&self) -> OptionsView {
        OptionsView {
            branch: match self.branch {
                Some(b) => Some(b@),
                None => None,
            },
        }
    }
}

/// What the configuration file holds.
#[derive(Debug)]
pub struct Config {
    pub repos: RepoSet,
    pub options: Option<Options>,
}

/// A `Config` as mathematical values: the remotes as name and URL, in their
/// order, and the options.
pub struct ConfigView {
    pub repos: Seq<(Seq<char>, Seq<char>)>,
    pub options: Option<OptionsView>,
}

impl View for Config {
    type V = ConfigView;

    open spec fn view(&self) -> ConfigView {
        ConfigView {
            repos: self.repos@,
            options: match self.options {
                Some(o) => Some(o@),
                None => None,
            },
        }
    }
}

/// The configuration that stands in for a file that cannot be read as one:
/// no remote, no options.
pub open spec fn empty_config() -> ConfigView {
    ConfigView { repos: Seq::empty(), options: None }
}

/// The branch that a push names: the configured one, `master` without one.
pub open spec fn branch_of(config: ConfigView) -> Seq<char> {
    match config.options {
        Some(OptionsView { branch: Some(b) }) => b,
        _ => "master"@,
    }
}

impl Default for Config {
    fn default() -> (config: Config)
        ensures
            config@ == empty_config(),
    {
        Config { repos: RepoSet::new(), options: None }
    }
}

/// The string that `table` holds under `key`; `None` where it holds nothing
/// there, or something that is no string.
pub open spec fn string_under(table: toml::Value, key: Seq<char>) -> Option<Seq<char>> {
    match member_of(table, key) {
        Some(v) => text_of(v),
        None => None,
    }
}

/// Whether `value` is a table all of whose entries are strings.
pub open spec fn is_string_table(value: toml::Value) -> bool {
    match keys_of(value) {
        Some(ks) => forall|i: int| 0 <= i < ks.len() ==> string_under(value, #[trigger] ks[i]).is_some(),
        None => false,
    }
}

/// The entries of a table of strings, in the order of its keys.
pub open spec fn string_entries(value: toml::Value) -> Seq<(Seq<char>, Seq<char>)>
    recommends
        is_string_table(value),
{
    let ks = keys_of(value).unwrap();
    Seq::new(ks.len(), |i: int| (ks[i], string_under(value, ks[i]).unwrap()))
}

/// Whether the document has a `repos` table that maps names to strings.
pub open spec fn repos_fit(document: toml::Value) -> bool {
    match member_of(document, "repos"@) {
        Some(table) => is_string_table(table),
        None => false,
    }
}

/// Whether the document's `options` entry, if it has one, is a table whose
/// `branch`, if it has one, is a string.
pub open spec fn options_fit(document: toml::Value) -> bool {
    match member_of(document, "options"@) {
        Some(table) => keys_of(table).is_some() && (member_of(table, "branch"@).is_some()
            ==> string_under(table, "branch"@).is_some()),
        None => true,
    }
}

/// The options that a document names: none without an `options` table,
/// else the `branch` of that table, if it has one.
pub open spec fn config_options(document: toml::Value) -> Option<OptionsView> {
    match member_of(document, "options"@) {
        Some(table) => Some(OptionsView { branch: string_under(table, "branch"@) }),
        None => None,
    }
}

/// What a document of the expected shape configures; `None` for a document
/// of another shape. Entries other than `repos`, `options` and the
/// `branch` of `options` play no part.
pub open spec fn config_in(document: toml::Value) -> Option<ConfigView> {
    if repos_fit(document) && options_fit(document) {
        Some(
            ConfigView {
                repos: string_entries(member_of(document, "repos"@).unwrap()),
                options: config_options(document),
            },
        )
    } else {
        None
    }
}

/// What the text of a configuration file configures. Text that is no TOML
/// document, text whose nesting bound is above what the parser is given to
/// read, and a document of another shape count as the empty configuration.
///
/// The text is read strictly, by choice: a key written twice in one table,
/// be it under `repos` or in content that plays no part, makes the text no
/// TOML document, since the parser refuses it when it builds the tree. So a
/// `repos` table that names a remote twice gives the empty configuration,
/// not the later of the two URLs.
pub open spec fn config_of_text(text: Seq<char>) -> ConfigView {
    match document_of(text) {
        Some(document) => match config_in(document) {
            Some(config) => config,
            None => empty_config(),
        },
        None => empty_config(),
    }
}

/// Why a configuration cannot be used.
#[derive(Debug, Clone, Copy, PartialEq, Eq, Structural)]
pub enum ConfigError {
    /// There is no remote at all.
    NoRepos,
    /// There are remotes, but none is named `origin`.
    NoOrigin,
}

/// The rule that a usable configuration meets: it has a remote, and one of
/// its remotes is named `origin`.
pub open spec fn checked(config: ConfigView) -> Result<(), ConfigError> {
    if config.repos.len() == 0 {
        Err(ConfigError::NoRepos)
    } else if !has_name(config.repos, "origin"@) {
        Err(ConfigError::NoOrigin)
    } else {
        Ok(())
    }
}

fn read_string_table(value: &toml::Value) -> (repos: Option<RepoSet>)
    ensures
        match repos {
            Some(r) => is_string_table(*value) && r@ == string_entries(*value),
            None => !is_string_table(*value),
        },
{
    let names = match keys(value) {
        Some(names) => names,
        None => {
            return None;
        },
    };
    let ghost ks = keys_of(*value).unwrap();
    let mut repos = RepoSet::new();
    let mut i: usize = 0;
    while i < names.len()
        invariant
            i <= names@.len(),
            keys_of(*value) == Some(ks),
            ks == names.deep_view(),
            forall|a: int, b: int|
                0 <= a < b < names@.len() ==> (#[trigger] names@[a])@ != (#[trigger] names@[b])@,
            repos@.len() == i,
            forall|a: int| 0 <= a < i ==> string_under(*value, #[trigger] ks[a]).is_some(),
            forall|a: int|
                0 <= a < i ==> (#[trigger] repos@[a]) == (ks[a], string_under(*value, ks[a]).unwrap()),
        decreases names@.len() - i,
    {
        let name = &names[i];
        assert(ks[i as int] == name@);
        let url = match member(value, name.as_str()) {
            Some(entry) => match as_text(entry) {
                Some(text) => text.to_owned(),
                None => {
                    return None;
                },
            },
            None => {
                return None;
            },
        };
        proof {
            assert forall|a: int| 0 <= a < repos@.len() implies (#[trigger] repos@[a]).0 != name@ by {
                assert(names@[a]@ != names@[i as int]@);
                assert(ks[a] == names@[a]@);
            }
        }
        repos.insert(name.clone(), url);
        i += 1;
    }
    assert(repos@ =~= string_entries(*value));
    Some(repos)
}

fn read_options(document: &toml::Value) -> (options: Option<Option<Options>>)
    ensures
        match options {
            Some(o) => options_fit(*document) && config_options(*document) == match o {
                Some(x) => Some(x@),
                None => None,
            },
            None => !options_fit(*document),
        },
{
    let table = match member(document, "options") {
        Some(table) => table,
        None => {
            return Some(None);
        },
    };
    if keys(table).is_none() {
        return None;
    }
    match member(table, "branch") {
        Some(entry) => match as_text(entry) {
            Some(text) => Some(Some(Options { branch: Some(text.to_owned()) })),
            None => None,
        },
        None => Some(Some(Options { branch: None })),
    }
}

impl Config {
    /// Reads the configuration out of a parsed document.
    pub fn from_document(document: &toml::Value) -> (config: Option<Config>)
        ensures
            match config {
                Some(c) => config_in(*document) == Some(c@),
                None => config_in(*document).is_none(),
            },
    {
        let repos = match member(document, "repos") {
            Some(table) => match read_string_table(table) {
                Some(repos) => repos,
                None => {
                    return None;
                },
            },
            None => {
                return None;
            },
        };
        match read_options(document) {
            Some(options) => Some(Config { repos, options }),
            None => None,
        }
    }

    /// Reads the configuration out of the text of a configuration file.
    /// Text that cannot be read as one gives the empty configuration: text
    /// that is no TOML document, text whose `nesting_bound` is above
    /// `MAX_NESTING`, and a document of another shape.
    ///
    /// The text is read strictly, by choice: a table that holds a key twice
    /// is no TOML document, wherever it stands in the file, so a remote
    /// named twice makes the whole file count as empty and is not read with
    /// the later of its URLs.
    pub fn from_toml(text: &str) -> (config: Config)
        ensures
            config@ == config_of_text(text@),
    {
        match read(text) {
            Some(document) => match Config::from_document(&document) {
                Some(config) => config,
                None => Config::default(),
            },
            None => Config::default(),
        }
    }

    /// The branch that a push names.
    pub fn branch(&self) -> (branch: String)
        ensures
            branch@ == branch_of(self@),
    {
        match &self.options {
            Some(Options { branch: Some(b) }) => b.clone(),
            _ => String::from_str("master"),
        }
    }

    /// Checks that there is a remote and that one remote is named `origin`.
    pub fn validate(&self) -> (verdict: Result<(), ConfigError>)
        ensures
            verdict == checked(self@),
    {
        if self.repos.is_empty() {
            Err(ConfigError::NoRepos)
        } else if !self.repos.contains_key(&String::from_str("origin")) {
            Err(ConfigError::NoOrigin)
        } else {
            Ok(())
        }
    }
}

/// The line that tells the user what the configuration file lacks.
pub open spec fn message_of(error: ConfigError) -> Seq<char> {
    match error {
        ConfigError::NoRepos => "Please add repos to the "@ + CFG_NAME@ + " file"@,
        ConfigError::NoOrigin => "Origin repo required in "@ + CFG_NAME@ + " file"@,
    }
}

impl ConfigError {
    /// The line that tells the user what to put into the configuration file.
    pub fn message(&self) -> (line: String)
        ensures
            line@ == message_of(*self),
    {
        let mut line = match self {
            ConfigError::NoRepos => String::from_str("Please add repos to the "),
            ConfigError::NoOrigin => String::from_str("Origin repo required in "),
        };
        line.append(CFG_NAME);
        line.append(" file");
        line
    }

    /// The status with which the program ends on this error.
    pub fn exit_code(&self) -> (code: i32)
        ensures
            code == 1,
    {
        1
    }
}

} // verus!
