//! The options that a configuration file supplies, and how they join the
//! arguments of the command line.

use crate::dates::{current_date, Date};
use vstd::prelude::*;

verus! {

/// The resolved settings of one run: where to fetch, as whom, and the time
/// span of the report.
#[derive(Clone, Debug, PartialEq, Eq)]
pub struct CliArgs {
    /// The GitLab host without `https://`. For example `gitlab.example.com`.
    pub gitlab_host: String,
    /// The GitLab username.
    pub gitlab_username: String,
    /// Token with read access to the GitLab API.
    pub gitlab_token: String,
    /// Newest date (inclusive); today where none is given.
    pub gitlab_before: Option<Date>,
    /// Oldest date (inclusive).
    pub gitlab_after: Date,
    /// Whether the times per epic and per issue are to be reported as well.
    pub extended_summary: bool,
}

impl CliArgs {
    pub fn host(&self) -> (r: &str)
        ensures
            r@ == self.gitlab_host@,
    {
        self.gitlab_host.as_str()
    }

    pub fn username(&self) -> (r: &str)
        ensures
            r@ == self.gitlab_username@,
    {
        self.gitlab_username.as_str()
    }

    pub fn token(&self) -> (r: &str)
        ensures
            r@ == self.gitlab_token@,
    {
        self.gitlab_token.as_str()
    }

    /// The newest date of the time span: the one given, else today in the
    /// local time zone.
    pub fn before(&self) -> (r: Date)
        ensures
            self.gitlab_before matches Some(given) ==> r == given,
    {
        match self.gitlab_before {
            Some(given) => given,
            None => current_date(),
        }
    }

    pub fn after(&self) -> (r: Date)
        ensures
            r == self.gitlab_after,
    {
        self.gitlab_after
    }

    pub fn print_extended_summary(&self) -> (r: bool)
        ensures
            r == self.extended_summary,
    {
        self.extended_summary
    }
}

/// The content of the configuration file.
#[derive(Clone, Debug, PartialEq, Eq)]
pub struct CfgFile {
    pub gitlab_host: Option<String>,
    pub gitlab_username: Option<String>,
    pub gitlab_token: Option<String>,
}

/// The option `name` with its value, where the file sets it.
pub open spec fn option_pair(name: Seq<char>, value: Option<String>) -> Seq<(Seq<char>, Seq<char>)> {
    match value {
        Some(v) => seq![(name, v@)],
        None => Seq::empty(),
    }
}

/// Pairs of strings as pairs of texts.
pub open spec fn pair_texts(pairs: Seq<(String, String)>) -> Seq<(Seq<char>, Seq<char>)> {
    Seq::new(pairs.len(), |i: int| (pairs[i].0@, pairs[i].1@))
}

/// Strings as texts.
pub open spec fn texts(strings: Seq<String>) -> Seq<Seq<char>> {
    Seq::new(strings.len(), |i: int| strings[i]@)
}

/// The arguments after the options of the configuration file have joined
/// them, one after the other: an option whose name already stands among
/// the arguments is left out, any other is added as name and value.
pub open spec fn merged(args: Seq<Seq<char>>, config: Seq<(Seq<char>, Seq<char>)>) -> Seq<
    Seq<char>,
>
    decreases config.len(),
{
    if config.len() == 0 {
        args
    } else {
        let init = merged(args, config.drop_last());
        if init.contains(config.last().0) {
            init
        } else {
            init.push(config.last().0).push(config.last().1)
        }
    }
}

impl CfgFile {
    /// The options that the file sets, as the command line would name
    /// them: host, user name and token, in this order.
    pub open spec fn spec_cli_args(self) -> Seq<(Seq<char>, Seq<char>)> {
        option_pair("--host"@, self.gitlab_host) + option_pair("--username"@, self.gitlab_username)
            + option_pair("--token"@, self.gitlab_token)
    }

    pub fn to_cli_args(self) -> (args: Vec<(String, String)>)
        ensures
            pair_texts(args@) == self.spec_cli_args(),
    {
        let mut args: Vec<(String, String)> = Vec::new();
        if let Some(host) = self.gitlab_host {
            args.push(("--host".to_owned(), host));
        }
        if let Some(username) = self.gitlab_username {
            args.push(("--username".to_owned(), username));
        }
        if let Some(token) = self.gitlab_token {
            args.push(("--token".to_owned(), token));
        }
        proof {
            assert(pair_texts(args@) =~= self.spec_cli_args());
        }
        args
    }
}

/// Whether `name` stands among `args`.
pub fn has_argument(args: &Vec<String>, name: &String) -> (r: bool)
    ensures
        r == texts(args@).contains(name@),
{
    let mut i: usize = 0;
    while i < args.len()
        invariant
            i <= args.len(),
            forall|j: int| 0 <= j < i ==> args@[j]@ != name@,
        decreases args.len() - i,
    {
        if args[i] == *name {
            proof {
                assert(texts(args@)[i as int] == name@);
            }
            return true;
        }
        i = i + 1;
    }
    proof {
        if texts(args@).contains(name@) {
            let j = choose|j: int| 0 <= j < texts(args@).len() && texts(args@)[j] == name@;
            assert(args@[j]@ == name@);
        }
    }
    false
}

/// Adds the options of the configuration file to the arguments of the
/// command line, so that an option given on the command line wins.
pub fn merge_args(all_args: Vec<String>, config_args: &Vec<(String, String)>) -> (r: Vec<String>)
    ensures
        texts(r@) == merged(texts(all_args@), pair_texts(config_args@)),
{
    let mut all_args = all_args;
    let ghost given = texts(all_args@);
    let mut i: usize = 0;
    while i < config_args.len()
        invariant
            i <= config_args.len(),
            texts(all_args@) == merged(given, pair_texts(config_args@).take(i as int)),
        decreases config_args.len() - i,
    {
        proof {
            let config = pair_texts(config_args@);
            assert(config.take(i + 1).drop_last() =~= config.take(i as int));
            assert(config.take(i + 1).last() == (config_args@[i as int].0@, config_args@[i as int].1@));
        }
        let ghost before = all_args@;
        if !has_argument(&all_args, &config_args[i].0) {
            all_args.push(config_args[i].0.clone());
            all_args.push(config_args[i].1.clone());
            proof {
                assert(texts(all_args@) =~= texts(before).push(config_args@[i as int].0@).push(
                    config_args@[i as int].1@,
                ));
            }
        }
        i = i + 1;
    }
    proof {
        assert(pair_texts(config_args@).take(i as int) =~= pair_texts(config_args@));
    }
    all_args
}

} // verus!
