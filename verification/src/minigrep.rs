//! Searching the lines of a text for a query.

use vstd::prelude::*;
use vstd::std_specs::iter::IteratorSpec;
use crate::text::{contains, lines, lines_of, occurs_in, texts};

verus! {

/// What to search for, where, and how.
#[derive(Debug, PartialEq, Eq)]
pub struct Config {
    /// The text to look for.
    pub query: String,
    /// The file whose lines are searched.
    pub file_path: String,
    /// Whether upper and lower case are told apart.
    pub case_sensitive: bool,
}

/// The lower-case form of a text, as `str::to_lowercase` gives it.
pub uninterp spec fn lowercase_of(text: Seq<char>) -> Seq<char>;

/// Converts a text to lower case.
///
/// Trusted: `str::to_lowercase` is a function of the characters of its
/// argument alone. Nothing is claimed of what it makes of a given text.
#[verifier::external_body]
fn to_lowercase(text: &str) -> (lower: String)
    ensures
        lower@ == lowercase_of(text@),
{
    text.to_lowercase()
}

/// The lines among `lines` that hold `needle`, in their order.
pub open spec fn holding(lines: Seq<Seq<char>>, needle: Seq<char>) -> Seq<Seq<char>> {
    lines.filter(|line: Seq<char>| occurs_in(line, needle))
}

/// The lines among `lines` whose lower-case form holds `needle`, in
/// their order.
pub open spec fn holding_lowered(lines: Seq<Seq<char>>, needle: Seq<char>) -> Seq<Seq<char>> {
    lines.filter(|line: Seq<char>| occurs_in(lowercase_of(line), needle))
}

impl Config {
    /// What `build` makes of the arguments `given`, the program's own
    /// name first, then the query and the file path: the configuration,
    /// or the complaint about the first argument that is missing.
    pub open spec fn built(given: Seq<String>, case_sensitive: bool, result: Result<
        Config,
        &'static str,
    >) -> bool {
        if given.len() < 2 {
            result matches Err(message) && message@ == "Didn't get query string"@
        } else if given.len() == 2 {
            result matches Err(message) && message@ == "Didn't get file path string"@
        } else {
            result matches Ok(config) && config.query == given[1] && config.file_path == given[2]
                && config.case_sensitive == case_sensitive
        }
    }

    /// Reads a configuration from the arguments of the program: the
    /// program's own name, which is passed over, then the query and the
    /// file path. Further arguments are not looked at.
    pub fn build<I: Iterator<Item = String>>(mut args: I, case_sensitive: bool) -> (result: Result<
        Config,
        &'static str,
    >)
        ensures
            args.obeys_prophetic_iter_laws() ==> Config::built(
                args.remaining(),
                case_sensitive,
                result,
            ),
    {
        args.next();

        let query = match args.next() {
            Some(arg) => arg,
            None => return Err("Didn't get query string"),
        };

        let file_path = match args.next() {
            Some(arg) => arg,
            None => return Err("Didn't get file path string"),
        };

        Ok(Config { query, file_path, case_sensitive })
    }
}

/// The lines of `contents` that hold `query`.
pub fn search<'a>(query: &str, contents: &'a str) -> (results: Vec<&'a str>)
    ensures
        texts(results@) == holding(lines_of(contents@), query@),
{
    let all = lines(contents);
    let mut results: Vec<&'a str> = Vec::new();
    let ghost keep = |line: Seq<char>| occurs_in(line, query@);
    proof {
        reveal(Seq::filter);
    }
    for i in 0..all.len()
        invariant
            keep == |line: Seq<char>| occurs_in(line, query@),
            texts(results@) == texts(all@).take(i as int).filter(keep),
    {
        let line = all[i];
        let found = contains(line, query);
        if found {
            results.push(line);
        }
        proof {
            let seen = texts(all@).take(i as int);
            assert(texts(all@).take(i + 1) == seen.push(line@));
            seen.lemma_filter_push(line@, keep);
        }
    }
    assert(texts(all@).take(all.len() as int) == texts(all@));
    results
}

/// The lines of `contents` that hold `query`, upper and lower case
/// taken as the same.
pub fn search_insensitive<'a>(query: &str, contents: &'a str) -> (results: Vec<&'a str>)
    ensures
        texts(results@) == holding_lowered(lines_of(contents@), lowercase_of(query@)),
{
    let needle = to_lowercase(query);
    let all = lines(contents);
    let mut results: Vec<&'a str> = Vec::new();
    let ghost keep = |line: Seq<char>| occurs_in(lowercase_of(line), needle@);
    proof {
        reveal(Seq::filter);
    }
    for i in 0..all.len()
        invariant
            keep == |line: Seq<char>| occurs_in(lowercase_of(line), needle@),
            texts(results@) == texts(all@).take(i as int).filter(keep),
    {
        let line = all[i];
        let lowered = to_lowercase(line);
        let found = contains(lowered.as_str(), needle.as_str());
        if found {
            results.push(line);
        }
        proof {
            let seen = texts(all@).take(i as int);
            assert(texts(all@).take(i + 1) == seen.push(line@));
            seen.lemma_filter_push(line@, keep);
        }
    }
    assert(texts(all@).take(all.len() as int) == texts(all@));
    results
}

/// The lines of `contents` that the configuration selects: those that
/// hold its query, with or without regard to case as it says.
pub fn run<'a>(config: &Config, contents: &'a str) -> (results: Vec<&'a str>)
    ensures
        texts(results@) == if config.case_sensitive {
            holding(lines_of(contents@), config.query@)
        } else {
            holding_lowered(lines_of(contents@), lowercase_of(config.query@))
        },
{
    if config.case_sensitive {
        search(config.query.as_str(), contents)
    } else {
        search_insensitive(config.query.as_str(), contents)
    }
}

} // verus!
