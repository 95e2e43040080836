//! Finding the lines of a text that contain a query.

use vstd::prelude::*;
use crate::config::Config;
use crate::error::GrepError;
use crate::lines::{lines, lines_of};
use crate::lowercase::{lowercase, to_lowercase};
use crate::pattern::{contains, contains_chars};
use crate::slicing::{texts, to_chars};
use crate::trim::{trim, trimmed};

verus! {

/// `line` is a match for `query`: it holds the query as it stands or, where
/// case is ignored, its lowercase form holds the lowercase form of the query.
pub open spec fn is_match(query: Seq<char>, line: Seq<char>, ignore_case: bool) -> bool {
    if ignore_case {
        contains(lowercase(line), lowercase(query))
    } else {
        contains(line, query)
    }
}

/// The test that `found_lines` puts to each line.
pub open spec fn matching(query: Seq<char>, ignore_case: bool) -> spec_fn(Seq<char>) -> bool {
    |line: Seq<char>| is_match(query, line, ignore_case)
}

/// Trimming, as a function.
pub open spec fn trimming() -> spec_fn(Seq<char>) -> Seq<char> {
    |line: Seq<char>| trimmed(line)
}

/// The lines among `all` that match `query`, each trimmed, in their order.
pub open spec fn matches_among(all: Seq<Seq<char>>, query: Seq<char>, ignore_case: bool) -> Seq<
    Seq<char>,
> {
    all.filter(matching(query, ignore_case)).map_values(trimming())
}

/// The lines of `contents` that match `query`, each trimmed, in their order.
pub open spec fn found_lines(query: Seq<char>, contents: Seq<char>, ignore_case: bool) -> Seq<
    Seq<char>,
> {
    matches_among(lines_of(contents), query, ignore_case)
}

/// One more line adds its trimmed form to the matches, or nothing.
pub proof fn lemma_matches_among_push(
    all: Seq<Seq<char>>,
    line: Seq<char>,
    query: Seq<char>,
    ignore_case: bool,
)
    ensures
        matches_among(all.push(line), query, ignore_case) == if is_match(query, line, ignore_case) {
            matches_among(all, query, ignore_case).push(trimmed(line))
        } else {
            matches_among(all, query, ignore_case)
        },
{
    all.lemma_filter_push(line, matching(query, ignore_case));
}

/// Tells whether `line` is a match for `needle`, which is the query, in its
/// lowercase form where case is ignored.
fn holds(line: &str, needle: &[char], ignore_case: bool) -> (found: bool)
    ensures
        found == contains(if ignore_case { lowercase(line@) } else { line@ }, needle@),
{
    if ignore_case {
        let lower = to_lowercase(line);
        let hay = to_chars(lower.as_str());
        contains_chars(hay.as_slice(), needle)
    } else {
        let hay = to_chars(line);
        contains_chars(hay.as_slice(), needle)
    }
}

/// The lines of `contents` that match `query`, each without its leading and
/// trailing whitespace, in the order in which they stand in `contents`.
pub fn search<'a>(query: &str, contents: &'a str, ignore_case: bool) -> (found: Vec<&'a str>)
    ensures
        texts(found@) == found_lines(query@, contents@, ignore_case),
{
    let needle = if ignore_case {
        let lower = to_lowercase(query);
        to_chars(lower.as_str())
    } else {
        to_chars(query)
    };
    let all = lines(contents);
    let mut found: Vec<&'a str> = Vec::new();
    let mut i: usize = 0;
    while i < all.len()
        invariant
            i <= all.len(),
            needle@ == if ignore_case { lowercase(query@) } else { query@ },
            texts(found@) == matches_among(texts(all@).take(i as int), query@, ignore_case),
        decreases all.len() - i,
    {
        let line = all[i];
        proof {
            let seen = texts(all@).take(i as int);
            assert(texts(all@).take(i + 1) =~= seen.push(line@));
            lemma_matches_among_push(seen, line@, query@, ignore_case);
        }
        if holds(line, needle.as_slice(), ignore_case) {
            found.push(trim(line));
        }
        i += 1;
    }
    proof {
        assert(texts(all@).take(all.len() as int) =~= texts(all@));
    }
    found
}

/// Searches what was read from the file that `config` names, or reports that
/// it could not be read: `read` holds the file's text, or else the cause.
pub fn run<'a>(config: &Config, read: &'a Result<String, String>) -> (outcome: Result<
    Vec<&'a str>,
    GrepError,
>)
    ensures
        match *read {
            Ok(text) => {
                &&& outcome matches Ok(found)
                &&& texts(found@) == found_lines(config.query@, text@, config.ignore_case)
            },
            Err(cause) => {
                &&& outcome matches Err(GrepError::Io(message))
                &&& message@ == cause@
            },
        },
{
    match read {
        Ok(text) => Ok(search(config.query.as_str(), text.as_str(), config.ignore_case)),
        Err(cause) => Err(GrepError::Io(cause.clone())),
    }
}

} // verus!
