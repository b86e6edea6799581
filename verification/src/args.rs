//! The repository around the working directory, as the configuration of the
//! repository names it.

use crate::text::{
    contains_text, has_text, lines_of, optional_text, split, split_on, text_lines, texts,
    trim_end, without_suffixes,
};
use vstd::prelude::*;

verus! {

/// What tells the line of the configuration that names the remote.
pub const REMOTE_HOST: &'static str = "github.com";

/// What a remote's address ends with, and a repository's name does not.
pub const REMOTE_SUFFIX: &'static str = ".git";

/// The first of `lines` that holds `pattern`.
pub open spec fn first_with(lines: Seq<Seq<char>>, pattern: Seq<char>) -> Option<Seq<char>>
    decreases lines.len(),
{
    if lines.len() == 0 {
        None
    } else if contains_text(lines.first(), pattern) {
        Some(lines.first())
    } else {
        first_with(lines.drop_first(), pattern)
    }
}

/// What stands in `line` behind its last colon; a colon at the very end of the
/// line does not count.
pub open spec fn behind_last_colon(line: Seq<char>) -> Seq<char> {
    let pieces = split(line, ':');
    if pieces.len() > 1 && pieces.last().len() == 0 {
        pieces[pieces.len() - 2]
    } else {
        pieces.last()
    }
}

/// The repository that the lines of a configuration name: in the first line
/// that holds the host, what stands behind the last colon, without `.git` at
/// its end.
pub open spec fn repo_in(lines: Seq<Seq<char>>) -> Option<Seq<char>> {
    match first_with(lines, REMOTE_HOST@) {
        Some(line) => Some(without_suffixes(behind_last_colon(line), REMOTE_SUFFIX@)),
        None => None,
    }
}

fn last_piece(line: &str) -> (piece: String)
    ensures
        piece@ == behind_last_colon(line@),
{
    let pieces = split_on(line, ':');
    let n = pieces.len();
    proof {
        assert(texts(pieces@)[n - 1] == pieces@[n - 1]@);
        if n > 1 {
            assert(texts(pieces@)[n - 2] == pieces@[n - 2]@);
        }
    }
    if n > 1 && pieces[n - 1].as_str().is_empty() {
        pieces[n - 2].clone()
    } else {
        pieces[n - 1].clone()
    }
}

/// The repository that the lines of a configuration name, if one of them
/// names the host.
pub fn repo_from_lines(lines: &Vec<String>) -> (repo: Option<String>)
    ensures
        optional_text(repo) == repo_in(texts(lines@)),
{
    let mut i: usize = 0;
    proof {
        assert(texts(lines@).skip(0) =~= texts(lines@));
    }
    while i < lines.len()
        invariant
            i <= lines.len(),
            first_with(texts(lines@), REMOTE_HOST@) == first_with(
                texts(lines@).skip(i as int),
                REMOTE_HOST@,
            ),
        decreases lines.len() - i,
    {
        proof {
            let rest = texts(lines@).skip(i as int);
            assert(rest.first() == lines@[i as int]@);
            assert(rest.drop_first() =~= texts(lines@).skip(i + 1));
        }
        if has_text(lines[i].as_str(), REMOTE_HOST) {
            let piece = last_piece(lines[i].as_str());
            return Some(trim_end(piece.as_str(), REMOTE_SUFFIX));
        }
        i += 1;
    }
    None
}

/// The repository that a configuration names, given the text of the
/// configuration: none where no line names the host.
pub fn read_repo_from_file(content: &str) -> (repo: Option<String>)
    ensures
        optional_text(repo) == repo_in(lines_of(content@)),
{
    let lines = text_lines(content);
    repo_from_lines(&lines)
}

} // verus!
