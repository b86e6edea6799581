//! Where to search: an organization or user, or one repository.

use crate::text::texts;
use vstd::prelude::*;

verus! {

/// A scope to search in.
#[derive(Debug)]
pub enum Target {
    /// An organization or a user, by name.
    Organization(String),
    /// A repository, by owner and name.
    Repository(String, String),
}

/// A target as plain values.
pub enum TargetView {
    Organization(Seq<char>),
    Repository(Seq<char>, Seq<char>),
}

/// The pattern of one name in a target: a run of word characters, hyphens and
/// dots.
pub const TARGET_PATTERN: &'static str = "[\\w\\-\\.]+";

/// What `Regex::find_iter` finds of `pattern` in `text`: the successive
/// matches that do not overlap, from left to right. `None` where
/// `Regex::new` does not accept `pattern`.
pub uninterp spec fn regex_matches(pattern: Seq<char>, text: Seq<char>) -> Option<Seq<Seq<char>>>;

/// The character sequences of an optional list of strings.
pub open spec fn optional_texts(found: Option<Vec<String>>) -> Option<Seq<Seq<char>>> {
    match found {
        Some(items) => Some(texts(items@)),
        None => None,
    }
}

/// `Regex::new`, then `Regex::find_iter` with `Match::as_str` on each match:
/// the result is determined by the pattern and the text.
#[verifier::external_body]
fn find_all(pattern: &str, text: &str) -> (found: Option<Vec<String>>)
    ensures
        optional_texts(found) == regex_matches(pattern@, text@),
{
    match regex::Regex::new(pattern) {
        Ok(re) => Some(re.find_iter(text).map(|m| m.as_str().to_string()).collect()),
        Err(_) => None,
    }
}

/// What is said of a text that names no target.
pub open spec fn unresolved(text: Seq<char>) -> Seq<char> {
    "Could not resolve a valid target from '"@ + text + "'"@
}

/// The target that the names found in a text stand for: one name is an
/// organization, two are the owner and the name of a repository.
pub open spec fn target_of(names: Seq<Seq<char>>, text: Seq<char>) -> Result<TargetView, Seq<char>> {
    if names.len() == 1 {
        Ok(TargetView::Organization(names[0]))
    } else if names.len() == 2 {
        Ok(TargetView::Repository(names[0], names[1]))
    } else {
        Err(unresolved(text))
    }
}

/// The target that a text stands for, given what the pattern found in it.
pub open spec fn parsed_target(found: Option<Seq<Seq<char>>>, text: Seq<char>) -> Result<
    TargetView,
    Seq<char>,
> {
    match found {
        Some(names) => target_of(names, text),
        None => Err(unresolved(text)),
    }
}

/// A parse result as plain values.
pub open spec fn target_result(r: Result<Target, String>) -> Result<TargetView, Seq<char>> {
    match r {
        Ok(t) => Ok(t@),
        Err(e) => Err(e@),
    }
}

impl TargetView {
    /// The target as a query names it.
    pub open spec fn token(self) -> Seq<char> {
        match self {
            TargetView::Organization(name) => "org:"@ + name,
            TargetView::Repository(owner, name) => "repo:"@ + owner + "/"@ + name,
        }
    }
}

impl View for Target {
    type V = TargetView;

    open spec fn view(&self) -> TargetView {
        match self {
            Target::Organization(name) => TargetView::Organization(name@),
            Target::Repository(owner, name) => TargetView::Repository(owner@, name@),
        }
    }
}

fn unresolved_message(text: &str) -> (message: String)
    ensures
        message@ == unresolved(text@),
{
    let mut message = String::from_str("Could not resolve a valid target from '");
    message.append(text);
    message.append("'");
    message
}

impl Target {
    /// The target that `names` stand for, where `names` are the names found in
    /// `text`.
    pub fn from_names(names: &Vec<String>, text: &str) -> (target: Result<Target, String>)
        ensures
            target_result(target) == target_of(texts(names@), text@),
    {
        if names.len() == 1 {
            Ok(Target::Organization(names[0].clone()))
        } else if names.len() == 2 {
            Ok(Target::Repository(names[0].clone(), names[1].clone()))
        } else {
            Err(unresolved_message(text))
        }
    }

    /// Reads a target: `org`, or `owner/repo`. Whatever stands between the
    /// names is passed over.
    pub fn from_str(s: &str) -> (target: Result<Target, String>)
        ensures
            target_result(target) == parsed_target(regex_matches(TARGET_PATTERN@, s@), s@),
    {
        match find_all(TARGET_PATTERN, s) {
            Some(names) => Target::from_names(&names, s),
            None => Err(unresolved_message(s)),
        }
    }

    /// The target as a query names it: `org:<name>` or `repo:<owner>/<name>`.
    pub fn to_string(&self) -> (token: String)
        ensures
            token@ == self@.token(),
    {
        match self {
            Target::Organization(name) => {
                let mut token = String::from_str("org:");
                token.append(name.as_str());
                token
            },
            Target::Repository(owner, name) => {
                let mut token = String::from_str("repo:");
                token.append(owner.as_str());
                token.append("/");
                token.append(name.as_str());
                token
            },
        }
    }
}

impl Clone for Target {
    fn clone(&self) -> (copy: Target)
        ensures
            copy == *self,
    {
        match self {
            Target::Organization(name) => Target::Organization(name.clone()),
            Target::Repository(owner, name) => Target::Repository(owner.clone(), name.clone()),
        }
    }
}

impl std::str::FromStr for Target {
    type Err = String;

    fn from_str(s: &str) -> (target: Result<Target, String>)
        ensures
            target_result(target) == parsed_target(regex_matches(TARGET_PATTERN@, s@), s@),
    {
        Target::from_str(s)
    }
}

/// A copy of `targets`, target by target.
pub fn clone_targets(targets: &[Target]) -> (copy: Vec<Target>)
    ensures
        copy@ == targets@,
{
    let mut copy: Vec<Target> = Vec::new();
    let mut i: usize = 0;
    while i < targets.len()
        invariant
            i <= targets.len(),
            copy@ == targets@.take(i as int),
        decreases targets.len() - i,
    {
        copy.push(targets[i].clone());
        proof {
            assert(copy@ =~= targets@.take(i + 1));
        }
        i += 1;
    }
    proof {
        assert(targets@.take(targets.len() as int) =~= targets@);
    }
    copy
}

} // verus!
