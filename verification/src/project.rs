//! A project board, named as `owner/id` or `owner/repo/id`.

use crate::text::{decimal, decimal_string, parse_u32, parsed_u32, split, split_on};
use vstd::prelude::*;

verus! {

/// A project of an organization or user, or of one of their repositories.
#[derive(Debug)]
pub struct Project {
    owner: String,
    repo: Option<String>,
    id: u32,
}

/// A project as plain values.
pub struct ProjectView {
    pub owner: Seq<char>,
    pub repo: Option<Seq<char>>,
    pub id: u32,
}

/// What is said of a project whose last part is no number.
pub open spec fn not_a_number() -> Seq<char> {
    "id must be a number"@
}

/// What is said of a text that has neither two nor three parts.
pub open spec fn wrong_format(text: Seq<char>) -> Seq<char> {
    "Invalid argument for project '"@ + text
        + "', must have format org/repo/number or org/number"@
}

/// The project that a text names: its parts between slashes are an owner and
/// an id, or an owner, a repository and an id.
pub open spec fn parsed_project(text: Seq<char>) -> Result<ProjectView, Seq<char>> {
    let parts = split(text, '/');
    if parts.len() == 2 {
        match parsed_u32(parts[1]) {
            Some(id) => Ok(ProjectView { owner: parts[0], repo: None, id }),
            None => Err(not_a_number()),
        }
    } else if parts.len() == 3 {
        match parsed_u32(parts[2]) {
            Some(id) => Ok(ProjectView { owner: parts[0], repo: Some(parts[1]), id }),
            None => Err(not_a_number()),
        }
    } else {
        Err(wrong_format(text))
    }
}

/// A parse result as plain values.
pub open spec fn project_result(r: Result<Project, String>) -> Result<ProjectView, Seq<char>> {
    match r {
        Ok(p) => Ok(p@),
        Err(e) => Err(e@),
    }
}

impl ProjectView {
    /// The project as a query names it.
    pub open spec fn path(self) -> Seq<char> {
        match self.repo {
            Some(repo) => self.owner + "/"@ + repo + "/"@ + decimal(self.id as nat),
            None => self.owner + "/"@ + decimal(self.id as nat),
        }
    }
}

impl View for Project {
    type V = ProjectView;

    closed spec fn view(&self) -> ProjectView {
        ProjectView {
            owner: self.owner@,
            repo: match self.repo {
                Some(repo) => Some(repo@),
                None => None,
            },
            id: self.id,
        }
    }
}

impl Project {
    /// A project of `owner`, or of `owner`'s repository `repo`.
    pub fn new(owner: String, repo: Option<String>, id: u32) -> (project: Project)
        ensures
            project@ == (ProjectView {
                owner: owner@,
                repo: match repo {
                    Some(repo) => Some(repo@),
                    None => None,
                },
                id,
            }),
    {
        Project { owner, repo, id }
    }

    /// Reads a project: `owner/id` or `owner/repo/id`.
    pub fn from_str(s: &str) -> (project: Result<Project, String>)
        ensures
            project_result(project) == parsed_project(s@),
    {
        let parts = split_on(s, '/');
        if parts.len() == 2 {
            match parse_u32(parts[1].as_str()) {
                Some(id) => Ok(Project { owner: parts[0].clone(), repo: None, id }),
                None => Err(String::from_str("id must be a number")),
            }
        } else if parts.len() == 3 {
            match parse_u32(parts[2].as_str()) {
                Some(id) => Ok(
                    Project { owner: parts[0].clone(), repo: Some(parts[1].clone()), id },
                ),
                None => Err(String::from_str("id must be a number")),
            }
        } else {
            let mut message = String::from_str("Invalid argument for project '");
            message.append(s);
            message.append("', must have format org/repo/number or org/number");
            Err(message)
        }
    }

    /// The project as a query names it: `owner/id` or `owner/repo/id`.
    pub fn to_string(&self) -> (path: String)
        ensures
            path@ == self@.path(),
    {
        let mut path = self.owner.clone();
        path.append("/");
        match &self.repo {
            Some(repo) => {
                path.append(repo.as_str());
                path.append("/");
            },
            None => {},
        }
        path.append(decimal_string(self.id).as_str());
        path
    }
}

impl Clone for Project {
    fn clone(&self) -> (copy: Project)
        ensures
            copy@ == self@,
    {
        Project {
            owner: self.owner.clone(),
            repo: match &self.repo {
                Some(repo) => Some(repo.clone()),
                None => None,
            },
            id: self.id,
        }
    }
}

impl std::str::FromStr for Project {
    type Err = String;

    fn from_str(s: &str) -> (project: Result<Project, String>)
        ensures
            project_result(project) == parsed_project(s@),
    {
        Project::from_str(s)
    }
}

/// The name of a project reads back as the project, where none of its names
/// holds a slash.
pub proof fn law_project_reads_back(project: ProjectView)
    requires
        !project.owner.contains('/'),
        match project.repo {
            Some(repo) => !repo.contains('/'),
            None => true,
        },
    ensures
        parsed_project(project.path()) == Ok::<ProjectView, Seq<char>>(project),
{
    let number = decimal(project.id as nat);
    reveal_strlit("/");
    assert("/"@ =~= seq!['/']);
    crate::text::lemma_decimal_reads_back(project.id);
    crate::text::lemma_decimal_digits(project.id as nat);
    assert(!number.contains('/')) by {
        if number.contains('/') {
            let k = choose|k: int| 0 <= k < number.len() && number[k] == '/';
            assert(crate::text::digit_value(number[k]) is Some);
        }
    }
    crate::text::lemma_split_extended(Seq::<char>::empty(), project.owner, '/');
    assert(Seq::<char>::empty() + project.owner =~= project.owner);
    assert(split(project.owner, '/') =~= seq![project.owner]);
    match project.repo {
        Some(repo) => {
            crate::text::lemma_split_piece(project.owner, repo, '/');
            crate::text::lemma_split_piece(project.owner + "/"@ + repo, number, '/');
            assert(split(project.path(), '/') =~= seq![project.owner, repo, number]);
        },
        None => {
            crate::text::lemma_split_piece(project.owner, number, '/');
            assert(split(project.path(), '/') =~= seq![project.owner, number]);
        },
    }
}

} // verus!
