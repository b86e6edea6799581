//! The records a search returns, in the shape the API sends them.

use crate::github_resources::{Closeable, State};
use crate::search::Type;
use crate::text::{decimal, decimal_string, optional_text, same_text};
use vstd::prelude::*;

verus! {

/// The answer to a search.
#[derive(Debug)]
pub struct Root {
    pub data: Data,
}

#[derive(Debug)]
pub struct Data {
    pub search: Search,
}

#[derive(Debug)]
pub struct Search {
    pub edges: Vec<Node>,
}

#[derive(Debug)]
pub struct Node {
    pub node: Issue,
}

/// An issue or a pull request.
#[derive(Debug)]
pub struct Issue {
    pub url: String,
    pub id: u64,
    pub number: u32,
    pub title: String,
    pub body: Option<String>,
    pub created_at: String,
    pub updated_at: String,
    pub state: State,
    pub comments: Comments,
    pub reactions: Reactions,
    pub assignees: AssigneeNode,
    pub review_requets: Option<ReviewRequestNode>,
    pub labels: LabelNode,
    pub repository: Repository,
    pub kind: Type,
}

#[derive(Debug)]
pub struct Team {
    pub name: String,
    pub members: Vec<UserFields>,
}

#[derive(Debug)]
pub struct LabelNode {
    pub nodes: Vec<Label>,
}

#[derive(Debug)]
pub struct Label {
    pub name: String,
}

#[derive(Debug)]
pub struct UserFields {
    pub login: String,
    pub id: String,
}

#[derive(Debug)]
pub struct Repository {
    pub name_with_owner: String,
}

#[derive(Debug)]
pub struct Comments {
    pub total_count: u32,
}

#[derive(Debug)]
pub struct Reactions {
    pub total_count: u32,
}

#[derive(Debug)]
pub struct AssigneeNode {
    pub nodes: Vec<UserFields>,
}

#[derive(Debug)]
pub struct ReviewRequestNode {
    pub nodes: Vec<RequestedReviewer>,
}

#[derive(Debug)]
pub struct RequestedReviewer {
    pub requested_reviewer: Option<Assignable>,
}

/// Who a review was requested from: a user or a team.
#[derive(Debug)]
pub struct Assignable {
    pub assignable_type: String,
    pub login: Option<String>,
    pub id: Option<String>,
    pub name: Option<String>,
    pub members: Option<AssigneeNode>,
}

/// The logins of a list of users.
pub open spec fn logins(users: Seq<UserFields>) -> Seq<Seq<char>> {
    users.map_values(|u: UserFields| u.login@)
}

/// The names of a list of labels.
pub open spec fn label_names(labels: Seq<Label>) -> Seq<Seq<char>> {
    labels.map_values(|l: Label| l.name@)
}

/// What is read of an `Assignable`: its type, its login if it is a user, the
/// logins of its members if it is a team.
pub struct AssignableView {
    pub assignable_type: Seq<char>,
    pub login: Option<Seq<char>>,
    pub members: Option<Seq<Seq<char>>>,
}

impl AssignableView {
    /// Whether `login` is this user, or a member of this team. Neither a team
    /// without a list of members, nor a user without a login, nor anything
    /// that is neither a team nor a user has any login.
    pub open spec fn has_login(self, login: Seq<char>) -> bool {
        if self.assignable_type == "Team"@ {
            match self.members {
                Some(members) => members.contains(login),
                None => false,
            }
        } else if self.assignable_type == "User"@ {
            self.login == Some(login)
        } else {
            false
        }
    }
}

impl View for Assignable {
    type V = AssignableView;

    open spec fn view(&self) -> AssignableView {
        AssignableView {
            assignable_type: self.assignable_type@,
            login: optional_text(self.login),
            members: match self.members {
                Some(m) => Some(logins(m.nodes@)),
                None => None,
            },
        }
    }
}

/// Who the reviews of a pull request are requested from, an empty request as
/// `None`.
pub open spec fn reviewers(nodes: Seq<RequestedReviewer>) -> Seq<Option<AssignableView>> {
    nodes.map_values(
        |r: RequestedReviewer|
            match r.requested_reviewer {
                Some(a) => Some(a@),
                None => None,
            },
    )
}

/// An issue or pull request as plain values.
pub struct IssueView {
    pub url: Seq<char>,
    pub id: u64,
    pub number: u32,
    pub title: Seq<char>,
    pub body: Option<Seq<char>>,
    pub created_at: Seq<char>,
    pub updated_at: Seq<char>,
    pub state: State,
    pub comments: u32,
    pub reactions: u32,
    pub assignees: Seq<Seq<char>>,
    pub review_requests: Option<Seq<Option<AssignableView>>>,
    pub labels: Seq<Seq<char>>,
    pub repository: Seq<char>,
    pub kind: Type,
}

/// Whether a request names `user`, or a team that `user` belongs to.
pub open spec fn reviewer_has_login(reviewer: Option<AssignableView>, user: Seq<char>) -> bool {
    match reviewer {
        Some(a) => a.has_login(user),
        None => false,
    }
}

impl IssueView {
    /// Whether a review was requested from `user`, directly or through a team.
    pub open spec fn has_review_request(self, user: Seq<char>) -> bool {
        match self.review_requests {
            Some(requests) => exists|i: int|
                0 <= i < requests.len() && reviewer_has_login(#[trigger] requests[i], user),
            None => false,
        }
    }

    /// The segment of a link that tells issues from pull requests.
    pub open spec fn link_kind(self) -> Seq<char> {
        match self.kind {
            Type::Issue => "issues"@,
            Type::PullRequest | Type::ReviewRequest => "pull"@,
        }
    }

    /// The address of the record's page.
    pub open spec fn link(self) -> Seq<char> {
        "https://github.com/"@ + self.repository + "/"@ + self.link_kind() + "/"@ + decimal(
            self.number as nat,
        )
    }
}

impl View for Issue {
    type V = IssueView;

    open spec fn view(&self) -> IssueView {
        IssueView {
            url: self.url@,
            id: self.id,
            number: self.number,
            title: self.title@,
            body: optional_text(self.body),
            created_at: self.created_at@,
            updated_at: self.updated_at@,
            state: self.state,
            comments: self.comments.total_count,
            reactions: self.reactions.total_count,
            assignees: logins(self.assignees.nodes@),
            review_requests: match self.review_requets {
                Some(r) => Some(reviewers(r.nodes@)),
                None => None,
            },
            labels: label_names(self.labels.nodes@),
            repository: self.repository.name_with_owner@,
            kind: self.kind,
        }
    }
}

/// Two records are the same record when they have the same id.
impl PartialEq for Issue {
    fn eq(&self, other: &Self) -> (same: bool) {
        self.id == other.id
    }
}

impl vstd::std_specs::cmp::PartialEqSpecImpl for Issue {
    open spec fn obeys_eq_spec() -> bool {
        true
    }

    open spec fn eq_spec(&self, other: &Self) -> bool {
        self.id == other.id
    }
}

impl Root {
    /// The records of the answer, in the order they were sent.
    pub fn into_issues(self) -> (issues: Vec<Issue>)
        ensures
            issues@ == self.data.search.edges@.map_values(|n: Node| n.node),
    {
        let mut edges = self.data.search.edges;
        let ghost sent = edges@;
        let mut reversed: Vec<Issue> = Vec::new();
        while edges.len() > 0
            invariant
                edges@.len() <= sent.len(),
                edges@ == sent.take(edges@.len() as int),
                reversed@.len() == sent.len() - edges@.len(),
                forall|i: int|
                    0 <= i < reversed@.len() ==> reversed@[i] == sent[sent.len() - 1 - i].node,
            decreases edges@.len(),
        {
            let last = edges.pop().unwrap();
            reversed.push(last.node);
        }
        let mut issues: Vec<Issue> = Vec::new();
        while reversed.len() > 0
            invariant
                reversed@.len() <= sent.len(),
                issues@.len() == sent.len() - reversed@.len(),
                forall|i: int|
                    0 <= i < reversed@.len() ==> reversed@[i] == sent[sent.len() - 1 - i].node,
                forall|i: int| 0 <= i < issues@.len() ==> issues@[i] == sent[i].node,
            decreases reversed@.len(),
        {
            let next = reversed.pop().unwrap();
            issues.push(next);
        }
        assert(issues@ =~= sent.map_values(|n: Node| n.node));
        issues
    }
}

impl Assignable {
    /// Whether `login` is this user, or a member of this team.
    pub fn has_login(&self, login: &str) -> (found: bool)
        ensures
            found == self@.has_login(login@),
    {
        if same_text(self.assignable_type.as_str(), "Team") {
            match &self.members {
                Some(members) => {
                    let mut i: usize = 0;
                    while i < members.nodes.len()
                        invariant
                            i <= members.nodes.len(),
                            self@.assignable_type == "Team"@,
                            self@.members == Some(logins(members.nodes@)),
                            forall|k: int|
                                0 <= k < i ==> (#[trigger] logins(members.nodes@)[k]) != login@,
                        decreases members.nodes.len() - i,
                    {
                        if same_text(members.nodes[i].login.as_str(), login) {
                            assert(logins(members.nodes@)[i as int] == login@);
                            assert(logins(members.nodes@).contains(login@));
                            return true;
                        }
                        i += 1;
                    }
                    assert(!logins(members.nodes@).contains(login@));
                    false
                },
                None => false,
            }
        } else if same_text(self.assignable_type.as_str(), "User") {
            match &self.login {
                Some(own) => same_text(own.as_str(), login),
                None => false,
            }
        } else {
            false
        }
    }
}

impl Issue {
    /// Whether a review was requested from `user`, directly or through a team.
    pub fn has_review_request(&self, user: &str) -> (found: bool)
        ensures
            found == self@.has_review_request(user@),
    {
        match &self.review_requets {
            Some(requests) => {
                let mut i: usize = 0;
                while i < requests.nodes.len()
                    invariant
                        i <= requests.nodes.len(),
                        self@.review_requests == Some(reviewers(requests.nodes@)),
                        forall|k: int|
                            0 <= k < i ==> !reviewer_has_login(
                                #[trigger] reviewers(requests.nodes@)[k],
                                user@,
                            ),
                    decreases requests.nodes.len() - i,
                {
                    match &requests.nodes[i].requested_reviewer {
                        Some(reviewer) => {
                            let ghost sent = reviewers(requests.nodes@);
                            assert(sent[i as int] == Some(reviewer@));
                            if reviewer.has_login(user) {
                                assert(self@.review_requests->0 == sent);
                                assert(reviewer_has_login(
                                    reviewers(requests.nodes@)[i as int],
                                    user@,
                                ));
                                return true;
                            }
                        },
                        None => {
                            assert(reviewers(requests.nodes@)[i as int] is None);
                        },
                    }
                    i += 1;
                }
                false
            },
            None => false,
        }
    }

    /// The address of the record's page.
    pub fn link(&self) -> (address: String)
        ensures
            address@ == self@.link(),
    {
        let kind = match self.kind {
            Type::Issue => "issues",
            Type::PullRequest | Type::ReviewRequest => "pull",
        };
        let mut address = String::from_str("https://github.com/");
        address.append(self.repository.name_with_owner.as_str());
        address.append("/");
        address.append(kind);
        address.append("/");
        address.append(decimal_string(self.number).as_str());
        address
    }
}

impl Closeable for Issue {
    fn is_open(&self) -> (open: bool)
        ensures
            open == (self.state == State::Open),
    {
        match self.state {
            State::Open => true,
            State::Closed => false,
        }
    }
}

} // verus!
