//! The search query: its clauses, their order, and the request that carries it.

use crate::list::StateFilter;
use crate::project::{Project, ProjectView};
use crate::sort::Sorting;
use crate::target::{Target, TargetView};
use crate::text::{join, join_strings, optional_text, texts};
use itertools::Itertools;
use vstd::prelude::*;

verus! {

/// The text of the one query that every search sends.
pub const SEARCH_ISSUES_QUERY: &'static str = "\
    query SearchIssues($searchQuery: String!, $limit: Int!) {\n\
    search(first: $limit, type: ISSUE, query: $searchQuery) {\n\
    edges {\n\
    node {\n\
    __typename\n\
    ... on Issue {\n\
    url\n\
    databaseId\n\
    number\n\
    title\n\
    bodyText\n\
    createdAt\n\
    updatedAt\n\
    issueState: state\n\
    comments { totalCount }\n\
    reactions { totalCount }\n\
    assignees(first: 10) { nodes { login id } }\n\
    labels(first: 10) { nodes { name } }\n\
    repository { nameWithOwner }\n\
    }\n\
    ... on PullRequest {\n\
    url\n\
    databaseId\n\
    number\n\
    title\n\
    bodyText\n\
    createdAt\n\
    updatedAt\n\
    pullRequestState: state\n\
    comments { totalCount }\n\
    reactions { totalCount }\n\
    assignees(first: 10) { nodes { login id } }\n\
    reviewRequests(first: 10) {\n\
    nodes {\n\
    requestedReviewer {\n\
    __typename\n\
    ... on User { login id }\n\
    ... on Team { name id members(first: 100) { nodes { login id } } }\n\
    }\n\
    }\n\
    }\n\
    labels(first: 10) { nodes { name } }\n\
    repository { nameWithOwner }\n\
    }\n\
    }\n\
    }\n\
    }\n\
    }\n\
";

/// The name of the operation in `SEARCH_ISSUES_QUERY`.
pub const SEARCH_ISSUES_OPERATION: &'static str = "SearchIssues";

/// The kind of resource a search asks for, and a record is shown as.
#[derive(Debug, Clone, Copy, PartialEq, Eq, Structural)]
pub enum Type {
    Issue,
    PullRequest,
    ReviewRequest,
}

/// Why a query could not be compiled.
#[derive(Debug, Clone, Copy, PartialEq, Eq, Structural)]
pub enum QueryError {
    /// Review requests were asked for, but of no user.
    MissingUser,
}

/// The variables that go with a query text.
#[derive(Debug)]
pub enum Variables {
    /// The query takes none.
    Nothing,
    /// The compiled search string, and how many records to return.
    Search { search_query: String, limit: u32 },
}

/// A request to the API: a query text, its variables, and which operation of
/// the text to run.
#[derive(Debug)]
pub struct GraphQLQuery {
    pub query: String,
    pub variables: Variables,
    pub operation_name: String,
}

/// A search that can be turned into a request.
pub trait SearchQuery {
    /// The clause that names the kind of resource, if a kind is asked for.
    fn search_type(&self) -> Result<Option<String>, QueryError>;

    /// The request that carries the search.
    fn build(&self) -> Result<GraphQLQuery, QueryError>;
}

/// All that a search filters and orders by.
pub struct SearchIssues {
    pub state: StateFilter,
    pub assignee: Option<String>,
    pub review_requested: Option<String>,
    pub archived: bool,
    pub labels: Vec<String>,
    pub project: Option<Project>,
    pub resource_type: Option<Type>,
    pub targets: Vec<Target>,
    pub sort: Sorting,
    pub limit: u32,
}

/// Variables as plain values.
pub enum VariablesView {
    Nothing,
    Search { search_query: Seq<char>, limit: u32 },
}

/// A request as plain values.
pub struct GraphQLQueryView {
    pub query: Seq<char>,
    pub variables: VariablesView,
    pub operation_name: Seq<char>,
}

/// A search as plain values.
pub struct SearchIssuesView {
    pub state: StateFilter,
    pub assignee: Option<Seq<char>>,
    pub review_requested: Option<Seq<char>>,
    pub archived: bool,
    pub labels: Seq<Seq<char>>,
    pub project: Option<ProjectView>,
    pub resource_type: Option<Type>,
    pub targets: Seq<TargetView>,
    pub sort: Sorting,
    pub limit: u32,
}

impl View for Variables {
    type V = VariablesView;

    open spec fn view(&self) -> VariablesView {
        match self {
            Variables::Nothing => VariablesView::Nothing,
            Variables::Search { search_query, limit } => VariablesView::Search {
                search_query: search_query@,
                limit: *limit,
            },
        }
    }
}

impl View for GraphQLQuery {
    type V = GraphQLQueryView;

    open spec fn view(&self) -> GraphQLQueryView {
        GraphQLQueryView {
            query: self.query@,
            variables: self.variables@,
            operation_name: self.operation_name@,
        }
    }
}

impl View for SearchIssues {
    type V = SearchIssuesView;

    open spec fn view(&self) -> SearchIssuesView {
        SearchIssuesView {
            state: self.state,
            assignee: optional_text(self.assignee),
            review_requested: optional_text(self.review_requested),
            archived: self.archived,
            labels: texts(self.labels@),
            project: match self.project {
                Some(p) => Some(p@),
                None => None,
            },
            resource_type: self.resource_type,
            targets: self.targets@.map_values(|t: Target| t@),
            sort: self.sort,
            limit: self.limit,
        }
    }
}

/// The targets as a query names them.
pub open spec fn target_tokens(targets: Seq<TargetView>) -> Seq<Seq<char>> {
    targets.map_values(|t: TargetView| t.token())
}

/// The labels as a query names them.
pub open spec fn label_tokens(labels: Seq<Seq<char>>) -> Seq<Seq<char>> {
    labels.map_values(|l: Seq<char>| "label:"@ + l)
}

/// The clauses that are there, in their order.
pub open spec fn present(slots: Seq<Option<Seq<char>>>) -> Seq<Seq<char>>
    decreases slots.len(),
{
    if slots.len() == 0 {
        Seq::empty()
    } else {
        match slots.last() {
            Some(clause) => present(slots.drop_last()).push(clause),
            None => present(slots.drop_last()),
        }
    }
}

impl SearchIssuesView {
    /// Review requests are asked for, but of no user.
    pub open spec fn lacks_reviewer(self) -> bool {
        self.resource_type == Some(Type::ReviewRequest) && self.review_requested is None
    }

    /// The clause that names the kind of resource.
    pub open spec fn kind_clause(self) -> Option<Seq<char>> {
        match self.resource_type {
            Some(Type::Issue) => Some("type:issue"@),
            Some(Type::PullRequest) => Some("type:pr"@),
            Some(Type::ReviewRequest) => match self.review_requested {
                Some(reviewer) => Some("type:pr review-requested:"@ + reviewer),
                None => None,
            },
            None => None,
        }
    }

    /// The clause that tells open from closed; none where both are asked for.
    pub open spec fn state_clause(self) -> Option<Seq<char>> {
        match self.state {
            StateFilter::All => None,
            StateFilter::Open => Some("state:open"@),
            StateFilter::Closed => Some("state:closed"@),
        }
    }

    /// The clause that names the assignee, if one is asked for.
    pub open spec fn assignee_clause(self) -> Option<Seq<char>> {
        match self.assignee {
            Some(name) => Some("assignee:"@ + name),
            None => None,
        }
    }

    /// The clause on archived repositories: they are never searched.
    pub open spec fn archived_clause(self) -> Seq<char> {
        "archived:false"@
    }

    /// The clause that names the targets, if there are any.
    pub open spec fn targets_clause(self) -> Option<Seq<char>> {
        if self.targets.len() == 0 {
            None
        } else {
            Some(join(target_tokens(self.targets), " "@))
        }
    }

    /// The clause that names the labels, if there are any.
    pub open spec fn labels_clause(self) -> Option<Seq<char>> {
        if self.labels.len() == 0 {
            None
        } else {
            Some(join(label_tokens(self.labels), " "@))
        }
    }

    /// The clause that names the project, if one is asked for.
    pub open spec fn project_clause(self) -> Option<Seq<char>> {
        match self.project {
            Some(p) => Some("project:"@ + p.path()),
            None => None,
        }
    }

    /// The clause that says how to order the records.
    pub open spec fn sort_clause(self) -> Seq<char> {
        "sort:"@ + self.sort.name()
    }

    /// The eight places of a search string in their fixed order: kind, state,
    /// assignee, archived, targets, labels, project, ordering. A place is
    /// empty where the search has nothing to say there.
    pub open spec fn clauses(self) -> Seq<Option<Seq<char>>> {
        seq![
            self.kind_clause(),
            self.state_clause(),
            self.assignee_clause(),
            Some(self.archived_clause()),
            self.targets_clause(),
            self.labels_clause(),
            self.project_clause(),
            Some(self.sort_clause()),
        ]
    }

    /// The search string: the clauses that are there, in their order, with one
    /// space between each two.
    pub open spec fn compiled(self) -> Seq<char> {
        join(present(self.clauses()), " "@)
    }

    /// The request that carries the search.
    pub open spec fn request(self) -> GraphQLQueryView {
        GraphQLQueryView {
            query: SEARCH_ISSUES_QUERY@,
            variables: VariablesView::Search { search_query: self.compiled(), limit: self.limit },
            operation_name: SEARCH_ISSUES_OPERATION@,
        }
    }

    /// What compiling the kind clause gives: an error where review requests
    /// are asked for, but of no user.
    pub open spec fn search_type(self) -> Result<Option<Seq<char>>, QueryError> {
        if self.lacks_reviewer() {
            Err(QueryError::MissingUser)
        } else {
            Ok(self.kind_clause())
        }
    }

    /// What compiling the search string gives.
    pub open spec fn search_query(self) -> Result<Seq<char>, QueryError> {
        if self.lacks_reviewer() {
            Err(QueryError::MissingUser)
        } else {
            Ok(self.compiled())
        }
    }

    /// What building the request gives.
    pub open spec fn build(self) -> Result<GraphQLQueryView, QueryError> {
        if self.lacks_reviewer() {
            Err(QueryError::MissingUser)
        } else {
            Ok(self.request())
        }
    }
}

/// A compiled clause, or why there is none, as plain values.
pub open spec fn clause_result(r: Result<Option<String>, QueryError>) -> Result<
    Option<Seq<char>>,
    QueryError,
> {
    match r {
        Ok(clause) => Ok(optional_text(clause)),
        Err(e) => Err(e),
    }
}

/// A compiled search string, or why there is none, as plain values.
pub open spec fn text_result(r: Result<String, QueryError>) -> Result<Seq<char>, QueryError> {
    match r {
        Ok(text) => Ok(text@),
        Err(e) => Err(e),
    }
}

/// A request, or why there is none, as plain values.
pub open spec fn request_result(r: Result<GraphQLQuery, QueryError>) -> Result<
    GraphQLQueryView,
    QueryError,
> {
    match r {
        Ok(q) => Ok(q@),
        Err(e) => Err(e),
    }
}

impl Type {
    /// The one-letter tag of the kind.
    pub open spec fn tag(self) -> Seq<char> {
        match self {
            Type::Issue => "I"@,
            Type::PullRequest => "P"@,
            Type::ReviewRequest => "R"@,
        }
    }

    /// The one-letter tag of the kind: `I`, `P` or `R`.
    pub fn to_string(&self) -> (s: String)
        ensures
            s@ == self.tag(),
    {
        match self {
            Type::Issue => String::from_str("I"),
            Type::PullRequest => String::from_str("P"),
            Type::ReviewRequest => String::from_str("R"),
        }
    }
}

/// `Itertools::join` on the strings of a list: the strings with `sep` between
/// each two neighbours, and the empty string for no strings.
#[verifier::external_body]
fn join_with(parts: &Vec<String>, sep: &str) -> (joined: String)
    ensures
        joined@ == join(texts(parts@), sep@),
{
    parts.iter().join(sep)
}

fn name_targets(targets: &Vec<Target>) -> (tokens: Vec<String>)
    ensures
        texts(tokens@) == target_tokens(targets@.map_values(|t: Target| t@)),
{
    let mut tokens: Vec<String> = Vec::new();
    let mut i: usize = 0;
    while i < targets.len()
        invariant
            i <= targets.len(),
            tokens@.len() == i,
            forall|k: int| 0 <= k < i ==> (#[trigger] tokens@[k])@ == targets@[k]@.token(),
        decreases targets.len() - i,
    {
        tokens.push(targets[i].to_string());
        i += 1;
    }
    assert(texts(tokens@) =~= target_tokens(targets@.map_values(|t: Target| t@)));
    tokens
}

fn name_labels(labels: &Vec<String>) -> (tokens: Vec<String>)
    ensures
        texts(tokens@) == label_tokens(texts(labels@)),
{
    let mut tokens: Vec<String> = Vec::new();
    let mut i: usize = 0;
    while i < labels.len()
        invariant
            i <= labels.len(),
            tokens@.len() == i,
            forall|k: int| 0 <= k < i ==> (#[trigger] tokens@[k])@ == "label:"@ + labels@[k]@,
        decreases labels.len() - i,
    {
        let mut token = String::from_str("label:");
        token.append(labels[i].as_str());
        tokens.push(token);
        i += 1;
    }
    assert(texts(tokens@) =~= label_tokens(texts(labels@)));
    tokens
}

/// The character sequences of a list of optional strings.
pub open spec fn optional_clauses(slots: Seq<Option<String>>) -> Seq<Option<Seq<char>>> {
    slots.map_values(|slot: Option<String>| optional_text(slot))
}

fn keep_present(slots: Vec<Option<String>>) -> (kept: Vec<String>)
    ensures
        texts(kept@) == present(optional_clauses(slots@)),
{
    let mut kept: Vec<String> = Vec::new();
    let mut i: usize = 0;
    while i < slots.len()
        invariant
            i <= slots.len(),
            texts(kept@) == present(optional_clauses(slots@).take(i as int)),
        decreases slots.len() - i,
    {
        proof {
            let upto = optional_clauses(slots@).take(i + 1);
            assert(upto.drop_last() =~= optional_clauses(slots@).take(i as int));
            assert(upto.last() == optional_text(slots@[i as int]));
        }
        match &slots[i] {
            Some(clause) => {
                let copy = clause.clone();
                proof {
                    assert(texts(kept@.push(copy)) =~= texts(kept@).push(copy@));
                }
                kept.push(copy);
            },
            None => {},
        }
        i += 1;
    }
    proof {
        assert(optional_clauses(slots@).take(slots.len() as int) =~= optional_clauses(slots@));
    }
    kept
}

impl SearchIssues {
    /// The clause that tells open from closed; none where both are asked for.
    pub fn state(&self) -> (clause: Option<String>)
        ensures
            optional_text(clause) == self@.state_clause(),
    {
        match self.state {
            StateFilter::All => None,
            StateFilter::Open => Some(String::from_str("state:open")),
            StateFilter::Closed => Some(String::from_str("state:closed")),
        }
    }

    /// The clause that names the assignee, if one is asked for.
    pub fn assignee(&self) -> (clause: Option<String>)
        ensures
            optional_text(clause) == self@.assignee_clause(),
    {
        match &self.assignee {
            Some(name) => {
                let mut clause = String::from_str("assignee:");
                clause.append(name.as_str());
                Some(clause)
            },
            None => None,
        }
    }

    /// The clause on archived repositories: they are never searched.
    pub fn archived(&self) -> (clause: String)
        ensures
            clause@ == self@.archived_clause(),
    {
        String::from_str("archived:false")
    }

    /// The clause that names the targets, if there are any.
    pub fn users(&self) -> (clause: Option<String>)
        ensures
            optional_text(clause) == self@.targets_clause(),
    {
        if self.targets.len() == 0 {
            None
        } else {
            let tokens = name_targets(&self.targets);
            Some(join_with(&tokens, " "))
        }
    }

    /// The clause that names the labels, if there are any.
    pub fn labels(&self) -> (clause: Option<String>)
        ensures
            optional_text(clause) == self@.labels_clause(),
    {
        if self.labels.len() == 0 {
            None
        } else {
            let tokens = name_labels(&self.labels);
            Some(join_with(&tokens, " "))
        }
    }

    /// The clause that names the project, if one is asked for.
    pub fn project(&self) -> (clause: Option<String>)
        ensures
            optional_text(clause) == self@.project_clause(),
    {
        match &self.project {
            Some(p) => {
                let mut clause = String::from_str("project:");
                clause.append(p.to_string().as_str());
                Some(clause)
            },
            None => None,
        }
    }

    /// The clause that says how to order the records.
    pub fn sort(&self) -> (clause: String)
        ensures
            clause@ == self@.sort_clause(),
    {
        let mut clause = String::from_str("sort:");
        clause.append(self.sort.to_string().as_str());
        clause
    }

    /// The search string: the clauses that are there, in their fixed order,
    /// with one space between each two. Fails exactly where review requests
    /// are asked for, but of no user.
    pub fn search_query(&self) -> (compiled: Result<String, QueryError>)
        ensures
            text_result(compiled) == self@.search_query(),
    {
        let kind = match self.search_type() {
            Ok(kind) => kind,
            Err(e) => {
                return Err(e);
            },
        };
        let mut slots: Vec<Option<String>> = Vec::new();
        slots.push(kind);
        slots.push(self.state());
        slots.push(self.assignee());
        slots.push(Some(self.archived()));
        slots.push(self.users());
        slots.push(self.labels());
        slots.push(self.project());
        slots.push(Some(self.sort()));
        proof {
            assert(optional_clauses(slots@) =~= self@.clauses());
        }
        let parts = keep_present(slots);
        Ok(join_strings(&parts, " "))
    }
}

impl SearchQuery for SearchIssues {
    /// The clause that names the kind of resource, if a kind is asked for.
    /// Fails exactly where review requests are asked for, but of no user.
    fn search_type(&self) -> (clause: Result<Option<String>, QueryError>)
        ensures
            clause_result(clause) == self@.search_type(),
    {
        match self.resource_type {
            Some(Type::Issue) => Ok(Some(String::from_str("type:issue"))),
            Some(Type::PullRequest) => Ok(Some(String::from_str("type:pr"))),
            Some(Type::ReviewRequest) => match &self.review_requested {
                Some(reviewer) => {
                    let mut clause = String::from_str("type:pr review-requested:");
                    clause.append(reviewer.as_str());
                    Ok(Some(clause))
                },
                None => Err(QueryError::MissingUser),
            },
            None => Ok(None),
        }
    }

    /// The request that carries the search: the one query text, with the
    /// search string and the limit as its variables. Fails exactly where
    /// review requests are asked for, but of no user.
    fn build(&self) -> (request: Result<GraphQLQuery, QueryError>)
        ensures
            request_result(request) == self@.build(),
    {
        match self.search_query() {
            Ok(search_query) => Ok(
                GraphQLQuery {
                    query: String::from_str(SEARCH_ISSUES_QUERY),
                    variables: Variables::Search { search_query, limit: self.limit },
                    operation_name: String::from_str(SEARCH_ISSUES_OPERATION),
                },
            ),
            Err(e) => Err(e),
        }
    }
}

} // verus!
