//! What to list: the filter that a run is made with, and the search for each
//! kind of resource.

use crate::cfg::Config;
use crate::error::AppErr;
use crate::issue::Issue;
use crate::project::{Project, ProjectView};
use crate::search::{
    text_result, QueryError, SearchIssues, SearchIssuesView, Type,
};
use crate::sort::Sorting;
use crate::target::{clone_targets, Target, TargetView};
use crate::text::{clone_strings, optional_text, texts};
use vstd::prelude::*;

verus! {

/// Which records to list by their state.
#[derive(Debug, Clone, Copy, PartialEq, Eq, Structural)]
pub enum StateFilter {
    Open,
    Closed,
    All,
}

/// What a run filters and orders by.
#[derive(Debug)]
pub struct FilterConfig {
    assigned_only: bool,
    pull_requests: bool,
    review_requests: bool,
    issues: bool,
    labels: Vec<String>,
    project: Option<Project>,
    sorting: Sorting,
    state: StateFilter,
    limit: u32,
}

/// A filter as plain values.
pub struct FilterConfigView {
    pub assigned_only: bool,
    pub pull_requests: bool,
    pub review_requests: bool,
    pub issues: bool,
    pub labels: Seq<Seq<char>>,
    pub project: Option<ProjectView>,
    pub sorting: Sorting,
    pub state: StateFilter,
    pub limit: u32,
}

/// An optional project as plain values.
pub open spec fn optional_project(project: Option<Project>) -> Option<ProjectView> {
    match project {
        Some(p) => Some(p@),
        None => None,
    }
}

/// Targets as plain values.
pub open spec fn target_views(targets: Seq<Target>) -> Seq<TargetView> {
    targets.map_values(|t: Target| t@)
}

impl View for FilterConfig {
    type V = FilterConfigView;

    closed spec fn view(&self) -> FilterConfigView {
        FilterConfigView {
            assigned_only: self.assigned_only,
            pull_requests: self.pull_requests,
            review_requests: self.review_requests,
            issues: self.issues,
            labels: texts(self.labels@),
            project: optional_project(self.project),
            sorting: self.sorting,
            state: self.state,
            limit: self.limit,
        }
    }
}

impl FilterConfigView {
    /// The kinds of resource to list, in the order issues, pull requests,
    /// review requests.
    pub open spec fn types(self) -> Seq<Type> {
        (if self.issues {
            seq![Type::Issue]
        } else {
            Seq::empty()
        }) + (if self.pull_requests {
            seq![Type::PullRequest]
        } else {
            Seq::empty()
        }) + (if self.review_requests {
            seq![Type::ReviewRequest]
        } else {
            Seq::empty()
        })
    }

    /// The search for one kind of resource. The user is the assignee where
    /// only assigned records are asked for, but never for review requests:
    /// there the user is the one the review is requested from.
    pub open spec fn query_for(
        self,
        kind: Type,
        user: Option<Seq<char>>,
        targets: Seq<TargetView>,
    ) -> SearchIssuesView {
        SearchIssuesView {
            state: self.state,
            assignee: if self.assigned_only && kind != Type::ReviewRequest {
                user
            } else {
                None
            },
            review_requested: if kind == Type::ReviewRequest {
                user
            } else {
                None
            },
            archived: false,
            labels: self.labels,
            project: self.project,
            resource_type: Some(kind),
            targets,
            sort: self.sorting,
            limit: self.limit,
        }
    }
}

/// The filter that a run with these options is made with. Where no kind of
/// resource was picked, all three are listed.
pub open spec fn filter_of(cfg: &Config) -> FilterConfigView {
    FilterConfigView {
        assigned_only: cfg.assigned,
        pull_requests: cfg.pull_requests || cfg.no_kind_picked(),
        review_requests: cfg.review_requests || cfg.no_kind_picked(),
        issues: cfg.issues || cfg.no_kind_picked(),
        labels: texts(cfg.labels@),
        project: optional_project(cfg.project),
        sorting: Sorting(cfg.sort_by, cfg.sort_order),
        state: cfg.state_filter(),
        limit: cfg.limit,
    }
}

impl StateFilter {
    /// The filter's name.
    pub open spec fn name(self) -> Seq<char> {
        match self {
            StateFilter::Open => "open"@,
            StateFilter::Closed => "closed"@,
            StateFilter::All => "all"@,
        }
    }

    /// The filter's name: `open`, `closed` or `all`.
    pub fn to_string(&self) -> (s: String)
        ensures
            s@ == self.name(),
    {
        match self {
            StateFilter::Open => String::from_str("open"),
            StateFilter::Closed => String::from_str("closed"),
            StateFilter::All => String::from_str("all"),
        }
    }
}

impl FilterConfig {
    #[verifier::type_invariant]
    spec fn lists_a_kind(self) -> bool {
        self.issues || self.pull_requests || self.review_requests
    }

    /// A filter of these values. Where none of the three kinds of resource is
    /// picked, all three are listed.
    pub fn new(
        assigned_only: bool,
        issues: bool,
        pull_requests: bool,
        review_requests: bool,
        labels: Vec<String>,
        project: Option<Project>,
        sorting: Sorting,
        state: StateFilter,
        limit: u32,
    ) -> (filter: FilterConfig)
        ensures
            filter@ == (FilterConfigView {
                assigned_only,
                pull_requests: pull_requests || !(issues || pull_requests || review_requests),
                review_requests: review_requests || !(issues || pull_requests || review_requests),
                issues: issues || !(issues || pull_requests || review_requests),
                labels: texts(labels@),
                project: optional_project(project),
                sorting,
                state,
                limit,
            }),
    {
        let all = !issues && !pull_requests && !review_requests;
        FilterConfig {
            assigned_only,
            pull_requests: pull_requests || all,
            review_requests: review_requests || all,
            issues: issues || all,
            labels,
            project,
            sorting,
            state,
            limit,
        }
    }

    /// The filter that a run with these options is made with.
    pub fn from(cfg: &Config) -> (filter: FilterConfig)
        ensures
            filter@ == filter_of(cfg),
    {
        FilterConfig {
            assigned_only: cfg.assigned_only(),
            pull_requests: cfg.pulls(),
            review_requests: cfg.reviews(),
            labels: cfg.label(),
            project: cfg.project(),
            sorting: cfg.sorting(),
            issues: cfg.issues(),
            state: cfg.state(),
            limit: cfg.limit(),
        }
    }

    /// The kinds of resource to list, in the order issues, pull requests,
    /// review requests. There is always at least one.
    pub fn types(&self) -> (types: Vec<Type>)
        ensures
            types@ == self@.types(),
            types@.len() >= 1,
    {
        proof {
            use_type_invariant(self);
        }
        let mut types: Vec<Type> = Vec::with_capacity(3);
        if self.issues {
            types.push(Type::Issue)
        }
        if self.pull_requests {
            types.push(Type::PullRequest)
        }
        if self.review_requests {
            types.push(Type::ReviewRequest)
        }
        proof {
            assert(types@ =~= self@.types());
        }
        types
    }

    /// How many records to list at most.
    pub fn limit(&self) -> (limit: u32)
        ensures
            limit == self@.limit,
    {
        self.limit
    }
}

/// The search for one kind of resource, as `user` makes it in `targets` with
/// the filter `config`.
pub fn create_query(
    kind: Type,
    user: &Option<String>,
    targets: &[Target],
    config: &FilterConfig,
) -> (query: SearchIssues)
    ensures
        query@ == config@.query_for(kind, optional_text(*user), target_views(targets@)),
{
    let assignee: Option<String> = match config.assigned_only {
        false => None,
        true => match kind {
            Type::Issue | Type::PullRequest => clone_name(user),
            Type::ReviewRequest => None,
        },
    };
    let review_requested: Option<String> = match kind {
        Type::ReviewRequest => clone_name(user),
        Type::Issue | Type::PullRequest => None,
    };
    SearchIssues {
        archived: false,
        assignee,
        resource_type: Some(kind),
        review_requested,
        sort: config.sorting,
        state: config.state,
        labels: clone_strings(&config.labels),
        project: match &config.project {
            Some(p) => Some(p.clone()),
            None => None,
        },
        targets: clone_targets(targets),
        limit: config.limit,
    }
}

/// The search string for one kind of resource, as `user` makes it in
/// `targets` with the filter `config`. Fails exactly where review requests
/// are asked for, but of no user.
pub fn compile_query(
    kind: Type,
    user: &Option<String>,
    targets: &[Target],
    config: &FilterConfig,
) -> (compiled: Result<String, QueryError>)
    ensures
        text_result(compiled) == config@.query_for(
            kind,
            optional_text(*user),
            target_views(targets@),
        ).search_query(),
{
    create_query(kind, user, targets, config).search_query()
}

/// The records that the request for `kind` brought, each marked with that
/// kind, whatever kind the API called it.
pub fn tag_records(records: Vec<Issue>, kind: Type) -> (tagged: Vec<Issue>)
    ensures
        tagged@.len() == records@.len(),
        forall|i: int|
            0 <= i < records@.len() ==> (#[trigger] tagged@[i]) == (Issue { kind, ..records@[i] }),
{
    let mut rest = records;
    let ghost all = rest@;
    let mut tagged: Vec<Issue> = Vec::new();
    while rest.len() > 0
        invariant
            tagged@.len() + rest@.len() == all.len(),
            rest@ == all.skip(tagged@.len() as int),
            forall|i: int|
                0 <= i < tagged@.len() ==> (#[trigger] tagged@[i]) == (Issue { kind, ..all[i] }),
        decreases rest@.len(),
    {
        let mut record = rest.remove(0);
        record.kind = kind;
        tagged.push(record);
        proof {
            assert(rest@ =~= all.skip(tagged@.len() as int));
        }
    }
    tagged
}

/// How a collection ended whose requests ended with `outcomes`, given in the
/// order the requests ended in: well if each of them did, else with the first
/// error of the list.
pub fn first_failure(outcomes: Vec<Result<(), AppErr>>) -> (outcome: Result<(), AppErr>)
    ensures
        match outcome {
            Ok(_) => forall|i: int| 0 <= i < outcomes@.len() ==> outcomes@[i] is Ok,
            Err(e) => exists|i: int|
                0 <= i < outcomes@.len() && outcomes@[i] == Err::<(), AppErr>(e) && forall|k: int|
                    0 <= k < i ==> outcomes@[k] is Ok,
        },
{
    let mut outcomes = outcomes;
    let ghost all = outcomes@;
    let mut failure: Option<AppErr> = None;
    // Read from the back: the error that stays is the first.
    while outcomes.len() > 0
        invariant
            outcomes@ == all.take(outcomes@.len() as int),
            outcomes@.len() <= all.len(),
            match failure {
                Some(e) => exists|i: int|
                    outcomes@.len() <= i < all.len() && all[i] == Err::<(), AppErr>(e)
                        && forall|k: int| outcomes@.len() <= k < i ==> all[k] is Ok,
                None => forall|i: int| outcomes@.len() <= i < all.len() ==> all[i] is Ok,
            },
        decreases outcomes@.len(),
    {
        let ghost at = outcomes@.len() - 1;
        let last = outcomes.pop().unwrap();
        assert(last == all[at]);
        match last {
            Ok(_) => {},
            Err(e) => {
                failure = Some(e);
            },
        }
    }
    match failure {
        Some(e) => Err(e),
        None => Ok(()),
    }
}

fn clone_name(name: &Option<String>) -> (copy: Option<String>)
    ensures
        copy == *name,
{
    match name {
        Some(n) => Some(n.clone()),
        None => None,
    }
}

} // verus!
