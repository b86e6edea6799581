use giss::list::{compile_query, create_query, FilterConfig, StateFilter};
use giss::project::Project;
use giss::search::{
    GraphQLQuery, QueryError, SearchIssues, SearchQuery, Type, Variables, SEARCH_ISSUES_OPERATION,
    SEARCH_ISSUES_QUERY,
};
use giss::sort::{Order, Property, Sorting};
use giss::target::Target;

fn filter(assigned_only: bool, state: StateFilter) -> FilterConfig {
    FilterConfig::new(
        assigned_only,
        true,
        true,
        true,
        Vec::new(),
        None,
        Sorting(Property::Updated, Order::Descending),
        state,
        10,
    )
}

fn widgets() -> Vec<Target> {
    vec![Target::Repository(String::from("acme"), String::from("widgets"))]
}

fn alice() -> Option<String> {
    Some(String::from("alice"))
}

fn full_search() -> SearchIssues {
    SearchIssues {
        state: StateFilter::Closed,
        assignee: Some(String::from("bob")),
        review_requested: None,
        archived: false,
        labels: vec![String::from("bug"), String::from("help wanted")],
        project: Some(Project::new(String::from("acme"), Some(String::from("widgets")), 4)),
        resource_type: Some(Type::PullRequest),
        targets: vec![
            Target::Organization(String::from("acme")),
            Target::Repository(String::from("rust-lang"), String::from("rust")),
        ],
        sort: Sorting(Property::Created, Order::Ascending),
        limit: 25,
    }
}

#[test]
fn end_to_end_issue_query() {
    let config = FilterConfig::new(
        true,
        true,
        false,
        false,
        Vec::new(),
        None,
        Sorting(Property::Updated, Order::Descending),
        StateFilter::Open,
        5,
    );
    let compiled = compile_query(Type::Issue, &alice(), &widgets(), &config);
    assert_eq!(
        compiled,
        Ok(String::from(
            "type:issue state:open assignee:alice archived:false repo:acme/widgets sort:updated-desc"
        ))
    );
}

#[test]
fn every_clause_in_its_place() {
    assert_eq!(
        full_search().search_query(),
        Ok(String::from(
            "type:pr state:closed assignee:bob archived:false org:acme repo:rust-lang/rust label:bug label:help wanted project:acme/widgets/4 sort:created-asc"
        ))
    );
}

#[test]
fn absent_clauses_leave_no_gap() {
    let search = SearchIssues {
        state: StateFilter::All,
        assignee: None,
        review_requested: None,
        archived: false,
        labels: Vec::new(),
        project: None,
        resource_type: None,
        targets: Vec::new(),
        sort: Sorting(Property::Updated, Order::Descending),
        limit: 1,
    };
    assert_eq!(search.search_query(), Ok(String::from("archived:false sort:updated-desc")));
}

#[test]
fn state_all_has_no_state_clause() {
    let compiled =
        compile_query(Type::Issue, &alice(), &widgets(), &filter(false, StateFilter::All)).unwrap();
    assert!(!compiled.contains("state:"));
    assert_eq!(compiled, "type:issue archived:false repo:acme/widgets sort:updated-desc");
}

#[test]
fn state_open_has_the_open_clause_only() {
    let compiled =
        compile_query(Type::Issue, &alice(), &widgets(), &filter(false, StateFilter::Open)).unwrap();
    assert_eq!(compiled.matches("state:").count(), 1);
    assert!(compiled.contains("state:open"));
    assert!(!compiled.contains("state:closed"));
}

#[test]
fn state_closed_has_the_closed_clause_only() {
    let compiled =
        compile_query(Type::PullRequest, &None, &widgets(), &filter(false, StateFilter::Closed))
            .unwrap();
    assert_eq!(compiled, "type:pr state:closed archived:false repo:acme/widgets sort:updated-desc");
}

#[test]
fn review_requests_need_a_user() {
    let compiled =
        compile_query(Type::ReviewRequest, &None, &widgets(), &filter(true, StateFilter::Open));
    assert_eq!(compiled, Err(QueryError::MissingUser));
    let query = create_query(Type::ReviewRequest, &None, &widgets(), &filter(true, StateFilter::Open));
    assert_eq!(query.search_type(), Err(QueryError::MissingUser));
    assert!(matches!(query.build(), Err(QueryError::MissingUser)));
}

#[test]
fn review_requests_name_the_user_and_no_assignee() {
    let compiled =
        compile_query(Type::ReviewRequest, &alice(), &widgets(), &filter(true, StateFilter::Open))
            .unwrap();
    assert_eq!(
        compiled,
        "type:pr review-requested:alice state:open archived:false repo:acme/widgets sort:updated-desc"
    );
    assert!(!compiled.contains("assignee:"));
}

#[test]
fn review_requests_do_not_depend_on_the_kinds_listed() {
    let config = FilterConfig::new(
        false,
        true,
        false,
        false,
        Vec::new(),
        None,
        Sorting(Property::Updated, Order::Descending),
        StateFilter::All,
        5,
    );
    let compiled = compile_query(Type::ReviewRequest, &alice(), &Vec::new(), &config).unwrap();
    assert_eq!(compiled, "type:pr review-requested:alice archived:false sort:updated-desc");
}

#[test]
fn assignee_only_where_asked_for_and_known() {
    let open = StateFilter::Open;
    let with = compile_query(Type::PullRequest, &alice(), &Vec::new(), &filter(true, open)).unwrap();
    assert_eq!(with, "type:pr state:open assignee:alice archived:false sort:updated-desc");
    let without =
        compile_query(Type::PullRequest, &alice(), &Vec::new(), &filter(false, open)).unwrap();
    assert_eq!(without, "type:pr state:open archived:false sort:updated-desc");
    let unknown = compile_query(Type::PullRequest, &None, &Vec::new(), &filter(true, open)).unwrap();
    assert_eq!(unknown, "type:pr state:open archived:false sort:updated-desc");
}

#[test]
fn single_clauses() {
    let search = full_search();
    assert_eq!(search.search_type(), Ok(Some(String::from("type:pr"))));
    assert_eq!(search.state(), Some(String::from("state:closed")));
    assert_eq!(search.assignee(), Some(String::from("assignee:bob")));
    assert_eq!(search.archived(), "archived:false");
    assert_eq!(search.users(), Some(String::from("org:acme repo:rust-lang/rust")));
    assert_eq!(search.labels(), Some(String::from("label:bug label:help wanted")));
    assert_eq!(search.project(), Some(String::from("project:acme/widgets/4")));
    assert_eq!(search.sort(), "sort:created-asc");
}

#[test]
fn every_property_and_direction_has_its_sort_clause() {
    let mut search = full_search();
    search.sort = Sorting(Property::Comments, Order::Descending);
    assert_eq!(search.sort(), "sort:comments-desc");
    search.sort = Sorting(Property::Reactions, Order::Ascending);
    assert_eq!(search.sort(), "sort:reactions-asc");
    search.sort = Sorting(Property::Created, Order::Descending);
    assert_eq!(search.sort(), "sort:created-desc");
    search.sort = Sorting(Property::Updated, Order::Ascending);
    assert_eq!(search.sort(), "sort:updated-asc");
}

#[test]
fn the_request_carries_the_search_string_and_the_limit() {
    let request: GraphQLQuery = full_search().build().unwrap();
    assert_eq!(request.query, SEARCH_ISSUES_QUERY);
    assert_eq!(request.operation_name, SEARCH_ISSUES_OPERATION);
    assert_eq!(request.operation_name, "SearchIssues");
    match request.variables {
        Variables::Search { search_query, limit } => {
            assert_eq!(Ok(search_query), full_search().search_query());
            assert_eq!(limit, 25);
        }
        Variables::Nothing => panic!("no variables"),
    }
}

#[test]
fn create_query_copies_the_filter() {
    let config = FilterConfig::new(
        true,
        true,
        true,
        true,
        vec![String::from("bug")],
        Some(Project::new(String::from("acme"), None, 2)),
        Sorting(Property::Reactions, Order::Ascending),
        StateFilter::Closed,
        7,
    );
    let query = create_query(Type::Issue, &alice(), &widgets(), &config);
    assert_eq!(query.state, StateFilter::Closed);
    assert_eq!(query.assignee, alice());
    assert_eq!(query.review_requested, None);
    assert!(!query.archived);
    assert_eq!(query.labels, vec![String::from("bug")]);
    assert_eq!(query.project.map(|p| p.to_string()), Some(String::from("acme/2")));
    assert!(matches!(query.resource_type, Some(Type::Issue)));
    assert_eq!(query.targets.len(), 1);
    assert_eq!(query.targets[0].to_string(), "repo:acme/widgets");
    assert_eq!(query.limit, 7);
    assert_eq!(query.sort.to_string(), "reactions-asc");
    assert_eq!(config.limit(), 7);
}

#[test]
fn kinds_have_one_letter_tags() {
    assert_eq!(Type::Issue.to_string(), "I");
    assert_eq!(Type::PullRequest.to_string(), "P");
    assert_eq!(Type::ReviewRequest.to_string(), "R");
}

#[test]
fn the_query_text_names_what_the_records_hold() {
    assert!(SEARCH_ISSUES_QUERY.starts_with("query SearchIssues($searchQuery: String!, $limit: Int!) {\n"));
    for field in ["databaseId", "bodyText", "createdAt", "updatedAt", "issueState", "pullRequestState", "reviewRequests", "nameWithOwner", "__typename"] {
        assert!(SEARCH_ISSUES_QUERY.contains(field), "{}", field);
    }
    assert_eq!(
        SEARCH_ISSUES_QUERY.matches('{').count(),
        SEARCH_ISSUES_QUERY.matches('}').count()
    );
}
