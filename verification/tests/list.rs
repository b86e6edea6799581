use giss::cfg::{Config, Flag, Verbosity};
use giss::github_resources::State;
use giss::issue::{AssigneeNode, Comments, Issue, LabelNode, Reactions, Repository};
use giss::list::{first_failure, tag_records, FilterConfig, StateFilter};
use giss::search::Type;
use giss::sort::{Order, Property, Sorting};
use giss::AppErr;

fn filter(issues: bool, pulls: bool, reviews: bool) -> FilterConfig {
    FilterConfig::new(
        false,
        issues,
        pulls,
        reviews,
        Vec::new(),
        None,
        Sorting(Property::Updated, Order::Descending),
        StateFilter::Open,
        10,
    )
}

fn options() -> Config {
    Config {
        target: Vec::new(),
        token: None,
        assigned: false,
        limit: 10,
        open: false,
        closed: false,
        issues: false,
        pull_requests: false,
        review_requests: false,
        user: None,
        labels: Vec::new(),
        project: None,
        sort_by: Property::Updated,
        sort_order: Order::Descending,
        links: false,
        colors: Flag::Auto,
        verbosity: Verbosity::new(1).unwrap(),
        debug: false,
    }
}

#[test]
fn types_lists_the_kinds_in_their_order() {
    assert_eq!(
        filter(true, true, true).types(),
        vec![Type::Issue, Type::PullRequest, Type::ReviewRequest]
    );
    assert_eq!(filter(false, true, false).types(), vec![Type::PullRequest]);
    assert_eq!(filter(true, false, true).types(), vec![Type::Issue, Type::ReviewRequest]);
    assert_eq!(
        filter(false, false, false).types(),
        vec![Type::Issue, Type::PullRequest, Type::ReviewRequest]
    );
}

#[test]
fn no_kind_picked_lists_all_kinds() {
    let filter = FilterConfig::from(&options());
    assert_eq!(filter.types(), vec![Type::Issue, Type::PullRequest, Type::ReviewRequest]);
}

#[test]
fn a_picked_kind_is_the_only_one_listed() {
    let mut cfg = options();
    cfg.review_requests = true;
    assert_eq!(FilterConfig::from(&cfg).types(), vec![Type::ReviewRequest]);
    cfg.issues = true;
    assert_eq!(FilterConfig::from(&cfg).types(), vec![Type::Issue, Type::ReviewRequest]);
}

#[test]
fn the_filter_takes_the_limit_of_the_options() {
    let mut cfg = options();
    cfg.limit = 3;
    assert_eq!(FilterConfig::from(&cfg).limit(), 3);
}

#[test]
fn state_filters_have_names() {
    assert_eq!(StateFilter::Open.to_string(), "open");
    assert_eq!(StateFilter::Closed.to_string(), "closed");
    assert_eq!(StateFilter::All.to_string(), "all");
}

#[test]
fn first_failure_is_the_first_error() {
    assert!(matches!(first_failure(Vec::new()), Ok(())));
    assert!(matches!(first_failure(vec![Ok(()), Ok(()), Ok(())]), Ok(())));
    assert!(matches!(
        first_failure(vec![Ok(()), Err(AppErr::RateLimited), Err(AppErr::ChannelError)]),
        Err(AppErr::RateLimited)
    ));
    assert!(matches!(
        first_failure(vec![Err(AppErr::ApiError), Ok(()), Err(AppErr::ChannelError)]),
        Err(AppErr::ApiError)
    ));
}

#[test]
fn records_are_marked_with_the_kind_of_their_request() {
    let record = |id: u64| Issue {
        url: String::from("u"),
        id,
        number: 3,
        title: String::from("t"),
        body: None,
        created_at: String::new(),
        updated_at: String::new(),
        state: State::Open,
        comments: Comments { total_count: 1 },
        reactions: Reactions { total_count: 2 },
        assignees: AssigneeNode { nodes: Vec::new() },
        review_requets: None,
        labels: LabelNode { nodes: Vec::new() },
        repository: Repository { name_with_owner: String::from("a/b") },
        kind: Type::PullRequest,
    };
    let tagged = tag_records(vec![record(1), record(2)], Type::ReviewRequest);
    assert_eq!(tagged.len(), 2);
    assert_eq!(tagged[0].id, 1);
    assert_eq!(tagged[1].id, 2);
    assert!(tagged.iter().all(|r| r.kind == Type::ReviewRequest));
    assert!(tagged.iter().all(|r| r.title == "t" && r.number == 3));
    assert!(tag_records(Vec::new(), Type::Issue).is_empty());
}
