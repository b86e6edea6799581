use giss::github_resources::{Closeable, State};
use giss::issue::{
    Assignable, AssigneeNode, Comments, Data, Issue, Label, LabelNode, Node, Reactions,
    Repository, RequestedReviewer, ReviewRequestNode, Root, Search, UserFields,
};
use giss::search::Type;

fn user(login: &str) -> UserFields {
    UserFields { login: String::from(login), id: String::from("id") }
}

fn user_request(login: &str) -> RequestedReviewer {
    RequestedReviewer {
        requested_reviewer: Some(Assignable {
            assignable_type: String::from("User"),
            login: Some(String::from(login)),
            id: None,
            name: None,
            members: None,
        }),
    }
}

fn team_request(members: &[&str]) -> RequestedReviewer {
    RequestedReviewer {
        requested_reviewer: Some(Assignable {
            assignable_type: String::from("Team"),
            login: None,
            id: None,
            name: Some(String::from("core")),
            members: Some(AssigneeNode { nodes: members.iter().map(|m| user(m)).collect() }),
        }),
    }
}

fn pull(id: u64, number: u32, requests: Option<Vec<RequestedReviewer>>) -> Issue {
    Issue {
        url: String::from("https://example.org"),
        id,
        number,
        title: String::from("A title"),
        body: None,
        created_at: String::from("2020-01-01T00:00:00Z"),
        updated_at: String::from("2020-01-02T00:00:00Z"),
        state: State::Open,
        comments: Comments { total_count: 0 },
        reactions: Reactions { total_count: 0 },
        assignees: AssigneeNode { nodes: Vec::new() },
        review_requets: requests.map(|nodes| ReviewRequestNode { nodes }),
        labels: LabelNode { nodes: vec![Label { name: String::from("bug") }] },
        repository: Repository { name_with_owner: String::from("acme/widgets") },
        kind: Type::PullRequest,
    }
}

#[test]
fn a_user_has_its_own_login() {
    let request = user_request("alice");
    let assignable = request.requested_reviewer.unwrap();
    assert!(assignable.has_login("alice"));
    assert!(!assignable.has_login("bob"));
    assert!(!assignable.has_login(""));
}

#[test]
fn a_team_has_the_logins_of_its_members() {
    let request = team_request(&["alice", "bob"]);
    let assignable = request.requested_reviewer.unwrap();
    assert!(assignable.has_login("alice"));
    assert!(assignable.has_login("bob"));
    assert!(!assignable.has_login("carol"));
    assert!(!assignable.has_login("core"));
}

#[test]
fn what_is_neither_a_user_nor_a_team_has_no_login() {
    let bot = Assignable {
        assignable_type: String::from("Bot"),
        login: Some(String::from("robot")),
        id: None,
        name: None,
        members: Some(AssigneeNode { nodes: vec![user("robot")] }),
    };
    assert!(!bot.has_login("robot"));
    let mut record = pull(1, 1, Some(vec![user_request("alice")]));
    assert!(record.has_review_request("alice"));
    record.review_requets = Some(ReviewRequestNode {
        nodes: vec![RequestedReviewer { requested_reviewer: Some(bot) }, user_request("alice")],
    });
    assert!(!record.has_review_request("robot"));
    assert!(record.has_review_request("alice"));
}

#[test]
fn a_team_without_members_and_a_user_without_login_have_no_login() {
    let team = Assignable {
        assignable_type: String::from("Team"),
        login: Some(String::from("alice")),
        id: None,
        name: None,
        members: None,
    };
    assert!(!team.has_login("alice"));
    let nobody = Assignable {
        assignable_type: String::from("User"),
        login: None,
        id: None,
        name: None,
        members: Some(AssigneeNode { nodes: vec![user("alice")] }),
    };
    assert!(!nobody.has_login("alice"));
    assert!(!nobody.has_login(""));
}

#[test]
fn review_requests_are_found_directly_and_through_teams() {
    let record = pull(
        1,
        1,
        Some(vec![
            RequestedReviewer { requested_reviewer: None },
            user_request("alice"),
            team_request(&["bob", "carol"]),
        ]),
    );
    assert!(record.has_review_request("alice"));
    assert!(record.has_review_request("carol"));
    assert!(!record.has_review_request("dave"));
}

#[test]
fn without_requests_no_review_is_requested() {
    assert!(!pull(1, 1, None).has_review_request("alice"));
    assert!(!pull(1, 1, Some(Vec::new())).has_review_request("alice"));
}

#[test]
fn links_tell_issues_from_pull_requests() {
    let mut record = pull(1, 42, None);
    assert_eq!(record.link(), "https://github.com/acme/widgets/pull/42");
    record.kind = Type::ReviewRequest;
    assert_eq!(record.link(), "https://github.com/acme/widgets/pull/42");
    record.kind = Type::Issue;
    assert_eq!(record.link(), "https://github.com/acme/widgets/issues/42");
}

#[test]
fn records_are_equal_by_id() {
    assert!(pull(7, 1, None) == pull(7, 2, Some(Vec::new())));
    assert!(pull(7, 1, None) != pull(8, 1, None));
}

#[test]
fn open_and_closed() {
    let mut record = pull(1, 1, None);
    assert!(record.is_open());
    record.state = State::Closed;
    assert!(!record.is_open());
}

#[test]
fn the_records_of_an_answer_come_in_the_order_sent() {
    let root = Root {
        data: Data {
            search: Search {
                edges: vec![
                    Node { node: pull(3, 30, None) },
                    Node { node: pull(1, 10, None) },
                    Node { node: pull(2, 20, None) },
                ],
            },
        },
    };
    let numbers: Vec<u32> = root.into_issues().iter().map(|i| i.number).collect();
    assert_eq!(numbers, vec![30, 10, 20]);
    let empty = Root { data: Data { search: Search { edges: Vec::new() } } };
    assert!(empty.into_issues().is_empty());
}
