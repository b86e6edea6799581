use giss::cfg::{ColorMode, Config, Flag, Verbosity};
use giss::github_resources::State;
use giss::issue::{
    Assignable, AssigneeNode, Comments, Issue, Label, LabelNode, Reactions, Repository,
    RequestedReviewer, ReviewRequestNode, UserFields,
};
use giss::search::Type;
use giss::sort::{Order, Property};
use giss::target::Target;
use giss::ui::{
    display, plain_text, print_issue, print_type, show_repository, shown_type, truncate, Arrival,
    DisplayConfig, Drain, Segment, Tint, RECEIVE_TIMEOUT_SECS,
};
use giss::user::Username;
use giss::AppErr;

fn options(limit: u32, links: bool) -> Config {
    Config {
        target: Vec::new(),
        token: None,
        assigned: false,
        limit,
        open: false,
        closed: false,
        issues: false,
        pull_requests: false,
        review_requests: false,
        user: None,
        labels: Vec::new(),
        project: None,
        sort_by: Property::Updated,
        sort_order: Order::Descending,
        links,
        colors: Flag::False,
        verbosity: Verbosity::new(1).unwrap(),
        debug: false,
    }
}

fn org() -> Vec<Target> {
    vec![Target::Organization(String::from("acme"))]
}

fn one_repo() -> Vec<Target> {
    vec![Target::Repository(String::from("acme"), String::from("widgets"))]
}

fn alice() -> Option<Username> {
    Some(Username(String::from("alice")))
}

fn record(id: u64, number: u32, title: &str, updated: &str, kind: Type) -> Issue {
    Issue {
        url: String::new(),
        id,
        number,
        title: String::from(title),
        body: None,
        created_at: String::new(),
        updated_at: String::from(updated),
        state: State::Open,
        comments: Comments { total_count: 0 },
        reactions: Reactions { total_count: 0 },
        assignees: AssigneeNode { nodes: Vec::new() },
        review_requets: None,
        labels: LabelNode { nodes: Vec::new() },
        repository: Repository { name_with_owner: String::from("acme/widgets") },
        kind,
    }
}

fn requested_from(login: &str) -> Option<ReviewRequestNode> {
    Some(ReviewRequestNode {
        nodes: vec![RequestedReviewer {
            requested_reviewer: Some(Assignable {
                assignable_type: String::from("User"),
                login: Some(String::from(login)),
                id: None,
                name: None,
                members: None,
            }),
        }],
    })
}

fn pieces(line: &[Segment]) -> Vec<(String, Option<Tint>)> {
    line.iter().map(|s| (s.text.clone(), s.color)).collect()
}

fn piece(text: &str, color: Option<Tint>) -> (String, Option<Tint>) {
    (String::from(text), color)
}

#[test]
fn the_line_of_a_plain_issue() {
    let cfg = DisplayConfig::from(&options(10, false), None, &org());
    let line = print_issue(&record(1, 12, "Fix the frobnicator", "", Type::Issue), &cfg);
    assert_eq!(
        pieces(&line),
        vec![
            piece("I ", Some(Tint::Blue)),
            piece("| ", Some(Tint::Green)),
            piece("#12 acme/widgets", None),
            piece(" | ", Some(Tint::Green)),
            piece("Fix the frobnicator", None),
            piece("\n", None),
        ]
    );
    assert_eq!(plain_text(&line), "I | #12 acme/widgets | Fix the frobnicator\n");
}

#[test]
fn the_line_of_a_record_with_everything() {
    let cfg = DisplayConfig::from(&options(10, true), alice(), &org());
    let mut pull = record(1, 7, "Add a thing", "", Type::PullRequest);
    pull.assignees = AssigneeNode {
        nodes: vec![
            UserFields { login: String::from("bob"), id: String::new() },
            UserFields { login: String::from("carol"), id: String::new() },
        ],
    };
    pull.labels = LabelNode {
        nodes: vec![Label { name: String::from("bug") }, Label { name: String::from("ui") }],
    };
    pull.review_requets = requested_from("alice");
    let line = print_issue(&pull, &cfg);
    assert_eq!(
        pieces(&line),
        vec![
            piece("P", Some(Tint::Magenta)),
            piece("R", Some(Tint::Yellow)),
            piece("| ", Some(Tint::Green)),
            piece("#7 acme/widgets", None),
            piece(" | ", Some(Tint::Green)),
            piece("Add a thing", None),
            piece(" | ", Some(Tint::Green)),
            piece("@bob, @carol", Some(Tint::Cyan)),
            piece(" | ", Some(Tint::Green)),
            piece("#bug, #ui", Some(Tint::Magenta)),
            piece(" | ", Some(Tint::Green)),
            piece("https://github.com/acme/widgets/pull/7", Some(Tint::Blue)),
            piece("\n", None),
        ]
    );
    assert_eq!(
        plain_text(&line),
        "PR| #7 acme/widgets | Add a thing | @bob, @carol | #bug, #ui | https://github.com/acme/widgets/pull/7\n"
    );
}

#[test]
fn the_repository_is_left_out_where_it_is_the_one_target() {
    let cfg = DisplayConfig::from(&options(10, false), None, &one_repo());
    let line = print_issue(&record(1, 12, "Title", "", Type::Issue), &cfg);
    assert_eq!(plain_text(&line), "I | #12 | Title\n");
    assert!(!show_repository(&one_repo()));
    assert!(show_repository(&org()));
    assert!(show_repository(&[]));
    let two = vec![
        Target::Repository(String::from("a"), String::from("b")),
        Target::Repository(String::from("c"), String::from("d")),
    ];
    assert!(show_repository(&two));
}

#[test]
fn a_pull_request_is_shown_as_a_review_request_only_for_the_user_asked() {
    let mut pull = record(1, 1, "", "", Type::PullRequest);
    pull.review_requets = requested_from("alice");
    let for_alice = DisplayConfig::from(&options(10, false), alice(), &org());
    let for_bob =
        DisplayConfig::from(&options(10, false), Some(Username(String::from("bob"))), &org());
    let for_nobody = DisplayConfig::from(&options(10, false), None, &org());
    assert_eq!(shown_type(&pull, &for_alice), Type::ReviewRequest);
    assert_eq!(shown_type(&pull, &for_bob), Type::PullRequest);
    assert_eq!(shown_type(&pull, &for_nobody), Type::PullRequest);
    pull.kind = Type::ReviewRequest;
    assert_eq!(shown_type(&pull, &for_bob), Type::PullRequest);
    assert_eq!(shown_type(&pull, &for_alice), Type::ReviewRequest);
    pull.kind = Type::Issue;
    assert_eq!(shown_type(&pull, &for_alice), Type::Issue);
}

#[test]
fn print_type_adds_to_the_line() {
    let cfg = DisplayConfig::from(&options(10, false), None, &org());
    let mut line = vec![Segment { text: String::from("x"), color: None }];
    print_type(&mut line, &record(1, 1, "", "", Type::PullRequest), &cfg);
    assert_eq!(
        pieces(&line),
        vec![piece("x", None), piece("P ", Some(Tint::Magenta)), piece("| ", Some(Tint::Green))]
    );
}

#[test]
fn titles_are_cut_at_fifty_characters() {
    let long = "a".repeat(60);
    let cfg = DisplayConfig::from(&options(10, false), None, &one_repo());
    let line = print_issue(&record(1, 1, &long, "", Type::Issue), &cfg);
    assert_eq!(line[4].text, "a".repeat(50));
    let exact = "b".repeat(50);
    let line = print_issue(&record(1, 1, &exact, "", Type::Issue), &cfg);
    assert_eq!(line[4].text, exact);
}

#[test]
fn truncate_counts_characters() {
    assert_eq!(truncate(String::from("hello"), 3), "hel");
    assert_eq!(truncate(String::from("hello"), 5), "hello");
    assert_eq!(truncate(String::from("hello"), 9), "hello");
    assert_eq!(truncate(String::from("hello"), 0), "");
    assert_eq!(truncate(String::from("h\u{e9}llo"), 2), "h\u{e9}");
    assert_eq!(truncate(String::new(), 2), "");
}

#[test]
fn display_arranges_and_lays_out() {
    let cfg = DisplayConfig::from(&options(2, false), None, &one_repo());
    let arrived = vec![
        record(1, 1, "oldest", "2020-01-01", Type::Issue),
        record(2, 2, "newest", "2020-03-01", Type::PullRequest),
        record(2, 3, "repeated", "2020-02-15", Type::PullRequest),
        record(3, 4, "middle", "2020-02-01", Type::Issue),
    ];
    let lines: Vec<String> = display(arrived, &cfg).iter().map(plain_text).collect();
    assert_eq!(lines, vec![String::from("P | #2 | newest\n"), String::from("I | #4 | middle\n")]);
}

#[test]
fn the_display_takes_limit_and_colors_from_the_options() {
    let mut cfg = options(4, false);
    cfg.colors = Flag::True;
    let display = DisplayConfig::from(&cfg, None, &org());
    assert_eq!(display.limit(), 4);
    assert_eq!(display.colors(), ColorMode::Always);
}

#[test]
fn the_drain_waits_for_three_times_the_limit() {
    let mut drain = Drain::new(1);
    assert!(drain.is_waiting());
    for number in 0..3 {
        assert!(drain.is_waiting());
        let arrival = Arrival::Record(record(number, number as u32, "", "", Type::Issue));
        assert!(matches!(drain.receive(arrival), Ok(())));
    }
    assert!(!drain.is_waiting());
    // What arrives after that is not taken.
    assert!(matches!(drain.receive(Arrival::Record(record(9, 9, "", "", Type::Issue))), Ok(())));
    assert!(matches!(drain.receive(Arrival::TimedOut), Ok(())));
    let numbers: Vec<u32> = drain.into_records().iter().map(|r| r.number).collect();
    assert_eq!(numbers, vec![0, 1, 2]);
}

#[test]
fn a_timeout_while_waiting_is_an_error() {
    let mut drain = Drain::new(5);
    assert!(matches!(
        drain.receive(Arrival::Record(record(1, 1, "", "", Type::Issue))),
        Ok(())
    ));
    assert!(matches!(drain.receive(Arrival::TimedOut), Err(AppErr::Timeout)));
    assert!(drain.is_waiting());
    assert_eq!(drain.into_records().len(), 1);
}

#[test]
fn the_end_of_the_senders_ends_the_waiting() {
    let mut drain = Drain::new(5);
    assert!(matches!(
        drain.receive(Arrival::Record(record(1, 1, "", "", Type::Issue))),
        Ok(())
    ));
    assert!(matches!(drain.receive(Arrival::Disconnected), Ok(())));
    assert!(!drain.is_waiting());
    assert_eq!(drain.into_records().len(), 1);
}

#[test]
fn a_drain_with_limit_zero_waits_for_nothing() {
    assert!(!Drain::new(0).is_waiting());
    assert!(Drain::new(u32::MAX).is_waiting());
}

#[test]
fn the_wait_for_a_record_is_twenty_seconds() {
    assert_eq!(RECEIVE_TIMEOUT_SECS, 20);
}

#[test]
fn a_request_to_something_unknown_does_not_stop_the_display() {
    let for_alice = DisplayConfig::from(&options(10, false), alice(), &org());
    let mut pull = record(1, 1, "Title", "", Type::PullRequest);
    pull.review_requets = Some(ReviewRequestNode {
        nodes: vec![
            RequestedReviewer {
                requested_reviewer: Some(Assignable {
                    assignable_type: String::from("Mannequin"),
                    login: Some(String::from("alice")),
                    id: None,
                    name: None,
                    members: None,
                }),
            },
            RequestedReviewer { requested_reviewer: None },
        ],
    });
    assert_eq!(shown_type(&pull, &for_alice), Type::PullRequest);
    let lines: Vec<String> = display(vec![pull], &for_alice).iter().map(plain_text).collect();
    assert_eq!(lines, vec![String::from("P | #1 acme/widgets | Title\n")]);
}
