use giss::arrange::{arrange, put_in_order};
use giss::github_resources::State;
use giss::issue::{AssigneeNode, Comments, Issue, LabelNode, Reactions, Repository};
use giss::search::Type;
use giss::sort::{Order, Property, Sorting};

fn record(id: u64, number: u32, updated: &str, comments: u32, kind: Type) -> Issue {
    Issue {
        url: String::new(),
        id,
        number,
        title: String::new(),
        body: None,
        created_at: String::new(),
        updated_at: String::from(updated),
        state: State::Open,
        comments: Comments { total_count: comments },
        reactions: Reactions { total_count: 0 },
        assignees: AssigneeNode { nodes: Vec::new() },
        review_requets: None,
        labels: LabelNode { nodes: Vec::new() },
        repository: Repository { name_with_owner: String::new() },
        kind,
    }
}

fn numbers(records: &[Issue]) -> Vec<u32> {
    records.iter().map(|r| r.number).collect()
}

const NEWEST_FIRST: Sorting = Sorting(Property::Updated, Order::Descending);
const FEWEST_COMMENTS_FIRST: Sorting = Sorting(Property::Comments, Order::Ascending);

#[test]
fn records_are_put_in_order() {
    let arrived = vec![
        record(1, 1, "2020-03-01", 0, Type::Issue),
        record(2, 2, "2020-05-01", 0, Type::Issue),
        record(3, 3, "2020-01-01", 0, Type::Issue),
        record(4, 4, "2020-04-01", 0, Type::Issue),
    ];
    assert_eq!(numbers(&put_in_order(arrived, NEWEST_FIRST)), vec![2, 4, 1, 3]);
}

#[test]
fn ascending_and_descending_are_mirror_images_without_ties() {
    let arrived = || {
        vec![
            record(1, 1, "", 5, Type::Issue),
            record(2, 2, "", 1, Type::Issue),
            record(3, 3, "", 9, Type::Issue),
        ]
    };
    let up = numbers(&put_in_order(arrived(), Sorting(Property::Comments, Order::Ascending)));
    let mut down = numbers(&put_in_order(arrived(), Sorting(Property::Comments, Order::Descending)));
    down.reverse();
    assert_eq!(up, vec![2, 1, 3]);
    assert_eq!(up, down);
}

#[test]
fn one_of_two_records_with_one_id_is_shown() {
    // The same pull request, once as a pull request and once as a review
    // request: the one that comes first in order stays.
    let arrived = vec![
        record(10, 1, "2020-01-01", 0, Type::PullRequest),
        record(20, 2, "2020-02-01", 0, Type::Issue),
        record(10, 3, "2020-03-01", 0, Type::ReviewRequest),
    ];
    let shown = arrange(arrived, NEWEST_FIRST, 10);
    assert_eq!(numbers(&shown), vec![3, 2]);
}

#[test]
fn of_records_with_one_id_and_one_key_the_first_to_arrive_is_shown() {
    let arrived = vec![
        record(10, 1, "2020-01-01", 0, Type::PullRequest),
        record(10, 2, "2020-01-01", 0, Type::ReviewRequest),
    ];
    assert_eq!(numbers(&arrange(arrived, NEWEST_FIRST, 10)), vec![1]);
}

#[test]
fn records_with_equal_keys_stay_in_arrival_order() {
    let arrived = vec![
        record(3, 3, "2020-01-01", 7, Type::Issue),
        record(1, 1, "2020-01-01", 7, Type::Issue),
        record(2, 2, "2020-01-01", 7, Type::Issue),
    ];
    assert_eq!(numbers(&arrange(arrived, NEWEST_FIRST, 10)), vec![3, 1, 2]);
}

#[test]
fn ties_stay_in_arrival_order_among_other_records() {
    let arrived = vec![
        record(1, 1, "", 2, Type::Issue),
        record(2, 2, "", 1, Type::Issue),
        record(3, 3, "", 2, Type::Issue),
        record(4, 4, "", 1, Type::Issue),
        record(5, 5, "", 2, Type::Issue),
        record(6, 6, "", 0, Type::Issue),
    ];
    assert_eq!(numbers(&arrange(arrived, FEWEST_COMMENTS_FIRST, 10)), vec![6, 2, 4, 1, 3, 5]);
    let arrived_again = vec![
        record(1, 1, "", 2, Type::Issue),
        record(2, 2, "", 1, Type::Issue),
        record(3, 3, "", 2, Type::Issue),
        record(4, 4, "", 1, Type::Issue),
    ];
    let most_first = Sorting(Property::Comments, Order::Descending);
    assert_eq!(numbers(&arrange(arrived_again, most_first, 10)), vec![1, 3, 2, 4]);
}

#[test]
fn the_limit_cuts_the_list_after_repetitions_are_dropped() {
    let arrived = vec![
        record(1, 1, "2020-01-01", 0, Type::Issue),
        record(2, 2, "2020-06-01", 0, Type::Issue),
        record(2, 3, "2020-05-01", 0, Type::Issue),
        record(3, 4, "2020-04-01", 0, Type::Issue),
        record(4, 5, "2020-03-01", 0, Type::Issue),
        record(5, 6, "2020-02-01", 0, Type::Issue),
    ];
    let shown = arrange(arrived, NEWEST_FIRST, 3);
    assert_eq!(numbers(&shown), vec![2, 4, 5]);
}

#[test]
fn fewer_records_than_the_limit_are_all_shown() {
    let arrived = vec![
        record(1, 1, "2020-01-01", 0, Type::Issue),
        record(2, 2, "2020-06-01", 0, Type::Issue),
    ];
    assert_eq!(numbers(&arrange(arrived, NEWEST_FIRST, 3)), vec![2, 1]);
    assert!(arrange(Vec::new(), NEWEST_FIRST, 3).is_empty());
}

#[test]
fn a_limit_of_zero_shows_nothing() {
    let arrived = vec![record(1, 1, "2020-01-01", 0, Type::Issue)];
    assert!(arrange(arrived, NEWEST_FIRST, 0).is_empty());
}

#[test]
fn put_in_order_agrees_with_a_stable_sort() {
    let keys: [u32; 12] = [5, 3, 5, 1, 3, 3, 9, 0, 5, 1, 9, 2];
    let arrived: Vec<Issue> = keys
        .iter()
        .enumerate()
        .map(|(at, key)| record(at as u64, at as u32, "", *key, Type::Issue))
        .collect();
    let mut expected: Vec<(u32, u32)> =
        keys.iter().enumerate().map(|(at, key)| (*key, at as u32)).collect();
    expected.sort_by(|a, b| b.0.cmp(&a.0));
    let most_first = Sorting(Property::Comments, Order::Descending);
    let ordered = put_in_order(arrived, most_first);
    let got: Vec<(u32, u32)> = ordered.iter().map(|r| (r.comments.total_count, r.number)).collect();
    assert_eq!(got, expected);
}
