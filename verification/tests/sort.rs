use giss::github_resources::State;
use giss::issue::{AssigneeNode, Comments, Issue, LabelNode, Reactions, Repository};
use giss::search::Type;
use giss::sort::{Order, Property, Sorting};
use std::cmp::Ordering;

fn record(id: u64, created: &str, updated: &str, comments: u32, reactions: u32) -> Issue {
    Issue {
        url: String::new(),
        id,
        number: 1,
        title: String::new(),
        body: None,
        created_at: String::from(created),
        updated_at: String::from(updated),
        state: State::Open,
        comments: Comments { total_count: comments },
        reactions: Reactions { total_count: reactions },
        assignees: AssigneeNode { nodes: Vec::new() },
        review_requets: None,
        labels: LabelNode { nodes: Vec::new() },
        repository: Repository { name_with_owner: String::new() },
        kind: Type::Issue,
    }
}

#[test]
fn properties_compare_their_own_field() {
    let a = record(1, "2020-01-01T00:00:00Z", "2021-01-01T00:00:00Z", 5, 0);
    let b = record(2, "2020-06-01T00:00:00Z", "2020-12-01T00:00:00Z", 5, 9);
    assert_eq!(Property::Created.sort(&a, &b), Ordering::Less);
    assert_eq!(Property::Updated.sort(&a, &b), Ordering::Greater);
    assert_eq!(Property::Comments.sort(&a, &b), Ordering::Equal);
    assert_eq!(Property::Reactions.sort(&a, &b), Ordering::Less);
    assert_eq!(Property::Reactions.sort(&b, &a), Ordering::Greater);
}

#[test]
fn timestamps_compare_as_texts() {
    let a = record(1, "10", "", 0, 0);
    let b = record(2, "9", "", 0, 0);
    assert_eq!(Property::Created.sort(&a, &b), Ordering::Less);
    let short = record(3, "ab", "", 0, 0);
    let long = record(4, "abc", "", 0, 0);
    assert_eq!(Property::Created.sort(&short, &long), Ordering::Less);
    assert_eq!(Property::Created.sort(&long, &short), Ordering::Greater);
    assert_eq!(Property::Created.sort(&long, &long), Ordering::Equal);
    let plain = record(5, "z", "", 0, 0);
    let accented = record(6, "\u{e9}", "", 0, 0);
    assert_eq!(Property::Created.sort(&plain, &accented), Ordering::Less);
}

#[test]
fn descending_turns_the_ordering_round() {
    assert_eq!(Order::Ascending.order(Ordering::Less), Ordering::Less);
    assert_eq!(Order::Ascending.order(Ordering::Equal), Ordering::Equal);
    assert_eq!(Order::Ascending.order(Ordering::Greater), Ordering::Greater);
    assert_eq!(Order::Descending.order(Ordering::Less), Ordering::Greater);
    assert_eq!(Order::Descending.order(Ordering::Equal), Ordering::Equal);
    assert_eq!(Order::Descending.order(Ordering::Greater), Ordering::Less);
}

#[test]
fn sorting_compares_by_property_in_direction() {
    let a = record(1, "", "", 1, 0);
    let b = record(2, "", "", 2, 0);
    let up = Sorting(Property::Comments, Order::Ascending);
    let down = Sorting(Property::Comments, Order::Descending);
    assert_eq!(up.sort(&a, &b), Ordering::Less);
    assert_eq!(down.sort(&a, &b), Ordering::Greater);
    assert!(up.precedes(&a, &b));
    assert!(!up.precedes(&b, &a));
    assert!(!up.precedes(&a, &a));
    assert!(down.precedes(&b, &a));
}

#[test]
fn properties_are_read_in_any_case() {
    assert_eq!(Property::from_str("created"), Ok(Property::Created));
    assert_eq!(Property::from_str("UPDATED"), Ok(Property::Updated));
    assert_eq!(Property::from_str("Comments"), Ok(Property::Comments));
    assert_eq!(Property::from_str("reactions"), Ok(Property::Reactions));
    assert_eq!(Property::from_str("stars"), Err("Invalid property"));
    assert_eq!(Property::from_str(""), Err("Invalid property"));
    assert_eq!(Property::from_lowercase("CREATED"), Err("Invalid property"));
}

#[test]
fn directions_are_read_in_any_case() {
    assert_eq!(Order::from_str("asc"), Ok(Order::Ascending));
    assert_eq!(Order::from_str("Ascending"), Ok(Order::Ascending));
    assert_eq!(Order::from_str("DESC"), Ok(Order::Descending));
    assert_eq!(Order::from_str("descending"), Ok(Order::Descending));
    assert_eq!(Order::from_str("up"), Err("Invalid sort order"));
    assert_eq!(Order::from_lowercase("ASC"), Err("Invalid sort order"));
}

#[test]
fn names_in_a_query() {
    assert_eq!(Property::Created.to_string(), "created");
    assert_eq!(Property::Updated.to_string(), "updated");
    assert_eq!(Property::Comments.to_string(), "comments");
    assert_eq!(Property::Reactions.to_string(), "reactions");
    assert_eq!(Order::Ascending.to_string(), "asc");
    assert_eq!(Order::Descending.to_string(), "desc");
    assert_eq!(Sorting(Property::Updated, Order::Descending).to_string(), "updated-desc");
    assert_eq!(Sorting(Property::Created, Order::Ascending).to_string(), "created-asc");
}

#[test]
fn defaults_are_updated_and_descending() {
    assert_eq!(Property::default(), Property::Updated);
    assert_eq!(Order::default(), Order::Descending);
}

#[test]
fn properties_and_directions_parse() {
    assert_eq!("Created".parse::<Property>(), Ok(Property::Created));
    assert_eq!("x".parse::<Property>(), Err("Invalid property"));
    assert_eq!("DESC".parse::<Order>(), Ok(Order::Descending));
    assert_eq!("x".parse::<Order>(), Err("Invalid sort order"));
}
