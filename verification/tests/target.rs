use giss::target::Target;

#[test]
fn owner_and_name_parse_to_a_repository() {
    match Target::from_str("acme/widgets") {
        Ok(Target::Repository(owner, name)) => {
            assert_eq!(owner, "acme");
            assert_eq!(name, "widgets");
        }
        other => panic!("unexpected {:?}", other),
    }
}

#[test]
fn one_name_parses_to_an_organization() {
    match Target::from_str("acme") {
        Ok(Target::Organization(name)) => assert_eq!(name, "acme"),
        other => panic!("unexpected {:?}", other),
    }
}

#[test]
fn three_names_are_no_target() {
    match Target::from_str("a/b/c") {
        Err(message) => assert_eq!(message, "Could not resolve a valid target from 'a/b/c'"),
        other => panic!("unexpected {:?}", other),
    }
}

#[test]
fn no_name_is_no_target() {
    assert_eq!(
        Target::from_str("").err(),
        Some(String::from("Could not resolve a valid target from ''"))
    );
    assert_eq!(
        Target::from_str(" / ").err(),
        Some(String::from("Could not resolve a valid target from ' / '"))
    );
}

#[test]
fn names_hold_word_characters_hyphens_and_dots() {
    match Target::from_str("my-org_1/some.repo-2") {
        Ok(Target::Repository(owner, name)) => {
            assert_eq!(owner, "my-org_1");
            assert_eq!(name, "some.repo-2");
        }
        other => panic!("unexpected {:?}", other),
    }
}

#[test]
fn what_stands_between_names_is_passed_over() {
    match Target::from_str("  acme : widgets ") {
        Ok(Target::Repository(owner, name)) => {
            assert_eq!(owner, "acme");
            assert_eq!(name, "widgets");
        }
        other => panic!("unexpected {:?}", other),
    }
}

#[test]
fn from_names_takes_one_or_two_names() {
    let one = vec![String::from("acme")];
    let two = vec![String::from("acme"), String::from("widgets")];
    let three = vec![String::from("a"), String::from("b"), String::from("c")];
    assert!(matches!(Target::from_names(&one, "x"), Ok(Target::Organization(_))));
    assert!(matches!(Target::from_names(&two, "x"), Ok(Target::Repository(_, _))));
    assert_eq!(
        Target::from_names(&three, "x").err(),
        Some(String::from("Could not resolve a valid target from 'x'"))
    );
    assert_eq!(
        Target::from_names(&Vec::new(), "x").err(),
        Some(String::from("Could not resolve a valid target from 'x'"))
    );
}

#[test]
fn targets_are_named_as_a_query_names_them() {
    let org = Target::Organization(String::from("acme"));
    let repo = Target::Repository(String::from("acme"), String::from("widgets"));
    assert_eq!(org.to_string(), "org:acme");
    assert_eq!(repo.to_string(), "repo:acme/widgets");
}

#[test]
fn parse_then_name_round_trip() {
    let target: Target = "acme/widgets".parse().unwrap();
    assert_eq!(target.to_string(), "repo:acme/widgets");
    let copy = target.clone();
    assert_eq!(copy.to_string(), "repo:acme/widgets");
}
