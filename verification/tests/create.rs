use giss::create::{exit_code, issue_from_lines, parse_issue, read_attribute, read_issue, FILE_CONTENT};

fn lines(text: &[&str]) -> Vec<String> {
    text.iter().map(|l| String::from(*l)).collect()
}

#[test]
fn title_body_labels_and_assignees_are_read() {
    let content = "Fix the frobnicator\n\nIt is broken.\nBadly.\nlabels: bug, help wanted ,ui\nassignees: @alice, @bob\n# a comment\n";
    let issue = read_issue(content).unwrap();
    assert_eq!(issue.title, "Fix the frobnicator");
    assert_eq!(issue.body, Some(String::from("It is broken.\nBadly.")));
    assert_eq!(issue.labels, vec!["bug", "help wanted", "ui"]);
    assert_eq!(issue.assignees, vec!["@alice", "@bob"]);
}

#[test]
fn a_title_alone_is_an_issue_without_body() {
    let issue = read_issue("Only a title\n").unwrap();
    assert_eq!(issue.title, "Only a title");
    assert_eq!(issue.body, None);
    assert!(issue.labels.is_empty());
    assert!(issue.assignees.is_empty());
}

#[test]
fn a_file_without_lines_that_count_is_no_issue() {
    assert!(read_issue("").is_none());
    assert!(read_issue(FILE_CONTENT).is_none());
    assert!(read_issue("   \n\t\n# only comments\n").is_none());
    assert!(parse_issue(&lines(&["#x", "  "])).is_none());
    assert!(issue_from_lines(&Vec::new()).is_none());
}

#[test]
fn the_template_with_a_title_written_above_it() {
    let content = format!("A title{}", FILE_CONTENT);
    let issue = read_issue(&content).unwrap();
    assert_eq!(issue.title, "A title");
    assert_eq!(issue.body, None);
}

#[test]
fn comments_begin_at_the_start_of_a_line() {
    let issue = read_issue("Title\n #not a comment\n#a comment\n").unwrap();
    assert_eq!(issue.body, Some(String::from(" #not a comment")));
}

#[test]
fn attributes_are_cut_at_commas_and_trimmed() {
    let counting = lines(&["Title", "labels:  a ,b,, c ,", "assignees:"]);
    assert_eq!(read_attribute("labels:", &counting), vec!["a", "b", "", "c"]);
    assert!(read_attribute("assignees:", &counting).is_empty());
    assert!(read_attribute("milestone:", &counting).is_empty());
}

#[test]
fn the_first_line_of_a_keyword_is_the_one_that_counts() {
    let counting = lines(&["Title", "labels: a", "labels: b"]);
    assert_eq!(read_attribute("labels:", &counting), vec!["a"]);
    let issue = issue_from_lines(&counting).unwrap();
    assert_eq!(issue.labels, vec!["a"]);
    assert_eq!(issue.body, None);
}

#[test]
fn a_repeated_keyword_is_taken_off_whole() {
    let counting = lines(&["labels:labels: a, b"]);
    assert_eq!(read_attribute("labels:", &counting), vec!["a", "b"]);
    let issue = issue_from_lines(&counting).unwrap();
    assert_eq!(issue.title, "labels:labels: a, b");
    assert_eq!(issue.labels, vec!["a", "b"]);
}

#[test]
fn read_attribute_agrees_with_the_iterator_chain_of_std() {
    let counting = lines(&["Title", "x", "labels: a, b ,\u{a0}c\u{2003}", "assignees:@a,@b"]);
    for keyword in ["labels:", "assignees:", "x", "T"] {
        let line = counting.iter().find(|l| l.starts_with(keyword)).cloned().unwrap_or_default();
        let expected: Vec<String> = line
            .trim_start_matches(keyword)
            .split_terminator(',')
            .map(|v| v.trim().to_string())
            .collect();
        assert_eq!(read_attribute(keyword, &counting), expected, "{:?}", keyword);
    }
}

#[test]
fn exit_codes_follow_the_class_of_the_status() {
    assert_eq!(exit_code(200), 0);
    assert_eq!(exit_code(201), 0);
    assert_eq!(exit_code(299), 0);
    assert_eq!(exit_code(300), 9);
    assert_eq!(exit_code(399), 9);
    assert_eq!(exit_code(400), 1);
    assert_eq!(exit_code(422), 1);
    assert_eq!(exit_code(499), 1);
    assert_eq!(exit_code(500), 2);
    assert_eq!(exit_code(599), 2);
    assert_eq!(exit_code(600), 9);
    assert_eq!(exit_code(199), 9);
    assert_eq!(exit_code(0), 9);
}

#[test]
fn the_template_is_a_blank_line_and_five_comments() {
    let lines: Vec<&str> = FILE_CONTENT.lines().collect();
    assert_eq!(lines.len(), 6);
    assert_eq!(lines[0], "");
    assert!(lines[1..].iter().all(|l| l.starts_with("# ")));
    assert!(FILE_CONTENT.ends_with("# that starts with a '#' will be ignored.\n"));
}
