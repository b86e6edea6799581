//! A new issue, as it is written down in an editor: a title, a body, and
//! lines that name labels and assignees.

use crate::text::{
    begins_with, join, join_strings, lines_of, occurs_at, split_terminated, split_terminator,
    text_lines, texts, trim, trim_start, trimmed, without_prefixes,
};
use vstd::prelude::*;

verus! {

/// What the editor is opened with.
pub const FILE_CONTENT: &'static str = "\n\
    # Insert title and body above for issue. First line will automatically be interpreted\n\
    # as the title of the subject and following lines will be the body of the issue.\n\
    # Optionally, labels can be added with `labels: duplicate, jar, my-favourite-label` on a separate\n\
    # line and assginees with `assignees: @assignedperson, @some-other-poor-fellow`. Lines\n\
    # that starts with a '#' will be ignored.\n\
";

/// What a line that names labels begins with.
pub const LABELS_KEYWORD: &'static str = "labels:";

/// What a line that names assignees begins with.
pub const ASSIGNEES_KEYWORD: &'static str = "assignees:";

/// A new issue.
#[derive(Debug)]
pub struct IssueRequest {
    pub title: String,
    pub body: Option<String>,
    pub labels: Vec<String>,
    pub assignees: Vec<String>,
}

/// A new issue as plain values.
pub struct IssueRequestView {
    pub title: Seq<char>,
    pub body: Option<Seq<char>>,
    pub labels: Seq<Seq<char>>,
    pub assignees: Seq<Seq<char>>,
}

impl View for IssueRequest {
    type V = IssueRequestView;

    open spec fn view(&self) -> IssueRequestView {
        IssueRequestView {
            title: self.title@,
            body: match self.body {
                Some(body) => Some(body@),
                None => None,
            },
            labels: texts(self.labels@),
            assignees: texts(self.assignees@),
        }
    }
}

/// An optional issue as plain values.
pub open spec fn optional_issue(issue: Option<IssueRequest>) -> Option<IssueRequestView> {
    match issue {
        Some(i) => Some(i@),
        None => None,
    }
}

/// Those of `lines` that `keep` holds of, in their order.
pub open spec fn kept(lines: Seq<Seq<char>>, keep: spec_fn(Seq<char>) -> bool) -> Seq<Seq<char>>
    decreases lines.len(),
{
    if lines.len() == 0 {
        lines
    } else if keep(lines.last()) {
        kept(lines.drop_last(), keep).push(lines.last())
    } else {
        kept(lines.drop_last(), keep)
    }
}

/// Whether a line counts: it is no comment, and not blank.
pub open spec fn counts(line: Seq<char>) -> bool {
    !occurs_at(line, "#"@, 0) && trimmed(line).len() > 0
}

/// Whether a line belongs to the body: it names neither labels nor assignees.
pub open spec fn in_body(line: Seq<char>) -> bool {
    !occurs_at(line, LABELS_KEYWORD@, 0) && !occurs_at(line, ASSIGNEES_KEYWORD@, 0)
}

/// The first of `lines` that begins with `keyword`, or the empty line.
pub open spec fn attribute_line(keyword: Seq<char>, lines: Seq<Seq<char>>) -> Seq<char>
    decreases lines.len(),
{
    if lines.len() == 0 {
        Seq::empty()
    } else if occurs_at(lines.first(), keyword, 0) {
        lines.first()
    } else {
        attribute_line(keyword, lines.drop_first())
    }
}

/// The values that the line of `keyword` names: what stands behind the
/// keyword, cut at the commas, each piece without the white space at its ends.
pub open spec fn attribute(keyword: Seq<char>, lines: Seq<Seq<char>>) -> Seq<Seq<char>> {
    split_terminated(without_prefixes(attribute_line(keyword, lines), keyword), ',').map_values(
        |piece: Seq<char>| trimmed(piece),
    )
}

/// The issue that the lines that count describe: the first is the title, the
/// others are the body, but for the lines that name labels and assignees.
pub open spec fn issue_of(lines: Seq<Seq<char>>) -> Option<IssueRequestView> {
    if lines.len() == 0 {
        None
    } else {
        let body = kept(lines.skip(1), |line: Seq<char>| in_body(line));
        Some(
            IssueRequestView {
                title: lines[0],
                body: if body.len() == 0 {
                    None
                } else {
                    Some(join(body, "\n"@))
                },
                labels: attribute(LABELS_KEYWORD@, lines),
                assignees: attribute(ASSIGNEES_KEYWORD@, lines),
            },
        )
    }
}

/// The issue that the lines of a file describe; none where no line counts.
pub open spec fn issue_in(lines: Seq<Seq<char>>) -> Option<IssueRequestView> {
    issue_of(kept(lines, |line: Seq<char>| counts(line)))
}

/// The process's exit code for the status of the answer to a new issue:
/// 0 for success, 1 for a client's error, 2 for a server's, 9 for any other.
pub open spec fn exit_code_of(status: u16) -> i32 {
    if 200 <= status <= 299 {
        0
    } else if 400 <= status <= 499 {
        1
    } else if 500 <= status <= 599 {
        2
    } else {
        9
    }
}

fn counting_lines(lines: &Vec<String>) -> (counting: Vec<String>)
    ensures
        texts(counting@) == kept(texts(lines@), |line: Seq<char>| counts(line)),
{
    let ghost keep = |line: Seq<char>| counts(line);
    let mut counting: Vec<String> = Vec::new();
    let mut i: usize = 0;
    while i < lines.len()
        invariant
            i <= lines.len(),
            keep == (|line: Seq<char>| counts(line)),
            texts(counting@) == kept(texts(lines@).take(i as int), keep),
        decreases lines.len() - i,
    {
        proof {
            let upto = texts(lines@).take(i + 1);
            assert(upto.drop_last() =~= texts(lines@).take(i as int));
            assert(upto.last() == lines@[i as int]@);
        }
        let line = lines[i].as_str();
        if !begins_with(line, "#") && !trim(line).as_str().is_empty() {
            let copy = lines[i].clone();
            proof {
                assert(texts(counting@.push(copy)) =~= texts(counting@).push(copy@));
            }
            counting.push(copy);
        }
        i += 1;
    }
    proof {
        assert(texts(lines@).take(lines.len() as int) =~= texts(lines@));
    }
    counting
}

fn body_lines(lines: &Vec<String>) -> (body: Vec<String>)
    requires
        lines@.len() > 0,
    ensures
        texts(body@) == kept(texts(lines@).skip(1), |line: Seq<char>| in_body(line)),
{
    let ghost keep = |line: Seq<char>| in_body(line);
    let ghost rest = texts(lines@).skip(1);
    let mut body: Vec<String> = Vec::new();
    let mut i: usize = 1;
    while i < lines.len()
        invariant
            1 <= i <= lines.len(),
            keep == (|line: Seq<char>| in_body(line)),
            rest == texts(lines@).skip(1),
            texts(body@) == kept(rest.take(i - 1), keep),
        decreases lines.len() - i,
    {
        proof {
            let upto = rest.take(i as int);
            assert(upto.drop_last() =~= rest.take(i - 1));
            assert(upto.last() == lines@[i as int]@);
        }
        let line = lines[i].as_str();
        if !begins_with(line, LABELS_KEYWORD) && !begins_with(line, ASSIGNEES_KEYWORD) {
            let copy = lines[i].clone();
            proof {
                assert(texts(body@.push(copy)) =~= texts(body@).push(copy@));
            }
            body.push(copy);
        }
        i += 1;
    }
    proof {
        assert(rest.take(lines.len() - 1) =~= rest);
    }
    body
}

fn find_attribute_line(keyword: &str, lines: &Vec<String>) -> (line: String)
    ensures
        line@ == attribute_line(keyword@, texts(lines@)),
{
    let mut i: usize = 0;
    proof {
        assert(texts(lines@).skip(0) =~= texts(lines@));
    }
    while i < lines.len()
        invariant
            i <= lines.len(),
            attribute_line(keyword@, texts(lines@)) == attribute_line(
                keyword@,
                texts(lines@).skip(i as int),
            ),
        decreases lines.len() - i,
    {
        proof {
            let rest = texts(lines@).skip(i as int);
            assert(rest.first() == lines@[i as int]@);
            assert(rest.drop_first() =~= texts(lines@).skip(i + 1));
        }
        if begins_with(lines[i].as_str(), keyword) {
            return lines[i].clone();
        }
        i += 1;
    }
    String::new()
}

/// The values that the line of `keyword` names, among the lines that count:
/// what stands behind the keyword in the first line that begins with it, cut
/// at the commas, each piece without the white space at its ends.
pub fn read_attribute(keyword: &str, lines: &Vec<String>) -> (values: Vec<String>)
    ensures
        texts(values@) == attribute(keyword@, texts(lines@)),
{
    let line = find_attribute_line(keyword, lines);
    let named = trim_start(line.as_str(), keyword);
    let pieces = split_terminator(named.as_str(), ',');
    let mut values: Vec<String> = Vec::new();
    let mut i: usize = 0;
    while i < pieces.len()
        invariant
            i <= pieces.len(),
            values@.len() == i,
            forall|k: int| 0 <= k < i ==> (#[trigger] values@[k])@ == trimmed(pieces@[k]@),
        decreases pieces.len() - i,
    {
        values.push(trim(pieces[i].as_str()));
        i += 1;
    }
    proof {
        assert(texts(values@) =~= texts(pieces@).map_values(|piece: Seq<char>| trimmed(piece)));
    }
    values
}

/// The issue that the lines that count describe; none where there is no such
/// line.
pub fn issue_from_lines(lines: &Vec<String>) -> (issue: Option<IssueRequest>)
    ensures
        optional_issue(issue) == issue_of(texts(lines@)),
{
    if lines.len() == 0 {
        return None;
    }
    let body = body_lines(lines);
    let body: Option<String> = if body.len() == 0 {
        None
    } else {
        Some(join_strings(&body, "\n"))
    };
    let labels = read_attribute(LABELS_KEYWORD, lines);
    let assignees = read_attribute(ASSIGNEES_KEYWORD, lines);
    Some(IssueRequest { title: lines[0].clone(), body, labels, assignees })
}

/// The issue that the lines of a file describe: comments and blank lines do
/// not count. None where no line counts.
pub fn parse_issue(lines: &Vec<String>) -> (issue: Option<IssueRequest>)
    ensures
        optional_issue(issue) == issue_in(texts(lines@)),
{
    let counting = counting_lines(lines);
    issue_from_lines(&counting)
}

/// The issue that a file describes, given the text of the file.
pub fn read_issue(content: &str) -> (issue: Option<IssueRequest>)
    ensures
        optional_issue(issue) == issue_in(lines_of(content@)),
{
    let lines = text_lines(content);
    parse_issue(&lines)
}

/// The process's exit code for the status of the answer to a new issue.
pub fn exit_code(status: u16) -> (code: i32)
    ensures
        code == exit_code_of(status),
{
    if 200 <= status && status <= 299 {
        0
    } else if 400 <= status && status <= 499 {
        1
    } else if 500 <= status && status <= 599 {
        2
    } else {
        9
    }
}

} // verus!
