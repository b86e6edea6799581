//! What is shown: the records that arrive are collected, arranged, and each
//! is laid out as one line of colored segments.

use crate::arrange::{arrange, arranged};
use crate::cfg::{ColorMode, Config};
use crate::error::AppErr;
use crate::issue::{label_names, logins, Issue, IssueView, Label, UserFields};
use crate::search::Type;
use crate::sort::Sorting;
use crate::target::Target;
use crate::text::{decimal, decimal_string, join, join_strings, texts};
use crate::user::Username;
use vstd::prelude::*;

verus! {

/// How many seconds to wait for the next record before giving up.
pub const RECEIVE_TIMEOUT_SECS: u64 = 20;

/// How many characters of a title are shown at most.
pub const TITLE_LENGTH: usize = 50;

/// How to show the records.
#[derive(Debug)]
pub struct DisplayConfig {
    colors: ColorMode,
    sorting: Sorting,
    user: Option<Username>,
    limit: u32,
    links: bool,
    repositories: bool,
}

/// How to show the records, as plain values.
pub struct DisplayConfigView {
    pub colors: ColorMode,
    pub sorting: Sorting,
    pub user: Option<Seq<char>>,
    pub limit: u32,
    pub links: bool,
    pub repositories: bool,
}

/// The color of a piece of a line.
#[derive(Debug, Clone, Copy, PartialEq, Eq, Structural)]
pub enum Tint {
    Blue,
    Cyan,
    Green,
    Magenta,
    Yellow,
}

/// A piece of a line: a text, and the color to print it in, if any.
#[derive(Debug)]
pub struct Segment {
    pub text: String,
    pub color: Option<Tint>,
}

/// A piece of a line as plain values.
pub struct SegmentView {
    pub text: Seq<char>,
    pub color: Option<Tint>,
}

impl View for Segment {
    type V = SegmentView;

    open spec fn view(&self) -> SegmentView {
        SegmentView { text: self.text@, color: self.color }
    }
}

impl View for DisplayConfig {
    type V = DisplayConfigView;

    closed spec fn view(&self) -> DisplayConfigView {
        DisplayConfigView {
            colors: self.colors,
            sorting: self.sorting,
            user: match self.user {
                Some(user) => Some(user@),
                None => None,
            },
            limit: self.limit,
            links: self.links,
            repositories: self.repositories,
        }
    }
}

/// The pieces of a line as plain values.
pub open spec fn segment_views(line: Seq<Segment>) -> Seq<SegmentView> {
    line.map_values(|s: Segment| s@)
}

/// The lines as plain values.
pub open spec fn line_views(lines: Seq<Vec<Segment>>) -> Seq<Seq<SegmentView>> {
    lines.map_values(|line: Vec<Segment>| segment_views(line@))
}

/// An optional login as plain values.
pub open spec fn optional_user(user: Option<Username>) -> Option<Seq<char>> {
    match user {
        Some(user) => Some(user@),
        None => None,
    }
}

/// Whether the records are shown with their repository: not where the one
/// target of the run is a repository.
pub open spec fn shows_repository(targets: Seq<Target>) -> bool {
    !(targets.len() == 1 && targets[0] is Repository)
}

/// The first `max_length` characters of a text, or all of it where it has no
/// more.
pub open spec fn truncated(text: Seq<char>, max_length: usize) -> Seq<char> {
    if max_length < text.len() {
        text.take(max_length as int)
    } else {
        text
    }
}

/// The piece that stands between two fields of a line.
pub open spec fn delimiter() -> SegmentView {
    SegmentView { text: " | "@, color: Some(Tint::Green) }
}

/// A piece without color.
pub open spec fn plain(text: Seq<char>) -> SegmentView {
    SegmentView { text, color: None }
}

/// A piece in a color.
pub open spec fn tinted(text: Seq<char>, color: Tint) -> SegmentView {
    SegmentView { text, color: Some(color) }
}

/// Each name with `mark` before it.
pub open spec fn marked(mark: Seq<char>, names: Seq<Seq<char>>) -> Seq<Seq<char>> {
    names.map_values(|name: Seq<char>| mark + name)
}

/// The pieces that tell the kind of a record.
pub open spec fn kind_segments(kind: Type) -> Seq<SegmentView> {
    match kind {
        Type::Issue => seq![tinted("I "@, Tint::Blue), tinted("| "@, Tint::Green)],
        Type::PullRequest => seq![tinted("P "@, Tint::Magenta), tinted("| "@, Tint::Green)],
        Type::ReviewRequest => seq![
            tinted("P"@, Tint::Magenta),
            tinted("R"@, Tint::Yellow),
            tinted("| "@, Tint::Green),
        ],
    }
}

impl IssueView {
    /// The kind that a record is shown as: a pull request is shown as a
    /// review request where a review of it is requested from `user`.
    pub open spec fn shown_kind(self, user: Option<Seq<char>>) -> Type {
        match self.kind {
            Type::Issue => Type::Issue,
            _ => match user {
                Some(name) => if self.has_review_request(name) {
                    Type::ReviewRequest
                } else {
                    Type::PullRequest
                },
                None => Type::PullRequest,
            },
        }
    }

    /// The number of a record, with its repository where that is shown.
    pub open spec fn target_text(self, repositories: bool) -> Seq<char> {
        if repositories {
            "#"@ + decimal(self.number as nat) + " "@ + self.repository
        } else {
            "#"@ + decimal(self.number as nat)
        }
    }

    /// The line of a record: its kind, its number and repository, its title,
    /// its assignees and its labels where it has any, and its link where
    /// links are shown, with a delimiter between each two, and a line break.
    pub open spec fn line(self, cfg: DisplayConfigView) -> Seq<SegmentView> {
        kind_segments(self.shown_kind(cfg.user)) + seq![
            plain(self.target_text(cfg.repositories)),
            delimiter(),
            plain(truncated(self.title, TITLE_LENGTH)),
        ] + (if self.assignees.len() > 0 {
            seq![delimiter(), tinted(join(marked("@"@, self.assignees), ", "@), Tint::Cyan)]
        } else {
            Seq::empty()
        }) + (if self.labels.len() > 0 {
            seq![delimiter(), tinted(join(marked("#"@, self.labels), ", "@), Tint::Magenta)]
        } else {
            Seq::empty()
        }) + (if cfg.links {
            seq![delimiter(), tinted(self.link(), Tint::Blue)]
        } else {
            Seq::empty()
        }) + seq![plain("\n"@)]
    }
}

/// The lines of records, one for each.
pub open spec fn lines_of(records: Seq<Issue>, cfg: DisplayConfigView) -> Seq<Seq<SegmentView>> {
    records.map_values(|r: Issue| r@.line(cfg))
}

/// Whether the records are shown with their repository: not where the one
/// target of the run is a repository.
pub fn show_repository(targets: &[Target]) -> (shown: bool)
    ensures
        shown == shows_repository(targets@),
{
    if targets.len() == 1 {
        match &targets[0] {
            Target::Repository(_, _) => false,
            Target::Organization(_) => true,
        }
    } else {
        true
    }
}

/// The first `max_length` characters of `string`, or all of it where it has
/// no more.
pub fn truncate(string: String, max_length: usize) -> (cut: String)
    ensures
        cut@ == truncated(string@, max_length),
{
    let length = string.as_str().unicode_len();
    if max_length < length {
        String::from_str(string.as_str().substring_char(0, max_length))
    } else {
        string
    }
}

fn mark_logins(users: &Vec<UserFields>) -> (names: Vec<String>)
    ensures
        texts(names@) == marked("@"@, logins(users@)),
{
    let mut names: Vec<String> = Vec::new();
    let mut i: usize = 0;
    while i < users.len()
        invariant
            i <= users.len(),
            names@.len() == i,
            forall|k: int| 0 <= k < i ==> (#[trigger] names@[k])@ == "@"@ + users@[k].login@,
        decreases users.len() - i,
    {
        let mut name = String::from_str("@");
        name.append(users[i].login.as_str());
        names.push(name);
        i += 1;
    }
    assert(texts(names@) =~= marked("@"@, logins(users@)));
    names
}

fn mark_labels(labels: &Vec<Label>) -> (names: Vec<String>)
    ensures
        texts(names@) == marked("#"@, label_names(labels@)),
{
    let mut names: Vec<String> = Vec::new();
    let mut i: usize = 0;
    while i < labels.len()
        invariant
            i <= labels.len(),
            names@.len() == i,
            forall|k: int| 0 <= k < i ==> (#[trigger] names@[k])@ == "#"@ + labels@[k].name@,
        decreases labels.len() - i,
    {
        let mut name = String::from_str("#");
        name.append(labels[i].name.as_str());
        names.push(name);
        i += 1;
    }
    assert(texts(names@) =~= marked("#"@, label_names(labels@)));
    names
}

fn push_segment(line: &mut Vec<Segment>, text: String, color: Option<Tint>)
    ensures
        segment_views(final(line)@) == segment_views(old(line)@).push(
            SegmentView { text: text@, color },
        ),
{
    let segment = Segment { text, color };
    proof {
        assert(segment_views(line@.push(segment)) =~= segment_views(line@).push(segment@));
    }
    line.push(segment);
}

fn push_delimiter(line: &mut Vec<Segment>)
    ensures
        segment_views(final(line)@) == segment_views(old(line)@).push(delimiter()),
{
    push_segment(line, String::from_str(" | "), Some(Tint::Green));
}

impl DisplayConfig {
    /// How to show the records of a run with these options, made by `user` in
    /// `targets`.
    pub fn from(cfg: &Config, user: Option<Username>, targets: &[Target]) -> (display:
        DisplayConfig)
        ensures
            display@ == (DisplayConfigView {
                colors: match cfg.colors {
                    crate::cfg::Flag::True => ColorMode::Always,
                    crate::cfg::Flag::False => ColorMode::Never,
                    crate::cfg::Flag::Auto => ColorMode::Auto,
                },
                sorting: Sorting(cfg.sort_by, cfg.sort_order),
                user: optional_user(user),
                limit: cfg.limit,
                links: cfg.links,
                repositories: shows_repository(targets@),
            }),
    {
        DisplayConfig {
            colors: cfg.colors(),
            limit: cfg.limit(),
            user,
            sorting: cfg.sorting(),
            links: cfg.show_links(),
            repositories: show_repository(targets),
        }
    }

    /// When to print in color.
    pub fn colors(&self) -> (mode: ColorMode)
        ensures
            mode == self@.colors,
    {
        self.colors
    }

    /// How many records to show at most.
    pub fn limit(&self) -> (limit: u32)
        ensures
            limit == self@.limit,
    {
        self.limit
    }
}

/// The kind that `issue` is shown as: a pull request is shown as a review
/// request where a review of it is requested from the user.
pub fn shown_type(issue: &Issue, cfg: &DisplayConfig) -> (kind: Type)
    ensures
        kind == issue@.shown_kind(cfg@.user),
{
    match issue.kind {
        Type::Issue => Type::Issue,
        _ => match &cfg.user {
            Some(user) => match issue.has_review_request(user.0.as_str()) {
                true => Type::ReviewRequest,
                false => Type::PullRequest,
            },
            None => Type::PullRequest,
        },
    }
}

/// The pieces that tell the kind of `issue`, put at the end of `line`.
pub fn print_type(line: &mut Vec<Segment>, issue: &Issue, cfg: &DisplayConfig)
    ensures
        segment_views(final(line)@) == segment_views(old(line)@) + kind_segments(
            issue@.shown_kind(cfg@.user),
        ),
{
    let kind = shown_type(issue, cfg);
    match kind {
        Type::Issue => push_segment(line, String::from_str("I "), Some(Tint::Blue)),
        Type::PullRequest => push_segment(line, String::from_str("P "), Some(Tint::Magenta)),
        Type::ReviewRequest => {
            push_segment(line, String::from_str("P"), Some(Tint::Magenta));
            push_segment(line, String::from_str("R"), Some(Tint::Yellow));
        },
    };
    push_segment(line, String::from_str("| "), Some(Tint::Green));
    proof {
        assert(segment_views(line@) =~= segment_views(old(line)@) + kind_segments(kind));
    }
}

/// The line of `issue`: its kind, its number and repository, its title, its
/// assignees and its labels where it has any, and its link where links are
/// shown, with a delimiter between each two, and a line break.
pub fn print_issue(issue: &Issue, cfg: &DisplayConfig) -> (line: Vec<Segment>)
    ensures
        segment_views(line@) == issue@.line(cfg@),
{
    let title: String = truncate(issue.title.clone(), TITLE_LENGTH);
    let assignees: Vec<String> = mark_logins(&issue.assignees.nodes);
    let labels: Vec<String> = mark_labels(&issue.labels.nodes);

    let mut line: Vec<Segment> = Vec::new();
    proof {
        assert(segment_views(line@) =~= Seq::<SegmentView>::empty());
    }
    print_type(&mut line, issue, cfg);

    let mut target = String::from_str("#");
    target.append(decimal_string(issue.number).as_str());
    if cfg.repositories {
        target.append(" ");
        target.append(issue.repository.name_with_owner.as_str());
    }
    push_segment(&mut line, target, None);
    push_delimiter(&mut line);
    push_segment(&mut line, title, None);
    let ghost head = segment_views(line@);
    proof {
        assert(head =~= kind_segments(issue@.shown_kind(cfg@.user)) + seq![
            plain(issue@.target_text(cfg@.repositories)),
            delimiter(),
            plain(truncated(issue@.title, TITLE_LENGTH)),
        ]);
    }

    if assignees.len() > 0 {
        push_delimiter(&mut line);
        push_segment(&mut line, join_strings(&assignees, ", "), Some(Tint::Cyan));
    }
    let ghost with_assignees = segment_views(line@);
    proof {
        assert(with_assignees =~= head + (if issue@.assignees.len() > 0 {
            seq![delimiter(), tinted(join(marked("@"@, issue@.assignees), ", "@), Tint::Cyan)]
        } else {
            Seq::empty()
        }));
    }

    if labels.len() > 0 {
        push_delimiter(&mut line);
        push_segment(&mut line, join_strings(&labels, ", "), Some(Tint::Magenta));
    }
    let ghost with_labels = segment_views(line@);
    proof {
        assert(with_labels =~= with_assignees + (if issue@.labels.len() > 0 {
            seq![delimiter(), tinted(join(marked("#"@, issue@.labels), ", "@), Tint::Magenta)]
        } else {
            Seq::empty()
        }));
    }

    if cfg.links {
        push_delimiter(&mut line);
        push_segment(&mut line, issue.link(), Some(Tint::Blue));
    }
    let ghost with_link = segment_views(line@);
    proof {
        assert(with_link =~= with_labels + (if cfg@.links {
            seq![delimiter(), tinted(issue@.link(), Tint::Blue)]
        } else {
            Seq::empty()
        }));
    }

    push_segment(&mut line, String::from_str("\n"), None);
    proof {
        assert(segment_views(line@) =~= with_link + seq![plain("\n"@)]);
    }
    line
}

/// The text of a line, without its colors.
pub fn plain_text(line: &Vec<Segment>) -> (text: String)
    ensures
        text@ == join(segment_views(line@).map_values(|s: SegmentView| s.text), Seq::empty()),
{
    let mut text = String::new();
    let mut i: usize = 0;
    let ghost pieces = segment_views(line@).map_values(|s: SegmentView| s.text);
    while i < line.len()
        invariant
            i <= line.len(),
            pieces == segment_views(line@).map_values(|s: SegmentView| s.text),
            text@ == join(pieces.take(i as int), Seq::empty()),
        decreases line.len() - i,
    {
        proof {
            let next = pieces.take(i + 1);
            assert(next.drop_last() =~= pieces.take(i as int));
            assert(next.last() == line@[i as int].text@);
            assert(join(next, Seq::empty()) =~= join(pieces.take(i as int), Seq::empty())
                + line@[i as int].text@);
        }
        text.append(line[i].text.as_str());
        i += 1;
    }
    proof {
        assert(pieces.take(line.len() as int) =~= pieces);
    }
    text
}

/// What is shown of the records that arrived: they are arranged, and each of
/// those that stay is laid out as a line.
pub fn display(records: Vec<Issue>, cfg: &DisplayConfig) -> (lines: Vec<Vec<Segment>>)
    ensures
        line_views(lines@) == lines_of(arranged(records@, cfg@.sorting, cfg@.limit), cfg@),
{
    let shown = arrange(records, cfg.sorting, cfg.limit);
    let mut lines: Vec<Vec<Segment>> = Vec::new();
    let mut i: usize = 0;
    while i < shown.len()
        invariant
            i <= shown.len(),
            lines@.len() == i,
            forall|k: int|
                0 <= k < i ==> segment_views((#[trigger] lines@[k])@) == shown@[k]@.line(cfg@),
        decreases shown.len() - i,
    {
        lines.push(print_issue(&shown[i], cfg));
        i += 1;
    }
    proof {
        assert(line_views(lines@) =~= lines_of(shown@, cfg@));
    }
    lines
}

/// How many records the channel between the requests and the display holds:
/// twice as many as are shown at most, as far as that can be counted.
pub fn channel_capacity(limit: u32) -> (capacity: usize)
    ensures
        capacity == if 2 * limit <= usize::MAX {
            2 * limit
        } else {
            usize::MAX as int
        },
{
    let wide: u64 = 2 * (limit as u64);
    if wide > usize::MAX as u64 {
        usize::MAX
    } else {
        wide as usize
    }
}

/// What the channel of records hands over at one receive.
#[derive(Debug)]
pub enum Arrival {
    /// A record.
    Record(Issue),
    /// Nothing arrived in time.
    TimedOut,
    /// The senders are gone: nothing more will arrive.
    Disconnected,
}

/// The collection of the records that arrive: those that arrived so far, and
/// how many more are waited for.
#[derive(Debug)]
pub struct Drain {
    queue: Vec<Issue>,
    waiting_for: u64,
}

impl Drain {
    /// The records that arrived so far, in the order they arrived in.
    pub closed spec fn records(&self) -> Seq<Issue> {
        self.queue@
    }

    /// How many more records are waited for.
    pub closed spec fn waiting_for(&self) -> nat {
        self.waiting_for as nat
    }

    /// A collection that waits for three times as many records as are shown
    /// at most: some may turn out to be repetitions.
    pub fn new(limit: u32) -> (drain: Drain)
        ensures
            drain.records() == Seq::<Issue>::empty(),
            drain.waiting_for() == 3 * limit,
    {
        Drain { queue: Vec::new(), waiting_for: 3 * (limit as u64) }
    }

    /// Whether more records are waited for.
    pub fn is_waiting(&self) -> (waiting: bool)
        ensures
            waiting == (self.waiting_for() > 0),
    {
        self.waiting_for > 0
    }

    /// Takes what the channel handed over. While records are waited for, a
    /// record is added to those that arrived, the end of the senders ends the
    /// waiting, and nothing in time is an error. Once no more are waited for,
    /// nothing changes.
    pub fn receive(&mut self, arrival: Arrival) -> (outcome: Result<(), AppErr>)
        ensures
            old(self).waiting_for() == 0 ==> *final(self) == *old(self) && outcome is Ok,
            old(self).waiting_for() > 0 ==> match arrival {
                Arrival::Record(record) => {
                    &&& final(self).records() == old(self).records().push(record)
                    &&& final(self).waiting_for() == old(self).waiting_for() - 1
                    &&& outcome is Ok
                },
                Arrival::TimedOut => {
                    &&& *final(self) == *old(self)
                    &&& outcome == Err::<(), AppErr>(AppErr::Timeout)
                },
                Arrival::Disconnected => {
                    &&& final(self).records() == old(self).records()
                    &&& final(self).waiting_for() == 0
                    &&& outcome is Ok
                },
            },
    {
        if self.waiting_for == 0 {
            return Ok(());
        }
        match arrival {
            Arrival::Record(record) => {
                self.queue.push(record);
                self.waiting_for = self.waiting_for - 1;
                Ok(())
            },
            Arrival::TimedOut => Err(AppErr::Timeout),
            Arrival::Disconnected => {
                self.waiting_for = 0;
                Ok(())
            },
        }
    }

    /// The records that arrived, in the order they arrived in.
    pub fn into_records(self) -> (records: Vec<Issue>)
        ensures
            records@ == self.records(),
    {
        self.queue
    }
}

} // verus!
