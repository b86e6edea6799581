//! What a run was asked to do.

use crate::error::{AppErr, AppErrView};
use crate::list::StateFilter;
use crate::project::Project;
use crate::sort::{Order, Property, Sorting};
use crate::target::{
    clone_targets, parsed_target, regex_matches, Target, TargetView, TARGET_PATTERN,
};
use crate::text::{
    clone_strings, decimal, decimal_string, lowercase, lowered, parse_u32, parsed_u32, same_text,
};
use crate::user::Username;
use vstd::prelude::*;

verus! {

/// The options of a run.
#[derive(Debug)]
pub struct Config {
    /// The targets to search; the repository around the working directory
    /// where there are none.
    pub target: Vec<Target>,
    /// The API token.
    pub token: Option<String>,
    /// Only what is assigned to the user.
    pub assigned: bool,
    /// How many records to list at most.
    pub limit: u32,
    /// List what is open.
    pub open: bool,
    /// List what is closed.
    pub closed: bool,
    /// List issues.
    pub issues: bool,
    /// List pull requests.
    pub pull_requests: bool,
    /// List review requests.
    pub review_requests: bool,
    /// The user to ask for; the token's user where there is none.
    pub user: Option<Username>,
    /// Only what has these labels.
    pub labels: Vec<String>,
    /// Only what belongs to this project.
    pub project: Option<Project>,
    /// The property to order by.
    pub sort_by: Property,
    /// The direction to order in.
    pub sort_order: Order,
    /// Whether to print a link with each record.
    pub links: bool,
    /// Whether to print in color.
    pub colors: Flag,
    /// How much to log.
    pub verbosity: Verbosity,
    /// Whether to print how the program was built, and nothing else.
    pub debug: bool,
}

/// Yes, no, or whatever fits.
#[derive(Debug, Clone, Copy, PartialEq, Eq, Structural)]
pub enum Flag {
    True,
    False,
    Auto,
}

/// When to print in color.
#[derive(Debug, Clone, Copy, PartialEq, Eq, Structural)]
pub enum ColorMode {
    Always,
    Never,
    Auto,
}

/// How much to log, from 0, nothing, to 5, everything.
#[derive(Debug)]
pub struct Verbosity(u8);

/// Where the name of the user to ask for comes from.
#[derive(Debug)]
pub enum UsernameSource {
    /// The name was given.
    Given(Username),
    /// The name belongs to this token and has to be resolved.
    Token(String),
    /// There is neither a name nor a token.
    Unknown,
}

/// A source of the username as plain values.
pub enum UsernameSourceView {
    Given(Seq<char>),
    Token(Seq<char>),
    Unknown,
}

impl View for UsernameSource {
    type V = UsernameSourceView;

    open spec fn view(&self) -> UsernameSourceView {
        match self {
            UsernameSource::Given(name) => UsernameSourceView::Given(name@),
            UsernameSource::Token(token) => UsernameSourceView::Token(token@),
            UsernameSource::Unknown => UsernameSourceView::Unknown,
        }
    }
}

impl View for Verbosity {
    type V = u8;

    closed spec fn view(&self) -> u8 {
        self.0
    }
}

/// The highest level of verbosity.
pub const MAX_VERBOSITY: u8 = 5;

/// What `str::parse` for `u8` says against a text; the empty text where it
/// reads a number.
pub uninterp spec fn integer_error(text: Seq<char>) -> Seq<char>;

/// What is said of a number that is no level of verbosity.
pub open spec fn unsupported_level(n: u8) -> Seq<char> {
    "Unsupported verbosity level '"@ + decimal(n as nat) + "'"@
}

/// The number below 256 that a text writes, if it writes one.
pub open spec fn parsed_u8(text: Seq<char>) -> Option<u8> {
    match parsed_u32(text) {
        Some(n) => if n <= u8::MAX {
            Some(n as u8)
        } else {
            None
        },
        None => None,
    }
}

/// The level of verbosity that a text names.
pub open spec fn parsed_verbosity(text: Seq<char>) -> Result<u8, Seq<char>> {
    match parsed_u8(text) {
        Some(n) => if n <= MAX_VERBOSITY {
            Ok(n)
        } else {
            Err(unsupported_level(n))
        },
        None => Err(integer_error(text)),
    }
}

/// A parse result as plain values.
pub open spec fn verbosity_result(r: Result<Verbosity, String>) -> Result<u8, Seq<char>> {
    match r {
        Ok(v) => Ok(v@),
        Err(e) => Err(e@),
    }
}

/// A number or an error text as plain values.
pub open spec fn number_result(r: Result<u8, String>) -> Result<u8, Seq<char>> {
    match r {
        Ok(n) => Ok(n),
        Err(e) => Err(e@),
    }
}

/// `str::parse` for `u8`, with `ToString::to_string` on its error: the text
/// of the error is determined by the text that was to be read.
#[verifier::external_body]
fn parse_error(s: &str) -> (message: String)
    ensures
        message@ == integer_error(s@),
{
    match s.parse::<u8>() {
        Ok(_) => String::new(),
        Err(e) => e.to_string(),
    }
}

/// Reads a number below 256: an optional plus sign, then decimal digits.
fn parse_u8(s: &str) -> (n: Result<u8, String>)
    ensures
        number_result(n) == match parsed_u8(s@) {
            Some(n) => Ok::<u8, Seq<char>>(n),
            None => Err::<u8, Seq<char>>(integer_error(s@)),
        },
{
    match parse_u32(s) {
        Some(n) => if n <= 255 {
            Ok(n as u8)
        } else {
            Err(parse_error(s))
        },
        None => Err(parse_error(s)),
    }
}

/// The severity from which on messages are logged.
#[derive(Debug, Clone, Copy, PartialEq, Eq, Structural)]
pub enum LogLevel {
    Off,
    Error,
    Warn,
    Info,
    Debug,
    Trace,
}

/// The severity from which on messages are logged at a level of verbosity.
pub open spec fn log_level_of(level: u8) -> LogLevel {
    if level == 0 {
        LogLevel::Off
    } else if level == 1 {
        LogLevel::Error
    } else if level == 2 {
        LogLevel::Warn
    } else if level == 3 {
        LogLevel::Info
    } else if level == 4 {
        LogLevel::Debug
    } else {
        LogLevel::Trace
    }
}

impl Verbosity {
    #[verifier::type_invariant]
    spec fn in_range(self) -> bool {
        self.0 <= MAX_VERBOSITY
    }

    /// The severity from which on messages are logged.
    pub fn log_level(&self) -> (level: LogLevel)
        ensures
            self@ <= MAX_VERBOSITY,
            level == log_level_of(self@),
    {
        proof {
            use_type_invariant(self);
        }
        if self.0 == 0 {
            LogLevel::Off
        } else if self.0 == 1 {
            LogLevel::Error
        } else if self.0 == 2 {
            LogLevel::Warn
        } else if self.0 == 3 {
            LogLevel::Info
        } else if self.0 == 4 {
            LogLevel::Debug
        } else {
            LogLevel::Trace
        }
    }

    /// The level `n`, for `n` from 0 to 5.
    pub fn new(n: u8) -> (verbosity: Option<Verbosity>)
        ensures
            match verbosity {
                Some(v) => n <= MAX_VERBOSITY && v@ == n,
                None => n > MAX_VERBOSITY,
            },
    {
        if n <= MAX_VERBOSITY {
            Some(Verbosity(n))
        } else {
            None
        }
    }

    /// The level as a number, from 0 to 5.
    pub fn level(&self) -> (n: u8)
        ensures
            n == self@,
            n <= MAX_VERBOSITY,
    {
        proof {
            use_type_invariant(self);
        }
        self.0
    }

    /// The level that the result of reading a number stands for.
    pub fn from_number(number: Result<u8, String>) -> (verbosity: Result<Verbosity, String>)
        ensures
            verbosity_result(verbosity) == match number {
                Ok(n) => if n <= MAX_VERBOSITY {
                    Ok::<u8, Seq<char>>(n)
                } else {
                    Err::<u8, Seq<char>>(unsupported_level(n))
                },
                Err(e) => Err::<u8, Seq<char>>(e@),
            },
    {
        match number {
            Ok(n) => {
                if n <= MAX_VERBOSITY {
                    Ok(Verbosity(n))
                } else {
                    let mut message = String::from_str("Unsupported verbosity level '");
                    message.append(decimal_string(n as u32).as_str());
                    message.append("'");
                    Err(message)
                }
            },
            Err(e) => Err(e),
        }
    }

    /// Reads a level of verbosity: a number from 0 to 5.
    pub fn from_str(s: &str) -> (verbosity: Result<Verbosity, String>)
        ensures
            verbosity_result(verbosity) == parsed_verbosity(s@),
    {
        Verbosity::from_number(parse_u8(s))
    }
}

impl std::str::FromStr for Verbosity {
    type Err = String;

    fn from_str(s: &str) -> (verbosity: Result<Verbosity, String>)
        ensures
            verbosity_result(verbosity) == parsed_verbosity(s@),
    {
        Verbosity::from_str(s)
    }
}

/// What is said of a text that names no flag.
pub open spec fn unrecognized(text: Seq<char>) -> Seq<char> {
    "Unrecognized option "@ + text
}

/// The flag that a lowercase word names.
pub open spec fn flag_named(word: Seq<char>) -> Option<Flag> {
    if word == "true"@ || word == "on"@ {
        Some(Flag::True)
    } else if word == "false"@ || word == "off"@ {
        Some(Flag::False)
    } else if word == "auto"@ {
        Some(Flag::Auto)
    } else {
        None
    }
}

/// A parse result as plain values.
pub open spec fn flag_result(r: Result<Flag, String>) -> Result<Flag, Seq<char>> {
    match r {
        Ok(f) => Ok(f),
        Err(e) => Err(e@),
    }
}

impl Flag {
    /// The flag that `word` names, which is `text` in lowercase.
    pub fn from_lowercase(word: &str, text: &str) -> (flag: Result<Flag, String>)
        ensures
            flag_result(flag) == match flag_named(word@) {
                Some(f) => Ok::<Flag, Seq<char>>(f),
                None => Err::<Flag, Seq<char>>(unrecognized(text@)),
            },
    {
        if same_text(word, "true") || same_text(word, "on") {
            Ok(Flag::True)
        } else if same_text(word, "false") || same_text(word, "off") {
            Ok(Flag::False)
        } else if same_text(word, "auto") {
            Ok(Flag::Auto)
        } else {
            let mut message = String::from_str("Unrecognized option ");
            message.append(text);
            Err(message)
        }
    }

    /// Reads a flag: `true` or `on`, `false` or `off`, or `auto`, in any mix of
    /// upper and lower case.
    pub fn from_str(s: &str) -> (flag: Result<Flag, String>)
        ensures
            flag_result(flag) == match flag_named(lowered(s@)) {
                Some(f) => Ok::<Flag, Seq<char>>(f),
                None => Err::<Flag, Seq<char>>(unrecognized(s@)),
            },
    {
        let word = lowercase(s);
        Flag::from_lowercase(word.as_str(), s)
    }
}

impl std::str::FromStr for Flag {
    type Err = String;

    fn from_str(s: &str) -> (flag: Result<Flag, String>)
        ensures
            flag_result(flag) == match flag_named(lowered(s@)) {
                Some(f) => Ok::<Flag, Seq<char>>(f),
                None => Err::<Flag, Seq<char>>(unrecognized(s@)),
            },
    {
        Flag::from_str(s)
    }
}

/// A token or an error as plain values.
pub open spec fn token_result(r: Result<String, AppErr>) -> Result<Seq<char>, AppErrView> {
    match r {
        Ok(token) => Ok(token@),
        Err(e) => Err(e@),
    }
}

/// A list of targets or an error as plain values.
pub open spec fn targets_result(r: Result<Vec<Target>, AppErr>) -> Result<
    Seq<TargetView>,
    AppErrView,
> {
    match r {
        Ok(targets) => Ok(targets@.map_values(|t: Target| t@)),
        Err(e) => Err(e@),
    }
}

impl Config {
    /// The state to list: what is closed where only that is asked for, both
    /// where both are, and else what is open.
    pub open spec fn state_filter(self) -> StateFilter {
        if self.open && self.closed {
            StateFilter::All
        } else if self.closed {
            StateFilter::Closed
        } else {
            StateFilter::Open
        }
    }

    /// Whether no kind of resource was picked, which asks for all of them.
    pub open spec fn no_kind_picked(self) -> bool {
        !self.issues && !self.pull_requests && !self.review_requests
    }

    /// The targets of the run. Where none was given, `ambient` is read as one,
    /// the name of the repository around the working directory.
    pub open spec fn resolved_targets(self, ambient: Option<Seq<char>>) -> Result<
        Seq<TargetView>,
        AppErrView,
    > {
        if self.target@.len() == 0 {
            match ambient {
                Some(repo) => match parsed_target(regex_matches(TARGET_PATTERN@, repo), repo) {
                    Ok(target) => Ok(seq![target]),
                    Err(_) => Err(AppErrView::InvalidTarget(repo)),
                },
                None => Err(AppErrView::NoTarget),
            }
        } else {
            Ok(self.target@.map_values(|t: Target| t@))
        }
    }

    /// The API token; its absence is an error.
    pub fn token(&self) -> (token: Result<String, AppErr>)
        ensures
            token_result(token) == match self.token {
                Some(t) => Ok::<Seq<char>, AppErrView>(t@),
                None => Err::<Seq<char>, AppErrView>(AppErrView::MissingToken),
            },
    {
        match &self.token {
            Some(token) => Ok(token.clone()),
            None => Err(AppErr::MissingToken),
        }
    }

    /// Where the name of the user comes from: it was given, or it has to be
    /// resolved from the token, or there is neither.
    pub fn username(&self) -> (source: UsernameSource)
        ensures
            source@ == match self.user {
                Some(user) => UsernameSourceView::Given(user@),
                None => match self.token {
                    Some(token) => UsernameSourceView::Token(token@),
                    None => UsernameSourceView::Unknown,
                },
            },
    {
        match &self.user {
            Some(user) => UsernameSource::Given(user.clone()),
            None => match &self.token {
                Some(token) => UsernameSource::Token(token.clone()),
                None => UsernameSource::Unknown,
            },
        }
    }

    /// Whether the repository around the working directory has to stand in
    /// for the targets.
    pub fn needs_ambient_target(&self) -> (needed: bool)
        ensures
            needed == (self.target@.len() == 0),
    {
        self.target.len() == 0
    }

    /// The targets of the run. Where none was given, `ambient` is read as one:
    /// the name of the repository around the working directory, if there is
    /// one.
    pub fn target(&self, ambient: Option<String>) -> (targets: Result<Vec<Target>, AppErr>)
        ensures
            targets_result(targets) == self.resolved_targets(
                match ambient {
                    Some(repo) => Some(repo@),
                    None => None,
                },
            ),
    {
        if self.target.len() == 0 {
            match ambient {
                Some(repo) => match Target::from_str(repo.as_str()) {
                    Ok(target) => {
                        let mut targets: Vec<Target> = Vec::new();
                        targets.push(target);
                        proof {
                            assert(targets@.map_values(|t: Target| t@) =~= seq![target@]);
                        }
                        Ok(targets)
                    },
                    Err(_) => Err(AppErr::InvalidTarget(repo)),
                },
                None => Err(AppErr::NoTarget),
            }
        } else {
            Ok(clone_targets(self.target.as_slice()))
        }
    }

    /// How many records to list at most.
    pub fn limit(&self) -> (limit: u32)
        ensures
            limit == self.limit,
    {
        self.limit
    }

    /// The state to list.
    pub fn state(&self) -> (state: StateFilter)
        ensures
            state == self.state_filter(),
    {
        if self.open && self.closed {
            StateFilter::All
        } else if self.closed {
            StateFilter::Closed
        } else {
            StateFilter::Open
        }
    }

    /// Whether only what is assigned to the user is listed.
    pub fn assigned_only(&self) -> (assigned: bool)
        ensures
            assigned == self.assigned,
    {
        self.assigned
    }

    /// Whether no kind of resource was picked, which asks for all of them.
    pub fn all(&self) -> (all: bool)
        ensures
            all == self.no_kind_picked(),
    {
        !self.issues && !self.pull_requests && !self.review_requests
    }

    /// Whether issues are listed.
    pub fn issues(&self) -> (listed: bool)
        ensures
            listed == (self.issues || self.no_kind_picked()),
    {
        self.issues || self.all()
    }

    /// Whether review requests are listed.
    pub fn reviews(&self) -> (listed: bool)
        ensures
            listed == (self.review_requests || self.no_kind_picked()),
    {
        self.review_requests || self.all()
    }

    /// Whether pull requests are listed.
    pub fn pulls(&self) -> (listed: bool)
        ensures
            listed == (self.pull_requests || self.no_kind_picked()),
    {
        self.pull_requests || self.all()
    }

    /// The labels to filter by.
    pub fn label(&self) -> (labels: Vec<String>)
        ensures
            labels@ == self.labels@,
    {
        clone_strings(&self.labels)
    }

    /// The project to filter by.
    pub fn project(&self) -> (project: Option<Project>)
        ensures
            match project {
                Some(q) => self.project matches Some(p) && q@ == p@,
                None => self.project is None,
            },
    {
        match &self.project {
            Some(p) => Some(p.clone()),
            None => None,
        }
    }

    /// The property and the direction to order by.
    pub fn sorting(&self) -> (sorting: Sorting)
        ensures
            sorting == Sorting(self.sort_by, self.sort_order),
    {
        Sorting(self.sort_by, self.sort_order)
    }

    /// Whether a link is printed with each record.
    pub fn show_links(&self) -> (links: bool)
        ensures
            links == self.links,
    {
        self.links
    }

    /// How much to log.
    pub fn verbosity(&self) -> (verbosity: &Verbosity)
        ensures
            verbosity == &self.verbosity,
    {
        &self.verbosity
    }

    /// When to print in color.
    pub fn colors(&self) -> (mode: ColorMode)
        ensures
            mode == match self.colors {
                Flag::True => ColorMode::Always,
                Flag::False => ColorMode::Never,
                Flag::Auto => ColorMode::Auto,
            },
    {
        match self.colors {
            Flag::True => ColorMode::Always,
            Flag::False => ColorMode::Never,
            Flag::Auto => ColorMode::Auto,
        }
    }

    /// Whether to print how the program was built, and nothing else.
    pub fn print_debug(&self) -> (debug: bool)
        ensures
            debug == self.debug,
    {
        self.debug
    }
}

} // verus!
