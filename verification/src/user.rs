//! Who is asking: the login of the token's user, and where it is kept between
//! runs.

use crate::search::{GraphQLQuery, GraphQLQueryView, Variables, VariablesView};
use sha2::{Digest, Sha256};
use vstd::prelude::*;

verus! {

/// The text of the query for the token's user.
pub const GET_USER_QUERY: &'static str = "\
    query GetUser {\n\
    viewer {\n\
    login\n\
    id\n\
    }\n\
    }\n\
";

/// The name of the operation in `GET_USER_QUERY`.
pub const GET_USER_OPERATION: &'static str = "GetUser";

/// The directory, below the user's home directory, that holds one file for
/// each token: the file is named by the token's hash and holds the login.
pub const USERS_DIR: &'static str = ".config/giss/usernames";

/// A user as the API describes them.
#[derive(Debug)]
pub struct User {
    pub login: String,
    pub id: String,
}

/// A login.
#[derive(Debug)]
pub struct Username(pub String);

/// What to do to learn the login that belongs to a token.
#[derive(Debug)]
pub enum Resolution {
    /// The login was kept from an earlier run: no request is made.
    Cached(Username),
    /// Nothing was kept: the API is asked once, and its answer is kept.
    Lookup,
}

/// A resolution as plain values.
pub enum ResolutionView {
    Cached(Seq<char>),
    Lookup,
}

impl View for Username {
    type V = Seq<char>;

    open spec fn view(&self) -> Seq<char> {
        self.0@
    }
}

impl View for Resolution {
    type V = ResolutionView;

    open spec fn view(&self) -> ResolutionView {
        match self {
            Resolution::Cached(name) => ResolutionView::Cached(name@),
            Resolution::Lookup => ResolutionView::Lookup,
        }
    }
}

/// What to do for a token, given what is kept for it: a login that is kept is
/// used, and only where none is kept is the API asked.
pub open spec fn resolution_of(cached: Option<Seq<char>>) -> ResolutionView {
    match cached {
        Some(login) => ResolutionView::Cached(login),
        None => ResolutionView::Lookup,
    }
}

/// The SHA-256 digest of a text's UTF-8 bytes.
pub uninterp spec fn sha256(text: Seq<char>) -> Seq<u8>;

/// `Sha256::new`, `Digest::input` with the text, then `Digest::result`: the
/// digest is determined by the text.
#[verifier::external_body]
fn sha256_digest(text: &str) -> (digest: Vec<u8>)
    ensures
        digest@ == sha256(text@),
{
    let mut hasher = Sha256::new();
    hasher.input(text);
    hasher.result().to_vec()
}

/// The hexadecimal digit that stands for `d`, for `d` below sixteen.
pub open spec fn hex_char(d: u8) -> char {
    if d == 0 {
        '0'
    } else if d == 1 {
        '1'
    } else if d == 2 {
        '2'
    } else if d == 3 {
        '3'
    } else if d == 4 {
        '4'
    } else if d == 5 {
        '5'
    } else if d == 6 {
        '6'
    } else if d == 7 {
        '7'
    } else if d == 8 {
        '8'
    } else if d == 9 {
        '9'
    } else if d == 10 {
        'a'
    } else if d == 11 {
        'b'
    } else if d == 12 {
        'c'
    } else if d == 13 {
        'd'
    } else if d == 14 {
        'e'
    } else {
        'f'
    }
}

/// Bytes in hexadecimal: two lowercase digits for each byte.
pub open spec fn hex(bytes: Seq<u8>) -> Seq<char>
    decreases bytes.len(),
{
    if bytes.len() == 0 {
        Seq::empty()
    } else {
        hex(bytes.drop_last()).push(hex_char(bytes.last() / 16)).push(hex_char(bytes.last() % 16))
    }
}

/// The name of the file that keeps the login for `token`.
pub open spec fn token_hash(token: Seq<char>) -> Seq<char> {
    hex(sha256(token))
}

fn hex_str(d: u8) -> (s: &'static str)
    requires
        d < 16,
    ensures
        s@ == seq![hex_char(d)],
{
    proof {
        reveal_strlit("0");
        reveal_strlit("1");
        reveal_strlit("2");
        reveal_strlit("3");
        reveal_strlit("4");
        reveal_strlit("5");
        reveal_strlit("6");
        reveal_strlit("7");
        reveal_strlit("8");
        reveal_strlit("9");
        reveal_strlit("a");
        reveal_strlit("b");
        reveal_strlit("c");
        reveal_strlit("d");
        reveal_strlit("e");
        reveal_strlit("f");
    }
    let s = if d == 0 {
        "0"
    } else if d == 1 {
        "1"
    } else if d == 2 {
        "2"
    } else if d == 3 {
        "3"
    } else if d == 4 {
        "4"
    } else if d == 5 {
        "5"
    } else if d == 6 {
        "6"
    } else if d == 7 {
        "7"
    } else if d == 8 {
        "8"
    } else if d == 9 {
        "9"
    } else if d == 10 {
        "a"
    } else if d == 11 {
        "b"
    } else if d == 12 {
        "c"
    } else if d == 13 {
        "d"
    } else if d == 14 {
        "e"
    } else {
        "f"
    };
    assert(s@ =~= seq![hex_char(d)]);
    s
}

/// Writes bytes in hexadecimal, two lowercase digits for each byte.
pub fn hex_string(bytes: &Vec<u8>) -> (s: String)
    ensures
        s@ == hex(bytes@),
{
    let mut s = String::new();
    let mut i: usize = 0;
    while i < bytes.len()
        invariant
            i <= bytes.len(),
            s@ == hex(bytes@.take(i as int)),
        decreases bytes.len() - i,
    {
        proof {
            let upto = bytes@.take(i + 1);
            assert(upto.drop_last() =~= bytes@.take(i as int));
            assert(upto.last() == bytes@[i as int]);
        }
        let byte = bytes[i];
        s.append(hex_str(byte / 16));
        s.append(hex_str(byte % 16));
        proof {
            assert(s@ =~= hex(bytes@.take(i + 1)));
        }
        i += 1;
    }
    proof {
        assert(bytes@.take(bytes.len() as int) =~= bytes@);
    }
    s
}

/// The name of the file that keeps the login for `token`: the token's SHA-256
/// digest in hexadecimal. The token itself is never written.
pub fn hash_token(token: &str) -> (name: String)
    ensures
        name@ == token_hash(token@),
{
    let digest = sha256_digest(token);
    hex_string(&digest)
}

/// The request for the token's user: it takes no variables.
pub fn viewer_query() -> (request: GraphQLQuery)
    ensures
        request@ == (GraphQLQueryView {
            query: GET_USER_QUERY@,
            variables: VariablesView::Nothing,
            operation_name: GET_USER_OPERATION@,
        }),
{
    GraphQLQuery {
        query: String::from_str(GET_USER_QUERY),
        variables: Variables::Nothing,
        operation_name: String::from_str(GET_USER_OPERATION),
    }
}

impl Username {
    /// The login that `s` holds. Never fails.
    pub fn from_str(s: &str) -> (name: Result<Username, String>)
        ensures
            match name {
                Ok(n) => n@ == s@,
                Err(_) => false,
            },
    {
        Ok(Username(String::from_str(s)))
    }

    /// What to do for a token, given what its cache file holds, if it exists:
    /// a login that was kept is used as it is, and only where none was kept is
    /// the API asked.
    pub fn from_cache(cached: Option<String>) -> (resolution: Resolution)
        ensures
            resolution@ == resolution_of(
                match cached {
                    Some(login) => Some(login@),
                    None => None,
                },
            ),
    {
        match cached {
            Some(login) => Resolution::Cached(Username(login)),
            None => Resolution::Lookup,
        }
    }

    /// The login of a user that the API described.
    pub fn from_user(user: User) -> (name: Username)
        ensures
            name@ == user.login@,
    {
        Username(user.login)
    }
}

impl Clone for Username {
    fn clone(&self) -> (copy: Username)
        ensures
            copy == *self,
    {
        Username(self.0.clone())
    }
}

impl std::str::FromStr for Username {
    type Err = String;

    fn from_str(s: &str) -> (name: Result<Username, String>)
        ensures
            match name {
                Ok(n) => n@ == s@,
                Err(_) => false,
            },
    {
        Username::from_str(s)
    }
}

/// What resolving a token comes to: the login, the logins that are kept after
/// it, and how often the API was asked.
pub struct Resolved {
    pub login: Seq<char>,
    pub kept: Map<Seq<char>, Seq<char>>,
    pub lookups: nat,
}

/// What is kept for a token: the content of the file that its hash names.
pub open spec fn kept_for(kept: Map<Seq<char>, Seq<char>>, token: Seq<char>) -> Option<Seq<char>> {
    if kept.contains_key(token_hash(token)) {
        Some(kept[token_hash(token)])
    } else {
        None
    }
}

/// Resolving `token` by the steps of `Username::from_cache`, where `kept` maps
/// the names of the files that are there to their contents, and `answer` is
/// the login that the API gives if it is asked: a login that is kept is used;
/// else the API is asked once and its answer is kept under the token's hash.
pub open spec fn resolve(kept: Map<Seq<char>, Seq<char>>, token: Seq<char>, answer: Seq<char>)
    -> Resolved {
    match resolution_of(kept_for(kept, token)) {
        ResolutionView::Cached(login) => Resolved { login, kept, lookups: 0 },
        ResolutionView::Lookup => Resolved {
            login: answer,
            kept: kept.insert(token_hash(token), answer),
            lookups: 1,
        },
    }
}

/// Resolving a token twice asks the API at most once: the second time the
/// login is found where the first time kept it, whatever the API would
/// answer then. It is asked exactly once if nothing was kept for the token
/// before.
pub proof fn law_second_resolve_asks_nothing(
    kept: Map<Seq<char>, Seq<char>>,
    token: Seq<char>,
    first_answer: Seq<char>,
    second_answer: Seq<char>,
)
    ensures
        ({
            let first = resolve(kept, token, first_answer);
            let second = resolve(first.kept, token, second_answer);
            &&& second.lookups == 0
            &&& second.login == first.login
            &&& second.kept == first.kept
            &&& first.lookups + second.lookups == if kept_for(kept, token) is None {
                1nat
            } else {
                0nat
            }
        }),
{
}

} // verus!
