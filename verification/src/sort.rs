//! How the records are ordered: by which property, and in which direction.

use crate::issue::{Issue, IssueView};
use crate::text::{lowercase, lowered, same_text, text_before, text_lt};
use std::cmp::Ordering;
use vstd::prelude::*;

verus! {

/// The property to order by, and the direction.
#[derive(Debug, Clone, Copy)]
pub struct Sorting(pub Property, pub Order);

/// A property that records can be ordered by.
#[derive(Debug, Clone, Copy, PartialEq, Eq, Structural)]
pub enum Property {
    Created,
    Updated,
    Comments,
    Reactions,
}

/// The direction of an ordering.
#[derive(Debug, Clone, Copy, PartialEq, Eq, Structural)]
pub enum Order {
    Descending,
    Ascending,
}

/// How two texts stand to each other in dictionary order.
pub open spec fn text_ordering(a: Seq<char>, b: Seq<char>) -> Ordering {
    if text_lt(a, b) {
        Ordering::Less
    } else if a == b {
        Ordering::Equal
    } else {
        Ordering::Greater
    }
}

/// How two counts stand to each other.
pub open spec fn count_ordering(a: u32, b: u32) -> Ordering {
    if a < b {
        Ordering::Less
    } else if a == b {
        Ordering::Equal
    } else {
        Ordering::Greater
    }
}

/// `ordering` turned round.
pub open spec fn opposite_ordering(ordering: Ordering) -> Ordering {
    match ordering {
        Ordering::Less => Ordering::Greater,
        Ordering::Equal => Ordering::Equal,
        Ordering::Greater => Ordering::Less,
    }
}

impl Property {
    /// How `a` stands to `b` by this property, smaller values first. Timestamps
    /// are compared as texts.
    pub open spec fn compared(self, a: IssueView, b: IssueView) -> Ordering {
        match self {
            Property::Created => text_ordering(a.created_at, b.created_at),
            Property::Updated => text_ordering(a.updated_at, b.updated_at),
            Property::Comments => count_ordering(a.comments, b.comments),
            Property::Reactions => count_ordering(a.reactions, b.reactions),
        }
    }

    /// The property's name in a query.
    pub open spec fn name(self) -> Seq<char> {
        match self {
            Property::Created => "created"@,
            Property::Updated => "updated"@,
            Property::Comments => "comments"@,
            Property::Reactions => "reactions"@,
        }
    }

    /// The property that a lowercase word names.
    pub open spec fn named(word: Seq<char>) -> Option<Property> {
        if word == "created"@ {
            Some(Property::Created)
        } else if word == "updated"@ {
            Some(Property::Updated)
        } else if word == "comments"@ {
            Some(Property::Comments)
        } else if word == "reactions"@ {
            Some(Property::Reactions)
        } else {
            None
        }
    }

    /// Compares two records by this property, smaller values first.
    pub fn sort(&self, i0: &Issue, i1: &Issue) -> (ordering: Ordering)
        ensures
            ordering == self.compared(i0@, i1@),
    {
        match self {
            Property::Created => compare_texts(i0.created_at.as_str(), i1.created_at.as_str()),
            Property::Updated => compare_texts(i0.updated_at.as_str(), i1.updated_at.as_str()),
            Property::Comments => compare_counts(i0.comments.total_count, i1.comments.total_count),
            Property::Reactions => compare_counts(
                i0.reactions.total_count,
                i1.reactions.total_count,
            ),
        }
    }

    /// The property that `word` names, which is already in lowercase.
    pub fn from_lowercase(word: &str) -> (property: Result<Property, &'static str>)
        ensures
            match Property::named(word@) {
                Some(p) => property == Ok::<Property, &'static str>(p),
                None => property matches Err(message) && message@ == "Invalid property"@,
            },
    {
        if same_text(word, "created") {
            Ok(Property::Created)
        } else if same_text(word, "updated") {
            Ok(Property::Updated)
        } else if same_text(word, "comments") {
            Ok(Property::Comments)
        } else if same_text(word, "reactions") {
            Ok(Property::Reactions)
        } else {
            Err("Invalid property")
        }
    }

    /// The property that `s` names, in any mix of upper and lower case.
    pub fn from_str(s: &str) -> (property: Result<Property, &'static str>)
        ensures
            match Property::named(lowered(s@)) {
                Some(p) => property == Ok::<Property, &'static str>(p),
                None => property matches Err(message) && message@ == "Invalid property"@,
            },
    {
        let word = lowercase(s);
        Property::from_lowercase(word.as_str())
    }

    /// The property's name in a query.
    pub fn to_string(&self) -> (s: String)
        ensures
            s@ == self.name(),
    {
        match self {
            Property::Created => String::from_str("created"),
            Property::Updated => String::from_str("updated"),
            Property::Comments => String::from_str("comments"),
            Property::Reactions => String::from_str("reactions"),
        }
    }
}

impl Order {
    /// `ordering` as it is for ascending order, turned round for descending.
    pub open spec fn directed(self, ordering: Ordering) -> Ordering {
        match self {
            Order::Ascending => ordering,
            Order::Descending => opposite_ordering(ordering),
        }
    }

    /// The direction's name in a query.
    pub open spec fn name(self) -> Seq<char> {
        match self {
            Order::Ascending => "asc"@,
            Order::Descending => "desc"@,
        }
    }

    /// The direction that a lowercase word names.
    pub open spec fn named(word: Seq<char>) -> Option<Order> {
        if word == "asc"@ || word == "ascending"@ {
            Some(Order::Ascending)
        } else if word == "desc"@ || word == "descending"@ {
            Some(Order::Descending)
        } else {
            None
        }
    }

    /// Applies the direction to an ordering that was made smaller values first.
    pub fn order(&self, order: Ordering) -> (directed: Ordering)
        ensures
            directed == self.directed(order),
    {
        match self {
            Order::Ascending => order,
            Order::Descending => match order {
                Ordering::Less => Ordering::Greater,
                Ordering::Equal => Ordering::Equal,
                Ordering::Greater => Ordering::Less,
            },
        }
    }

    /// The direction that `word` names, which is already in lowercase.
    pub fn from_lowercase(word: &str) -> (direction: Result<Order, &'static str>)
        ensures
            match Order::named(word@) {
                Some(o) => direction == Ok::<Order, &'static str>(o),
                None => direction matches Err(message) && message@ == "Invalid sort order"@,
            },
    {
        if same_text(word, "asc") || same_text(word, "ascending") {
            Ok(Order::Ascending)
        } else if same_text(word, "desc") || same_text(word, "descending") {
            Ok(Order::Descending)
        } else {
            Err("Invalid sort order")
        }
    }

    /// The direction that `s` names, in any mix of upper and lower case.
    pub fn from_str(s: &str) -> (direction: Result<Order, &'static str>)
        ensures
            match Order::named(lowered(s@)) {
                Some(o) => direction == Ok::<Order, &'static str>(o),
                None => direction matches Err(message) && message@ == "Invalid sort order"@,
            },
    {
        let word = lowercase(s);
        Order::from_lowercase(word.as_str())
    }

    /// The direction's name in a query.
    pub fn to_string(&self) -> (s: String)
        ensures
            s@ == self.name(),
    {
        match self {
            Order::Ascending => String::from_str("asc"),
            Order::Descending => String::from_str("desc"),
        }
    }
}

impl Sorting {
    /// How `a` stands to `b`: by the property, in the direction.
    pub open spec fn compared(self, a: IssueView, b: IssueView) -> Ordering {
        self.1.directed(self.0.compared(a, b))
    }

    /// Whether `a` has to come before `b`.
    pub open spec fn before(self, a: IssueView, b: IssueView) -> bool {
        self.compared(a, b) == Ordering::Less
    }

    /// The property and the direction as a query writes them.
    pub open spec fn name(self) -> Seq<char> {
        self.0.name() + "-"@ + self.1.name()
    }

    /// Compares two records by the property, in the direction.
    pub fn sort(&self, i0: &Issue, i1: &Issue) -> (ordering: Ordering)
        ensures
            ordering == self.compared(i0@, i1@),
    {
        self.1.order(self.0.sort(i0, i1))
    }

    /// Whether `i0` has to come before `i1`.
    pub fn precedes(&self, i0: &Issue, i1: &Issue) -> (before: bool)
        ensures
            before == self.before(i0@, i1@),
    {
        match self.sort(i0, i1) {
            Ordering::Less => true,
            _ => false,
        }
    }

    /// The property and the direction as a query writes them.
    pub fn to_string(&self) -> (s: String)
        ensures
            s@ == self.name(),
    {
        let mut s = self.0.to_string();
        s.append("-");
        s.append(self.1.to_string().as_str());
        s
    }
}

impl std::str::FromStr for Property {
    type Err = &'static str;

    fn from_str(s: &str) -> (property: Result<Property, &'static str>)
        ensures
            match Property::named(lowered(s@)) {
                Some(p) => property == Ok::<Property, &'static str>(p),
                None => property matches Err(message) && message@ == "Invalid property"@,
            },
    {
        Property::from_str(s)
    }
}

impl std::str::FromStr for Order {
    type Err = &'static str;

    fn from_str(s: &str) -> (direction: Result<Order, &'static str>)
        ensures
            match Order::named(lowered(s@)) {
                Some(o) => direction == Ok::<Order, &'static str>(o),
                None => direction matches Err(message) && message@ == "Invalid sort order"@,
            },
    {
        Order::from_str(s)
    }
}

impl Default for Property {
    fn default() -> (property: Property)
        ensures
            property == Property::Updated,
    {
        Property::Updated
    }
}

impl Default for Order {
    fn default() -> (direction: Order)
        ensures
            direction == Order::Descending,
    {
        Order::Descending
    }
}

fn compare_texts(a: &str, b: &str) -> (ordering: Ordering)
    ensures
        ordering == text_ordering(a@, b@),
{
    if text_before(a, b) {
        Ordering::Less
    } else if same_text(a, b) {
        Ordering::Equal
    } else {
        Ordering::Greater
    }
}

fn compare_counts(a: u32, b: u32) -> (ordering: Ordering)
    ensures
        ordering == count_ordering(a, b),
{
    if a < b {
        Ordering::Less
    } else if a == b {
        Ordering::Equal
    } else {
        Ordering::Greater
    }
}

/// No record comes before itself.
pub proof fn lemma_before_irreflexive(sorting: Sorting, a: IssueView)
    ensures
        !sorting.before(a, a),
{
    crate::text::lemma_text_lt_irreflexive(a.created_at);
    crate::text::lemma_text_lt_irreflexive(a.updated_at);
}

/// If `a` comes before `b`, then `b` does not come before `a`.
pub proof fn lemma_before_asymmetric(sorting: Sorting, a: IssueView, b: IssueView)
    requires
        sorting.before(a, b),
    ensures
        !sorting.before(b, a),
{
    if sorting.before(b, a) {
        lemma_before_transitive(sorting, a, b, a);
        lemma_before_irreflexive(sorting, a);
    }
}

/// Coming before is transitive.
pub proof fn lemma_before_transitive(sorting: Sorting, a: IssueView, b: IssueView, c: IssueView)
    requires
        sorting.before(a, b),
        sorting.before(b, c),
    ensures
        sorting.before(a, c),
{
    match sorting.0 {
        Property::Created => {
            lemma_text_chain(sorting.1, a.created_at, b.created_at, c.created_at);
        },
        Property::Updated => {
            lemma_text_chain(sorting.1, a.updated_at, b.updated_at, c.updated_at);
        },
        _ => {},
    }
}

/// Records that neither come before nor after one another form classes: if
/// `a` does not come before `b`, nor `b` before `c`, then `a` does not come
/// before `c`.
pub proof fn lemma_not_before_transitive(
    sorting: Sorting,
    a: IssueView,
    b: IssueView,
    c: IssueView,
)
    requires
        !sorting.before(a, b),
        !sorting.before(b, c),
    ensures
        !sorting.before(a, c),
{
    match sorting.0 {
        Property::Created => {
            lemma_text_chain_weak(sorting.1, a.created_at, b.created_at, c.created_at);
        },
        Property::Updated => {
            lemma_text_chain_weak(sorting.1, a.updated_at, b.updated_at, c.updated_at);
        },
        _ => {},
    }
}

proof fn lemma_text_chain(direction: Order, a: Seq<char>, b: Seq<char>, c: Seq<char>)
    requires
        direction.directed(text_ordering(a, b)) == Ordering::Less,
        direction.directed(text_ordering(b, c)) == Ordering::Less,
    ensures
        direction.directed(text_ordering(a, c)) == Ordering::Less,
{
    match direction {
        Order::Ascending => {
            crate::text::lemma_text_lt_transitive(a, b, c);
        },
        Order::Descending => {
            crate::text::lemma_text_lt_total(a, b);
            crate::text::lemma_text_lt_total(b, c);
            crate::text::lemma_text_lt_transitive(c, b, a);
            crate::text::lemma_text_lt_asymmetric(c, a);
        },
    }
}

proof fn lemma_text_chain_weak(direction: Order, a: Seq<char>, b: Seq<char>, c: Seq<char>)
    requires
        direction.directed(text_ordering(a, b)) != Ordering::Less,
        direction.directed(text_ordering(b, c)) != Ordering::Less,
    ensures
        direction.directed(text_ordering(a, c)) != Ordering::Less,
{
    match direction {
        Order::Ascending => {
            // Neither a < b nor b < c; were a < c, then b <= a < c.
            if text_lt(a, c) {
                crate::text::lemma_text_lt_total(a, b);
                if a != b {
                    crate::text::lemma_text_lt_transitive(b, a, c);
                }
            }
        },
        Order::Descending => {
            // a <= b <= c.
            crate::text::lemma_text_lt_total(a, b);
            crate::text::lemma_text_lt_total(b, c);
            if text_lt(a, b) {
                crate::text::lemma_text_lt_asymmetric(a, b);
            }
            if text_lt(b, c) {
                crate::text::lemma_text_lt_asymmetric(b, c);
            }
            if a != b && b != c {
                crate::text::lemma_text_lt_transitive(a, b, c);
            }
            if a != c {
                assert(text_lt(a, c));
                crate::text::lemma_text_lt_asymmetric(a, c);
            }
            crate::text::lemma_text_lt_irreflexive(a);
        },
    }
}

/// The name of a property in a query names that property, and the name of a
/// direction that direction.
pub proof fn law_names_read_back(property: Property, direction: Order)
    ensures
        Property::named(property.name()) == Some(property),
        Order::named(direction.name()) == Some(direction),
{
    reveal_strlit("created");
    reveal_strlit("updated");
    reveal_strlit("comments");
    reveal_strlit("reactions");
    reveal_strlit("asc");
    reveal_strlit("ascending");
    reveal_strlit("desc");
    reveal_strlit("descending");
    assert("created"@[0] != "updated"@[0]);
    assert("created"@.len() != "comments"@.len());
    assert("created"@.len() != "reactions"@.len());
    assert("updated"@.len() != "comments"@.len());
    assert("updated"@.len() != "reactions"@.len());
    assert("comments"@[0] != "reactions"@[0]);
    assert("desc"@[0] != "asc"@[0]);
    assert("desc"@.len() != "ascending"@.len());
}

} // verus!
