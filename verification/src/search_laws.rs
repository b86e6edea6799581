//! What holds of every compiled search string.

use crate::list::{FilterConfigView, StateFilter};
use crate::project::ProjectView;
use crate::search::{
    label_tokens, present, target_tokens, QueryError, SearchIssuesView, Type,
};
use crate::target::TargetView;
use crate::text::{
    contains_text, decimal, digit_value, in_back, in_front, join, lemma_concat_free,
    lemma_decimal_digits, lemma_join_free, lemma_occurs_in_concat, lemma_shares_no_char,
    occurs_at, shares_no_char, split,
};
use vstd::prelude::*;

verus! {

/// The clause of a place as a list: the clause alone, or nothing.
pub open spec fn filled(slot: Option<Seq<char>>) -> Seq<Seq<char>> {
    match slot {
        Some(clause) => seq![clause],
        None => Seq::empty(),
    }
}

/// Whether a target's names hold no `pattern`.
pub open spec fn target_free(target: TargetView, pattern: Seq<char>) -> bool {
    match target {
        TargetView::Organization(name) => !contains_text(name, pattern),
        TargetView::Repository(owner, name) => !contains_text(owner, pattern) && !contains_text(
            name,
            pattern,
        ),
    }
}

/// Whether an optional text, if it is there, holds no `pattern`.
pub open spec fn optional_free(text: Option<Seq<char>>, pattern: Seq<char>) -> bool {
    match text {
        Some(t) => !contains_text(t, pattern),
        None => true,
    }
}

/// Whether a project's names hold no `pattern`.
pub open spec fn project_free(project: Option<ProjectView>, pattern: Seq<char>) -> bool {
    match project {
        Some(p) => !contains_text(p.owner, pattern) && optional_free(p.repo, pattern),
        None => true,
    }
}

/// Whether none of the texts that a search was given, and that its search
/// string holds, holds `pattern`: the assignee, the user whose reviews are
/// asked for, the names of the targets, the labels, the names of the project.
pub open spec fn given_texts_free(q: SearchIssuesView, pattern: Seq<char>) -> bool {
    &&& optional_free(q.assignee, pattern)
    &&& q.resource_type == Some(Type::ReviewRequest) ==> optional_free(q.review_requested, pattern)
    &&& forall|i: int| 0 <= i < q.targets.len() ==> target_free(#[trigger] q.targets[i], pattern)
    &&& forall|i: int| 0 <= i < q.labels.len() ==> !contains_text(#[trigger] q.labels[i], pattern)
    &&& project_free(q.project, pattern)
}

/// Whether a pattern has none of the marks that hold a search string
/// together, but for a colon at its end: no space, slash, hyphen or digit.
pub open spec fn tame(pattern: Seq<char>) -> bool {
    &&& pattern.len() > 0
    &&& forall|k: int|
        0 <= k < pattern.len() ==> {
            &&& (#[trigger] pattern[k]) != ' '
            &&& pattern[k] != '/'
            &&& pattern[k] != '-'
            &&& digit_value(pattern[k]) is None
            &&& (k < pattern.len() - 1 ==> pattern[k] != ':')
        }
}

/// Whether the words that every search string is made of hold no `pattern`.
pub open spec fn words_free(pattern: Seq<char>) -> bool {
    &&& !contains_text("type:issue"@, pattern)
    &&& !contains_text("type:pr"@, pattern)
    &&& !contains_text("type:pr review-requested:"@, pattern)
    &&& !contains_text("archived:false"@, pattern)
    &&& !contains_text("org:"@, pattern)
    &&& !contains_text("repo:"@, pattern)
    &&& !contains_text("label:"@, pattern)
    &&& !contains_text("project:"@, pattern)
    &&& !contains_text("sort:"@, pattern)
    &&& !contains_text("created"@, pattern)
    &&& !contains_text("updated"@, pattern)
    &&& !contains_text("comments"@, pattern)
    &&& !contains_text("reactions"@, pattern)
    &&& !contains_text("asc"@, pattern)
    &&& !contains_text("desc"@, pattern)
}

/// Whether the clauses on state and assignee, as far as the search has them,
/// are free of `pattern` in their fixed words.
pub open spec fn own_words_free(q: SearchIssuesView, pattern: Seq<char>) -> bool {
    &&& q.state == StateFilter::Open ==> !contains_text("state:open"@, pattern)
    &&& q.state == StateFilter::Closed ==> !contains_text("state:closed"@, pattern)
    &&& q.assignee is Some ==> !contains_text("assignee:"@, pattern)
}

/// A word that ends in a colon, with a text behind it, holds a tame pattern
/// only if the word or the text does.
proof fn lemma_word_then_text(word: Seq<char>, text: Seq<char>, pattern: Seq<char>)
    requires
        tame(pattern),
        word.len() > 0,
        word.last() == ':',
        !contains_text(word, pattern),
        !contains_text(text, pattern),
    ensures
        !contains_text(word + text, pattern),
{
    assert(!in_front(pattern, ':'));
    lemma_concat_free(word, text, pattern);
}

/// A text with a mark and another text behind it holds a tame pattern only if
/// one of the texts does, where the mark is a space, a slash or a hyphen.
proof fn lemma_text_mark_text(a: Seq<char>, mark: char, b: Seq<char>, pattern: Seq<char>)
    requires
        tame(pattern),
        mark == ' ' || mark == '/' || mark == '-',
        !contains_text(a, pattern),
        !contains_text(b, pattern),
    ensures
        !contains_text(a + seq![mark] + b, pattern),
{
    let sep = seq![mark];
    assert(shares_no_char(sep, pattern));
    lemma_shares_no_char(sep, pattern);
    lemma_concat_free(a, sep, pattern);
    assert((a + sep).last() == mark);
    lemma_concat_free(a + sep, b, pattern);
}

/// A number in decimal holds no tame pattern.
proof fn lemma_decimal_free(n: nat, pattern: Seq<char>)
    requires
        tame(pattern),
    ensures
        !contains_text(decimal(n), pattern),
        !in_back(pattern, decimal(n)[0]),
{
    lemma_decimal_digits(n);
    assert(shares_no_char(decimal(n), pattern)) by {
        assert forall|i: int, k: int|
            0 <= i < decimal(n).len() && 0 <= k < pattern.len() implies #[trigger] decimal(n)[i]
            != #[trigger] pattern[k] by {
            assert(digit_value(decimal(n)[i]) is Some);
        }
    }
    lemma_shares_no_char(decimal(n), pattern);
}

/// The name of a target in a query holds a tame pattern only if the target's
/// names do.
proof fn lemma_target_token_free(target: TargetView, pattern: Seq<char>)
    requires
        tame(pattern),
        words_free(pattern),
        target_free(target, pattern),
    ensures
        !contains_text(target.token(), pattern),
{
    reveal_strlit("org:");
    reveal_strlit("repo:");
    reveal_strlit("/");
    match target {
        TargetView::Organization(name) => {
            lemma_word_then_text("org:"@, name, pattern);
        },
        TargetView::Repository(owner, name) => {
            assert("repo:"@.last() == ':');
            lemma_word_then_text("repo:"@, owner, pattern);
            assert("/"@ =~= seq!['/']);
            lemma_text_mark_text("repo:"@ + owner, '/', name, pattern);
        },
    }
}

/// The name of a project in a query holds a tame pattern only if the
/// project's names do.
proof fn lemma_project_path_free(project: ProjectView, pattern: Seq<char>)
    requires
        tame(pattern),
        project_free(Some(project), pattern),
    ensures
        !contains_text(project.path(), pattern),
{
    reveal_strlit("/");
    assert("/"@ =~= seq!['/']);
    lemma_decimal_free(project.id as nat, pattern);
    match project.repo {
        Some(repo) => {
            lemma_text_mark_text(project.owner, '/', repo, pattern);
            lemma_text_mark_text(
                project.owner + "/"@ + repo,
                '/',
                decimal(project.id as nat),
                pattern,
            );
        },
        None => {
            lemma_text_mark_text(project.owner, '/', decimal(project.id as nat), pattern);
        },
    }
}

/// The clause on ordering holds no tame pattern that its words do not hold.
proof fn lemma_sort_clause_free(q: SearchIssuesView, pattern: Seq<char>)
    requires
        tame(pattern),
        words_free(pattern),
    ensures
        !contains_text(q.sort_clause(), pattern),
{
    reveal_strlit("sort:");
    reveal_strlit("-");
    assert("-"@ =~= seq!['-']);
    assert("sort:"@.last() == ':');
    let property = q.sort.0.name();
    let direction = q.sort.1.name();
    lemma_text_mark_text(property, '-', direction, pattern);
    lemma_word_then_text("sort:"@, property + "-"@ + direction, pattern);
    assert(q.sort_clause() =~= "sort:"@ + (property + "-"@ + direction));
}

/// None of the clauses of a search holds a tame pattern that neither its
/// words nor the texts it was given hold.
proof fn lemma_clauses_free(q: SearchIssuesView, pattern: Seq<char>)
    requires
        tame(pattern),
        words_free(pattern),
        own_words_free(q, pattern),
        given_texts_free(q, pattern),
    ensures
        optional_free(q.kind_clause(), pattern),
        optional_free(q.state_clause(), pattern),
        optional_free(q.assignee_clause(), pattern),
        !contains_text(q.archived_clause(), pattern),
        optional_free(q.targets_clause(), pattern),
        optional_free(q.labels_clause(), pattern),
        optional_free(q.project_clause(), pattern),
        !contains_text(q.sort_clause(), pattern),
{
    reveal_strlit("type:pr review-requested:");
    reveal_strlit("assignee:");
    reveal_strlit("label:");
    reveal_strlit("project:");
    reveal_strlit(" ");
    assert(" "@ =~= seq![' ']);
    assert(shares_no_char(" "@, pattern));
    match q.kind_clause() {
        Some(_) => {
            if q.resource_type == Some(Type::ReviewRequest) {
                assert("type:pr review-requested:"@.last() == ':');
                lemma_word_then_text(
                    "type:pr review-requested:"@,
                    q.review_requested->0,
                    pattern,
                );
            }
        },
        None => {},
    }
    match q.assignee {
        Some(name) => {
            assert("assignee:"@.last() == ':');
            lemma_word_then_text("assignee:"@, name, pattern);
        },
        None => {},
    }
    if q.targets.len() > 0 {
        let tokens = target_tokens(q.targets);
        assert forall|i: int| 0 <= i < tokens.len() implies !contains_text(
            #[trigger] tokens[i],
            pattern,
        ) by {
            lemma_target_token_free(q.targets[i], pattern);
        }
        lemma_join_free(tokens, " "@, pattern);
    }
    if q.labels.len() > 0 {
        let tokens = label_tokens(q.labels);
        assert("label:"@.last() == ':');
        assert forall|i: int| 0 <= i < tokens.len() implies !contains_text(
            #[trigger] tokens[i],
            pattern,
        ) by {
            lemma_word_then_text("label:"@, q.labels[i], pattern);
        }
        lemma_join_free(tokens, " "@, pattern);
    }
    match q.project {
        Some(p) => {
            assert("project:"@.last() == ':');
            lemma_project_path_free(p, pattern);
            lemma_word_then_text("project:"@, p.path(), pattern);
        },
        None => {},
    }
    lemma_sort_clause_free(q, pattern);
}

/// The clauses that are there are those of the eight places, in their order.
pub proof fn lemma_present_clauses(q: SearchIssuesView)
    ensures
        present(q.clauses()) == filled(q.kind_clause()) + filled(q.state_clause()) + filled(
            q.assignee_clause(),
        ) + seq![q.archived_clause()] + filled(q.targets_clause()) + filled(q.labels_clause())
            + filled(q.project_clause()) + seq![q.sort_clause()],
{
    let slots = q.clauses();
    let s7 = slots.drop_last();
    let s6 = s7.drop_last();
    let s5 = s6.drop_last();
    let s4 = s5.drop_last();
    let s3 = s4.drop_last();
    let s2 = s3.drop_last();
    let s1 = s2.drop_last();
    let s0 = s1.drop_last();
    assert(present(s0) =~= Seq::<Seq<char>>::empty());
    assert(present(s1) =~= filled(q.kind_clause()));
    assert(present(s2) =~= present(s1) + filled(q.state_clause()));
    assert(present(s3) =~= present(s2) + filled(q.assignee_clause()));
    assert(present(s4) =~= present(s3) + seq![q.archived_clause()]);
    assert(present(s5) =~= present(s4) + filled(q.targets_clause()));
    assert(present(s6) =~= present(s5) + filled(q.labels_clause()));
    assert(present(s7) =~= present(s6) + filled(q.project_clause()));
    assert(present(slots) =~= present(s7) + seq![q.sort_clause()]);
}

/// A search string holds a tame pattern only if the words it is made of or
/// the texts it was given hold it.
pub proof fn lemma_compiled_free(q: SearchIssuesView, pattern: Seq<char>)
    requires
        tame(pattern),
        words_free(pattern),
        own_words_free(q, pattern),
        given_texts_free(q, pattern),
    ensures
        !contains_text(q.compiled(), pattern),
{
    reveal_strlit(" ");
    assert(" "@ =~= seq![' ']);
    assert(shares_no_char(" "@, pattern));
    lemma_clauses_free(q, pattern);
    lemma_present_clauses(q);
    let parts = present(q.clauses());
    assert forall|i: int| 0 <= i < parts.len() implies !contains_text(
        #[trigger] parts[i],
        pattern,
    ) by {
        lemma_member_of_filled(q, parts[i], i);
    }
    lemma_join_free(parts, " "@, pattern);
}

/// Each clause that is there is the clause of one of the eight places.
proof fn lemma_member_of_filled(q: SearchIssuesView, clause: Seq<char>, at: int)
    requires
        0 <= at < present(q.clauses()).len(),
        present(q.clauses())[at] == clause,
    ensures
        q.kind_clause() == Some(clause) || q.state_clause() == Some(clause) || q.assignee_clause()
            == Some(clause) || q.archived_clause() == clause || q.targets_clause() == Some(clause)
            || q.labels_clause() == Some(clause) || q.project_clause() == Some(clause)
            || q.sort_clause() == clause,
{
    lemma_present_clauses(q);
    let a = filled(q.kind_clause());
    let b = a + filled(q.state_clause());
    let c = b + filled(q.assignee_clause());
    let d = c + seq![q.archived_clause()];
    let e = d + filled(q.targets_clause());
    let f = e + filled(q.labels_clause());
    let g = f + filled(q.project_clause());
    let h = g + seq![q.sort_clause()];
    assert(h[at] == clause);
    if at < a.len() {
    } else if at < b.len() {
        assert(b[at] == filled(q.state_clause())[at - a.len()]);
    } else if at < c.len() {
        assert(c[at] == filled(q.assignee_clause())[at - b.len()]);
    } else if at < d.len() {
    } else if at < e.len() {
        assert(e[at] == filled(q.targets_clause())[at - d.len()]);
    } else if at < f.len() {
        assert(f[at] == filled(q.labels_clause())[at - e.len()]);
    } else if at < g.len() {
        assert(g[at] == filled(q.project_clause())[at - f.len()]);
    } else {
    }
}

/// Whether `pattern` does not begin anywhere in `word` from the place `from`
/// on, by its first three characters.
pub open spec fn begins_nowhere(word: Seq<char>, pattern: Seq<char>, from: int) -> bool
    decreases word.len() - from,
{
    if from < 0 || from + 3 > word.len() {
        true
    } else {
        &&& !(word[from] == pattern[0] && word[from + 1] == pattern[1] && word[from + 2]
            == pattern[2])
        &&& begins_nowhere(word, pattern, from + 1)
    }
}

/// A pattern stands nowhere where it does not begin.
proof fn lemma_begins_nowhere(word: Seq<char>, pattern: Seq<char>, from: int, at: int)
    requires
        pattern.len() >= 3,
        0 <= from <= at,
        begins_nowhere(word, pattern, from),
    ensures
        !occurs_at(word, pattern, at),
    decreases at - from,
{
    if occurs_at(word, pattern, at) {
        let found = word.subrange(at, at + pattern.len());
        assert(found[0] == word[at] && found[1] == word[at + 1] && found[2] == word[at + 2]);
        if from < at {
            lemma_begins_nowhere(word, pattern, from + 1, at);
        }
    }
}

/// A word in which a pattern begins nowhere does not hold it.
proof fn lemma_word_free(word: Seq<char>, pattern: Seq<char>)
    requires
        pattern.len() >= 3,
        begins_nowhere(word, pattern, 0),
    ensures
        !contains_text(word, pattern),
{
    if contains_text(word, pattern) {
        let at = choose|at: int| occurs_at(word, pattern, at);
        lemma_begins_nowhere(word, pattern, 0, at);
    }
}

/// The words of a search string without a state clause do not hold `state:`,
/// and `state:` is tame.
proof fn lemma_words_without_state()
    ensures
        tame("state:"@),
        words_free("state:"@),
        !contains_text("assignee:"@, "state:"@),
{
    let pattern = "state:"@;
    reveal_strlit("state:");
    assert forall|k: int| 0 <= k < pattern.len() implies {
        &&& (#[trigger] pattern[k]) != ' '
        &&& pattern[k] != '/'
        &&& pattern[k] != '-'
        &&& digit_value(pattern[k]) is None
        &&& (k < pattern.len() - 1 ==> pattern[k] != ':')
    } by {
        if k == 0 {
        } else if k == 1 {
        } else if k == 2 {
        } else if k == 3 {
        } else if k == 4 {
        } else {
        }
    }
    reveal_with_fuel(begins_nowhere, 30);
    reveal_strlit("type:issue");
    lemma_word_free("type:issue"@, pattern);
    reveal_strlit("type:pr");
    lemma_word_free("type:pr"@, pattern);
    reveal_strlit("type:pr review-requested:");
    lemma_word_free("type:pr review-requested:"@, pattern);
    reveal_strlit("archived:false");
    lemma_word_free("archived:false"@, pattern);
    reveal_strlit("org:");
    lemma_word_free("org:"@, pattern);
    reveal_strlit("repo:");
    lemma_word_free("repo:"@, pattern);
    reveal_strlit("label:");
    lemma_word_free("label:"@, pattern);
    reveal_strlit("project:");
    lemma_word_free("project:"@, pattern);
    reveal_strlit("sort:");
    lemma_word_free("sort:"@, pattern);
    reveal_strlit("created");
    lemma_word_free("created"@, pattern);
    reveal_strlit("updated");
    lemma_word_free("updated"@, pattern);
    reveal_strlit("comments");
    lemma_word_free("comments"@, pattern);
    reveal_strlit("reactions");
    lemma_word_free("reactions"@, pattern);
    reveal_strlit("asc");
    lemma_word_free("asc"@, pattern);
    reveal_strlit("desc");
    lemma_word_free("desc"@, pattern);
    reveal_strlit("assignee:");
    lemma_word_free("assignee:"@, pattern);
}

/// Where both open and closed records are asked for, the search string holds
/// no `state:`, unless a text that the search was given holds it.
pub proof fn law_no_state_clause_for_all(q: SearchIssuesView)
    requires
        q.state == StateFilter::All,
        !q.lacks_reviewer(),
        given_texts_free(q, "state:"@),
    ensures
        q.state_clause() is None,
        q.search_query() is Ok,
        !contains_text(q.search_query()->Ok_0, "state:"@),
{
    lemma_words_without_state();
    lemma_compiled_free(q, "state:"@);
}

/// Joining two lists that both hold something is joining each, and then the
/// two results.
pub proof fn lemma_join_concat(a: Seq<Seq<char>>, b: Seq<Seq<char>>, sep: Seq<char>)
    requires
        a.len() > 0,
        b.len() > 0,
    ensures
        join(a + b, sep) == join(a, sep) + sep + join(b, sep),
    decreases b.len(),
{
    let all = a + b;
    assert(all.drop_last() =~= a + b.drop_last());
    assert(all.last() == b.last());
    if b.len() == 1 {
        assert(a + b.drop_last() =~= a);
        assert(join(all, sep) =~= join(a, sep) + sep + join(b, sep));
    } else {
        lemma_join_concat(a, b.drop_last(), sep);
        assert(join(all, sep) =~= join(a, sep) + sep + join(b, sep));
    }
}

/// The place of the state clause in a search string: behind the clause on
/// the kind and a space, or at the start where there is no such clause.
pub open spec fn state_place(q: SearchIssuesView) -> int {
    match q.kind_clause() {
        Some(kind) => (kind.len() + 1) as int,
        None => 0,
    }
}

/// The search `q`, asking for open and closed records alike.
pub open spec fn with_any_state(q: SearchIssuesView) -> SearchIssuesView {
    SearchIssuesView { state: StateFilter::All, ..q }
}

/// What stands in a search string before the state clause.
pub open spec fn before_state(q: SearchIssuesView) -> Seq<char> {
    match q.kind_clause() {
        Some(kind) => kind + " "@,
        None => Seq::empty(),
    }
}

/// The clauses that stand behind the state clause.
pub open spec fn clauses_behind_state(q: SearchIssuesView) -> Seq<Seq<char>> {
    filled(q.assignee_clause()) + seq![q.archived_clause()] + filled(q.targets_clause()) + filled(
        q.labels_clause(),
    ) + filled(q.project_clause()) + seq![q.sort_clause()]
}

/// What stands in a search string behind the state clause.
pub open spec fn behind_state(q: SearchIssuesView) -> Seq<char> {
    " "@ + join(clauses_behind_state(q), " "@)
}

/// A word joined in between at most one text before it and some texts behind
/// it.
proof fn lemma_join_around(
    front: Seq<Seq<char>>,
    word: Seq<char>,
    back: Seq<Seq<char>>,
    sep: Seq<char>,
)
    requires
        front.len() <= 1,
        back.len() > 0,
    ensures
        join(front + (seq![word] + back), sep) == (if front.len() == 1 {
            front[0] + sep
        } else {
            Seq::<char>::empty()
        }) + (word + (sep + join(back, sep))),
{
    let middle = seq![word];
    lemma_join_concat(middle, back, sep);
    assert(join(middle, sep) == word);
    let behind = join(middle + back, sep);
    assert(behind =~= word + (sep + join(back, sep)));
    if front.len() == 1 {
        lemma_join_concat(front, middle + back, sep);
        assert(join(front, sep) == front[0]);
        assert(join(front + (middle + back), sep) =~= (front[0] + sep) + behind);
    } else {
        assert(front + (middle + back) =~= middle + back);
        assert(behind =~= Seq::<char>::empty() + behind);
    }
}

/// A search string with a state clause is what stands before that clause, the
/// clause, and what stands behind it.
proof fn lemma_around_state(q: SearchIssuesView)
    requires
        q.state != StateFilter::All,
    ensures
        q.compiled() == before_state(q) + (q.state_clause()->0 + behind_state(q)),
        before_state(q).len() == state_place(q),
{
    let word = q.state_clause()->0;
    let front = filled(q.kind_clause());
    let back = clauses_behind_state(q);
    lemma_present_clauses(q);
    assert(filled(q.state_clause()) == seq![word]);
    assert(present(q.clauses()) =~= front + (seq![word] + back));
    lemma_join_around(front, word, back, " "@);
    reveal_strlit(" ");
}

/// Neither what stands before the state clause nor what stands behind it
/// holds `state:`, unless a text that the search was given holds it.
proof fn lemma_no_state_around_state(q: SearchIssuesView)
    requires
        given_texts_free(q, "state:"@),
    ensures
        !contains_text(before_state(q), "state:"@),
        !contains_text(behind_state(q), "state:"@),
{
    let pattern = "state:"@;
    let any = with_any_state(q);
    lemma_words_without_state();
    lemma_clauses_free(any, pattern);
    reveal_strlit(" ");
    assert(" "@ =~= seq![' ']);
    assert(shares_no_char(" "@, pattern));
    lemma_shares_no_char(" "@, pattern);
    match q.kind_clause() {
        Some(kind) => {
            assert(any.kind_clause() == Some(kind));
            lemma_concat_free(kind, " "@, pattern);
        },
        None => {
            if contains_text(before_state(q), pattern) {
                let i = choose|i: int| occurs_at(before_state(q), pattern, i);
            }
        },
    }
    let back = clauses_behind_state(q);
    assert(back == clauses_behind_state(any));
    assert forall|i: int| 0 <= i < back.len() implies !contains_text(
        #[trigger] back[i],
        pattern,
    ) by {
        lemma_member_of_back(any, back[i], i);
    }
    lemma_join_free(back, " "@, pattern);
    lemma_concat_free(" "@, join(back, " "@), pattern);
}

/// In a state clause, `state:` stands at the start and nowhere else, and
/// cannot lie across the end of the clause.
proof fn lemma_state_word(q: SearchIssuesView, at: int)
    requires
        q.state != StateFilter::All,
    ensures
        occurs_at(q.state_clause()->0, "state:"@, at) ==> at == 0,
        q.state_clause()->0.len() > 0,
        !in_front("state:"@, q.state_clause()->0.last()),
{
    let pattern = "state:"@;
    let word = q.state_clause()->0;
    reveal_strlit("state:");
    reveal_strlit("state:open");
    reveal_strlit("state:closed");
    if occurs_at(word, pattern, at) && at > 0 {
        reveal_with_fuel(begins_nowhere, 12);
        lemma_begins_nowhere(word, pattern, 1, at);
    }
    assert forall|k: int| 0 <= k < pattern.len() - 1 implies pattern[k] != word.last() by {
        if k == 0 {
        } else if k == 1 {
        } else if k == 2 {
        } else if k == 3 {
        } else {
        }
    }
}

/// Where a state is asked for, `state:` stands in the search string once, at
/// the start of the state clause, unless a text that the search was given
/// holds it.
proof fn lemma_state_clause_alone(q: SearchIssuesView, at: int)
    requires
        q.state != StateFilter::All,
        given_texts_free(q, "state:"@),
    ensures
        occurs_at(q.compiled(), q.state_clause()->0, state_place(q)),
        occurs_at(q.compiled(), "state:"@, at) ==> at == state_place(q),
{
    let pattern = "state:"@;
    let word = q.state_clause()->0;
    let head = before_state(q);
    let tail = behind_state(q);
    lemma_around_state(q);
    lemma_no_state_around_state(q);
    assert((head + (word + tail)).subrange(head.len() as int, (head.len() + word.len()) as int)
        =~= word);
    if occurs_at(q.compiled(), pattern, at) {
        lemma_words_without_state();
        reveal_strlit(" ");
        if head.len() > 0 {
            assert(head.last() == ' ');
        }
        lemma_occurs_in_concat(head, word + tail, pattern, at);
        assert(tail[0] == ' ');
        lemma_state_word(q, at - head.len());
        lemma_occurs_in_concat(word, tail, pattern, at - head.len());
    }
}

/// Each clause behind the state clause is the clause of one of the six places
/// behind it.
proof fn lemma_member_of_back(q: SearchIssuesView, clause: Seq<char>, at: int)
    requires
        0 <= at < clauses_behind_state(q).len(),
        clauses_behind_state(q)[at] == clause,
        optional_free(q.assignee_clause(), "state:"@),
        !contains_text(q.archived_clause(), "state:"@),
        optional_free(q.targets_clause(), "state:"@),
        optional_free(q.labels_clause(), "state:"@),
        optional_free(q.project_clause(), "state:"@),
        !contains_text(q.sort_clause(), "state:"@),
    ensures
        !contains_text(clause, "state:"@),
{
    let c = filled(q.assignee_clause());
    let d = c + seq![q.archived_clause()];
    let e = d + filled(q.targets_clause());
    let f = e + filled(q.labels_clause());
    let g = f + filled(q.project_clause());
    let h = g + seq![q.sort_clause()];
    assert(h[at] == clause);
    if at < c.len() {
    } else if at < d.len() {
    } else if at < e.len() {
        assert(e[at] == filled(q.targets_clause())[at - d.len()]);
    } else if at < f.len() {
        assert(f[at] == filled(q.labels_clause())[at - e.len()]);
    } else if at < g.len() {
        assert(g[at] == filled(q.project_clause())[at - f.len()]);
    } else {
    }
}

/// Where open records are asked for, the search string holds `state:` once,
/// in `state:open`, and no `state:closed`, unless a text that the search was
/// given holds `state:`.
pub proof fn law_one_state_clause_for_open(q: SearchIssuesView)
    requires
        q.state == StateFilter::Open,
        !q.lacks_reviewer(),
        given_texts_free(q, "state:"@),
    ensures
        q.search_query() is Ok,
        occurs_at(q.search_query()->Ok_0, "state:open"@, state_place(q)),
        forall|at: int| #[trigger]
            occurs_at(q.search_query()->Ok_0, "state:"@, at) ==> at == state_place(q),
        !contains_text(q.search_query()->Ok_0, "state:closed"@),
        holds_once(split(q.search_query()->Ok_0, ' '), "state:open"@),
{
    let compiled = q.compiled();
    lemma_state_clause_alone(q, 0);
    lemma_state_clause_is_one_word(q);
    assert forall|at: int| #[trigger] occurs_at(compiled, "state:"@, at) implies at == state_place(
        q,
    ) by {
        lemma_state_clause_alone(q, at);
    }
    if contains_text(compiled, "state:closed"@) {
        let at = choose|at: int| occurs_at(compiled, "state:closed"@, at);
        reveal_strlit("state:");
        reveal_strlit("state:open");
        reveal_strlit("state:closed");
        let closed = compiled.subrange(at, at + 12);
        assert(closed.subrange(0, 6) =~= "state:"@);
        assert(compiled.subrange(at, at + 6) =~= closed.subrange(0, 6));
        assert(occurs_at(compiled, "state:"@, at));
        let open = compiled.subrange(at, at + 10);
        assert(open[6] == closed[6]);
    }
}

/// Where closed records are asked for, the search string holds `state:` once,
/// in `state:closed`, unless a text that the search was given holds `state:`.
pub proof fn law_one_state_clause_for_closed(q: SearchIssuesView)
    requires
        q.state == StateFilter::Closed,
        !q.lacks_reviewer(),
        given_texts_free(q, "state:"@),
    ensures
        q.search_query() is Ok,
        occurs_at(q.search_query()->Ok_0, "state:closed"@, state_place(q)),
        forall|at: int| #[trigger]
            occurs_at(q.search_query()->Ok_0, "state:"@, at) ==> at == state_place(q),
        holds_once(split(q.search_query()->Ok_0, ' '), "state:closed"@),
{
    let compiled = q.compiled();
    lemma_state_clause_alone(q, 0);
    lemma_state_clause_is_one_word(q);
    assert forall|at: int| #[trigger] occurs_at(compiled, "state:"@, at) implies at == state_place(
        q,
    ) by {
        lemma_state_clause_alone(q, at);
    }
}

/// Whether exactly one of `words` is `word`.
pub open spec fn holds_once(words: Seq<Seq<char>>, word: Seq<char>) -> bool {
    exists|at: int|
        0 <= at < words.len() && #[trigger] words[at] == word && forall|other: int|
            0 <= other < words.len() && #[trigger] words[other] == word ==> other == at
}

/// A word of a text that holds `pattern` at its start brings `pattern` into
/// the text.
proof fn lemma_word_brings_pattern(text: Seq<char>, i: int, pattern: Seq<char>)
    requires
        0 <= i < split(text, ' ').len(),
        occurs_at(split(text, ' ')[i], pattern, 0),
    ensures
        contains_text(text, pattern),
{
    let word = split(text, ' ')[i];
    crate::text::lemma_split_piece_occurs(text, ' ', i);
    let at = choose|at: int| occurs_at(text, word, at);
    assert(text.subrange(at, at + pattern.len()) =~= word.subrange(0, pattern.len() as int));
    assert(occurs_at(text, pattern, at));
}

/// Where a state is asked for, the state clause is one of the words of the
/// search string between spaces, and no other word is like it, unless a text
/// that the search was given holds `state:`.
proof fn lemma_state_clause_is_one_word(q: SearchIssuesView)
    requires
        q.state != StateFilter::All,
        given_texts_free(q, "state:"@),
    ensures
        holds_once(split(q.compiled(), ' '), q.state_clause()->0),
{
    let pattern = "state:"@;
    let word = q.state_clause()->0;
    let rest = join(clauses_behind_state(q), " "@);
    lemma_around_state(q);
    lemma_no_state_around_state(q);
    reveal_strlit(" ");
    reveal_strlit("state:");
    reveal_strlit("state:open");
    reveal_strlit("state:closed");
    assert(" "@ =~= seq![' ']);
    assert(word.subrange(0, 6) =~= pattern);
    assert(occurs_at(word, pattern, 0));

    // The state clause holds no space: it is one word.
    assert(!word.contains(' ')) by {
        if word.contains(' ') {
            let k = choose|k: int| 0 <= k < word.len() && word[k] == ' ';
            if q.state == StateFilter::Open {
                lemma_no_space_in("state:open"@, k);
            } else {
                lemma_no_space_in("state:closed"@, k);
            }
        }
    }
    crate::text::lemma_split_extended(Seq::<char>::empty(), word, ' ');
    assert(Seq::<char>::empty() + word =~= word);
    assert(split(Seq::<char>::empty(), ' ') =~= seq![Seq::<char>::empty()]);
    assert(split(word, ' ') =~= seq![word]);

    // What stands behind it holds no `state:`, so none of its words is the clause.
    assert(!contains_text(rest, pattern)) by {
        if contains_text(rest, pattern) {
            let at = choose|at: int| occurs_at(rest, pattern, at);
            assert(behind_state(q).subrange(at + 1, at + 1 + pattern.len()) =~= rest.subrange(
                at,
                at + pattern.len(),
            ));
            assert(occurs_at(behind_state(q), pattern, at + 1));
        }
    }
    crate::text::lemma_split_at_separator(word, rest, ' ');
    let behind = split(word + seq![' '] + rest, ' ');
    assert(behind =~= seq![word] + split(rest, ' '));
    assert(word + seq![' '] + rest =~= word + behind_state(q));

    match q.kind_clause() {
        Some(kind) => {
            assert(!contains_text(kind, pattern)) by {
                if contains_text(kind, pattern) {
                    let at = choose|at: int| occurs_at(kind, pattern, at);
                    assert(before_state(q).subrange(at, at + pattern.len()) =~= kind.subrange(
                        at,
                        at + pattern.len(),
                    ));
                    assert(occurs_at(before_state(q), pattern, at));
                }
            }
            crate::text::lemma_split_at_separator(kind, word + behind_state(q), ' ');
            assert(q.compiled() =~= kind + seq![' '] + (word + behind_state(q)));
            let front = split(kind, ' ');
            let words = split(q.compiled(), ' ');
            assert(words =~= front + behind);
            let place = front.len() as int;
            assert(words[place] == word);
            assert forall|other: int|
                0 <= other < words.len() && #[trigger] words[other] == word implies other
                == place by {
                if other < place {
                    assert(words[other] == front[other]);
                    lemma_word_brings_pattern(kind, other, pattern);
                } else if other > place {
                    assert(words[other] == split(rest, ' ')[other - place - 1]);
                    lemma_word_brings_pattern(rest, other - place - 1, pattern);
                }
            }
        },
        None => {
            assert(q.compiled() =~= word + behind_state(q));
            let words = split(q.compiled(), ' ');
            assert(words =~= behind);
            assert(words[0] == word);
            assert forall|other: int|
                0 <= other < words.len() && #[trigger] words[other] == word implies other
                == 0 by {
                if other > 0 {
                    assert(words[other] == split(rest, ' ')[other - 1]);
                    lemma_word_brings_pattern(rest, other - 1, pattern);
                }
            }
        },
    }
}

/// Neither state clause holds a space.
proof fn lemma_no_space_in(word: Seq<char>, k: int)
    requires
        word == "state:open"@ || word == "state:closed"@,
        0 <= k < word.len(),
    ensures
        word[k] != ' ',
{
    reveal_strlit("state:open");
    reveal_strlit("state:closed");
    if k == 0 {
    } else if k == 1 {
    } else if k == 2 {
    } else if k == 3 {
    } else if k == 4 {
    } else if k == 5 {
    } else if k == 6 {
    } else if k == 7 {
    } else if k == 8 {
    } else if k == 9 {
    } else if k == 10 {
    } else {
    }
}

/// The clauses of every search string stand in one fixed order: kind, state,
/// assignee, archived, targets, labels, project, ordering, with one space
/// between each two. Each is left out by itself where the search has nothing
/// to say there; the clauses on archived repositories and on ordering are
/// always there.
pub proof fn law_every_search_keeps_the_order(q: SearchIssuesView)
    requires
        !q.lacks_reviewer(),
    ensures
        q.search_query() == Ok::<Seq<char>, QueryError>(
            join(
                filled(q.kind_clause()) + filled(q.state_clause()) + filled(q.assignee_clause())
                    + seq![q.archived_clause()] + filled(q.targets_clause()) + filled(
                    q.labels_clause(),
                ) + filled(q.project_clause()) + seq![q.sort_clause()],
                " "@,
            ),
        ),
        q.kind_clause() is Some <==> q.resource_type is Some,
        q.state_clause() is Some <==> q.state != StateFilter::All,
        q.assignee_clause() is Some <==> q.assignee is Some,
        q.targets_clause() is Some <==> q.targets.len() > 0,
        q.labels_clause() is Some <==> q.labels.len() > 0,
        q.project_clause() is Some <==> q.project is Some,
{
    lemma_present_clauses(q);
}

/// The clauses of a search that is made from a filter stand in the fixed
/// order, and the filter, the kind, the user and the targets decide which of
/// them are there.
pub proof fn law_clauses_stand_in_fixed_order(
    config: FilterConfigView,
    kind: Type,
    user: Option<Seq<char>>,
    targets: Seq<TargetView>,
)
    requires
        !config.query_for(kind, user, targets).lacks_reviewer(),
    ensures
        ({
            let q = config.query_for(kind, user, targets);
            &&& q.search_query() == Ok::<Seq<char>, QueryError>(
                join(
                    filled(q.kind_clause()) + filled(q.state_clause()) + filled(
                        q.assignee_clause(),
                    ) + seq![q.archived_clause()] + filled(q.targets_clause()) + filled(
                        q.labels_clause(),
                    ) + filled(q.project_clause()) + seq![q.sort_clause()],
                    " "@,
                ),
            )
            &&& q.kind_clause() is Some
            &&& q.state_clause() is Some <==> config.state != StateFilter::All
            &&& q.assignee_clause() is Some <==> config.assigned_only && kind
                != Type::ReviewRequest && user is Some
            &&& q.targets_clause() is Some <==> targets.len() > 0
            &&& q.labels_clause() is Some <==> config.labels.len() > 0
            &&& q.project_clause() is Some <==> config.project is Some
        }),
{
    lemma_present_clauses(config.query_for(kind, user, targets));
}

/// A search fails exactly where it asks for review requests without a user,
/// and then for want of the user.
pub proof fn law_review_requests_need_a_user(q: SearchIssuesView)
    ensures
        q.search_query() is Err <==> q.resource_type == Some(Type::ReviewRequest)
            && q.review_requested is None,
        q.search_query() is Err ==> q.search_query() == Err::<Seq<char>, QueryError>(
            QueryError::MissingUser,
        ),
        q.search_type() is Err <==> q.search_query() is Err,
        q.build() is Err <==> q.search_query() is Err,
{
}

/// A search for the review requests of a user begins with the clause that
/// names the user.
pub proof fn law_review_requests_name_the_user(q: SearchIssuesView, user: Seq<char>)
    requires
        q.resource_type == Some(Type::ReviewRequest),
        q.review_requested == Some(user),
    ensures
        q.search_query() is Ok,
        q.kind_clause() == Some("type:pr review-requested:"@ + user),
        occurs_at(q.search_query()->Ok_0, "type:pr review-requested:"@ + user, 0),
        occurs_at(q.search_query()->Ok_0, "review-requested:"@ + user, 8),
{
    let clause = "type:pr review-requested:"@ + user;
    lemma_present_clauses(q);
    let front = seq![clause];
    let back = filled(q.state_clause()) + filled(q.assignee_clause()) + seq![q.archived_clause()]
        + filled(q.targets_clause()) + filled(q.labels_clause()) + filled(q.project_clause())
        + seq![q.sort_clause()];
    assert(present(q.clauses()) =~= front + back);
    lemma_join_concat(front, back, " "@);
    let compiled = q.compiled();
    assert(compiled.subrange(0, clause.len() as int) =~= clause);
    reveal_strlit("type:pr review-requested:");
    reveal_strlit("review-requested:");
    assert(compiled.subrange(8, (8 + ("review-requested:"@ + user).len()) as int)
        =~= "review-requested:"@ + user) by {
        assert(clause.subrange(8, clause.len() as int) =~= "review-requested:"@ + user);
    }
}

/// A search that is made from a filter never names the user both as the one
/// whose reviews are asked for and as the assignee: for review requests the
/// user stands in the clause on the kind, and there is no clause on the
/// assignee; for the other kinds no reviews are asked of anybody.
pub proof fn law_filter_names_the_user_once(
    config: FilterConfigView,
    kind: Type,
    user: Option<Seq<char>>,
    targets: Seq<TargetView>,
)
    ensures
        ({
            let q = config.query_for(kind, user, targets);
            &&& kind == Type::ReviewRequest ==> q.review_requested == user && q.assignee is None
                && q.assignee_clause() is None
            &&& kind != Type::ReviewRequest ==> q.review_requested is None
        }),
{
}

/// The words of a search string without an assignee clause do not hold
/// `assignee:`, and `assignee:` is tame.
proof fn lemma_words_without_assignee()
    ensures
        tame("assignee:"@),
        words_free("assignee:"@),
        !contains_text("state:open"@, "assignee:"@),
        !contains_text("state:closed"@, "assignee:"@),
{
    let pattern = "assignee:"@;
    reveal_strlit("assignee:");
    assert forall|k: int| 0 <= k < pattern.len() implies {
        &&& (#[trigger] pattern[k]) != ' '
        &&& pattern[k] != '/'
        &&& pattern[k] != '-'
        &&& digit_value(pattern[k]) is None
        &&& (k < pattern.len() - 1 ==> pattern[k] != ':')
    } by {
        if k == 0 {
        } else if k == 1 {
        } else if k == 2 {
        } else if k == 3 {
        } else if k == 4 {
        } else if k == 5 {
        } else if k == 6 {
        } else if k == 7 {
        } else {
        }
    }
    reveal_with_fuel(begins_nowhere, 30);
    reveal_strlit("type:issue");
    lemma_word_free("type:issue"@, pattern);
    reveal_strlit("type:pr");
    lemma_word_free("type:pr"@, pattern);
    reveal_strlit("type:pr review-requested:");
    lemma_word_free("type:pr review-requested:"@, pattern);
    reveal_strlit("archived:false");
    lemma_word_free("archived:false"@, pattern);
    reveal_strlit("org:");
    lemma_word_free("org:"@, pattern);
    reveal_strlit("repo:");
    lemma_word_free("repo:"@, pattern);
    reveal_strlit("label:");
    lemma_word_free("label:"@, pattern);
    reveal_strlit("project:");
    lemma_word_free("project:"@, pattern);
    reveal_strlit("sort:");
    lemma_word_free("sort:"@, pattern);
    reveal_strlit("created");
    lemma_word_free("created"@, pattern);
    reveal_strlit("updated");
    lemma_word_free("updated"@, pattern);
    reveal_strlit("comments");
    lemma_word_free("comments"@, pattern);
    reveal_strlit("reactions");
    lemma_word_free("reactions"@, pattern);
    reveal_strlit("asc");
    lemma_word_free("asc"@, pattern);
    reveal_strlit("desc");
    lemma_word_free("desc"@, pattern);
    reveal_strlit("state:open");
    lemma_word_free("state:open"@, pattern);
    reveal_strlit("state:closed");
    lemma_word_free("state:closed"@, pattern);
}

/// A search for the review requests of a user holds no `assignee:`, unless a
/// text that the search was given holds it.
pub proof fn law_review_requests_have_no_assignee(
    config: FilterConfigView,
    user: Seq<char>,
    targets: Seq<TargetView>,
)
    requires
        given_texts_free(
            config.query_for(Type::ReviewRequest, Some(user), targets),
            "assignee:"@,
        ),
    ensures
        config.query_for(Type::ReviewRequest, Some(user), targets).search_query() is Ok,
        !contains_text(
            config.query_for(Type::ReviewRequest, Some(user), targets).search_query()->Ok_0,
            "assignee:"@,
        ),
{
    lemma_words_without_assignee();
    lemma_compiled_free(config.query_for(Type::ReviewRequest, Some(user), targets), "assignee:"@);
}

} // verus!
