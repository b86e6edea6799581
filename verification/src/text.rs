//! Text helpers over `String` and `&str`, specified on sequences of characters.

use vstd::prelude::*;

verus! {

/// The character sequences of a sequence of strings.
pub open spec fn texts(items: Seq<String>) -> Seq<Seq<char>> {
    items.map_values(|s: String| s@)
}

/// The characters of an optional string.
pub open spec fn optional_text(s: Option<String>) -> Option<Seq<char>> {
    match s {
        Some(s) => Some(s@),
        None => None,
    }
}

/// `parts` concatenated, with `sep` between each two neighbours.
pub open spec fn join(parts: Seq<Seq<char>>, sep: Seq<char>) -> Seq<char>
    decreases parts.len(),
{
    if parts.len() == 0 {
        Seq::empty()
    } else if parts.len() == 1 {
        parts[0]
    } else {
        join(parts.drop_last(), sep) + sep + parts.last()
    }
}

/// Whether `a` and `b` hold the same characters.
pub fn same_text(a: &str, b: &str) -> (same: bool)
    ensures
        same == (a@ == b@),
{
    let first = String::from_str(a);
    let second = String::from_str(b);
    first == second
}

/// Joins `parts` with `sep` between each two neighbours.
pub fn join_strings(parts: &Vec<String>, sep: &str) -> (joined: String)
    ensures
        joined@ == join(texts(parts@), sep@),
{
    let mut joined = String::new();
    let mut i: usize = 0;
    while i < parts.len()
        invariant
            i <= parts.len(),
            joined@ == join(texts(parts@).take(i as int), sep@),
        decreases parts.len() - i,
    {
        proof {
            let next = texts(parts@).take(i + 1);
            assert(next.drop_last() =~= texts(parts@).take(i as int));
            assert(next.last() == parts@[i as int]@);
        }
        if i > 0 {
            joined.append(sep);
        }
        joined.append(parts[i].as_str());
        i += 1;
    }
    proof {
        assert(texts(parts@).take(parts.len() as int) =~= texts(parts@));
    }
    joined
}

/// A copy of `items`, string by string.
pub fn clone_strings(items: &Vec<String>) -> (copy: Vec<String>)
    ensures
        copy@ == items@,
{
    let mut copy: Vec<String> = Vec::new();
    let mut i: usize = 0;
    while i < items.len()
        invariant
            i <= items.len(),
            copy@ == items@.take(i as int),
        decreases items.len() - i,
    {
        copy.push(items[i].clone());
        proof {
            assert(copy@ =~= items@.take(i + 1));
        }
        i += 1;
    }
    proof {
        assert(items@.take(items.len() as int) =~= items@);
    }
    copy
}

/// The decimal digit that stands for `d`, for `d` below ten.
pub open spec fn digit_char(d: nat) -> char {
    if d == 0 {
        '0'
    } else if d == 1 {
        '1'
    } else if d == 2 {
        '2'
    } else if d == 3 {
        '3'
    } else if d == 4 {
        '4'
    } else if d == 5 {
        '5'
    } else if d == 6 {
        '6'
    } else if d == 7 {
        '7'
    } else if d == 8 {
        '8'
    } else {
        '9'
    }
}

/// `n` written in decimal, without leading zeros.
pub open spec fn decimal(n: nat) -> Seq<char>
    decreases n,
{
    if n < 10 {
        seq![digit_char(n)]
    } else {
        decimal(n / 10).push(digit_char(n % 10))
    }
}

fn digit_str(d: u32) -> (s: &'static str)
    requires
        d < 10,
    ensures
        s@ == seq![digit_char(d as nat)],
{
    proof {
        reveal_strlit("0");
        reveal_strlit("1");
        reveal_strlit("2");
        reveal_strlit("3");
        reveal_strlit("4");
        reveal_strlit("5");
        reveal_strlit("6");
        reveal_strlit("7");
        reveal_strlit("8");
        reveal_strlit("9");
    }
    let s = if d == 0 {
        "0"
    } else if d == 1 {
        "1"
    } else if d == 2 {
        "2"
    } else if d == 3 {
        "3"
    } else if d == 4 {
        "4"
    } else if d == 5 {
        "5"
    } else if d == 6 {
        "6"
    } else if d == 7 {
        "7"
    } else if d == 8 {
        "8"
    } else {
        "9"
    };
    assert(s@ =~= seq![digit_char(d as nat)]);
    s
}

/// `n` written in decimal.
pub fn decimal_string(n: u32) -> (s: String)
    ensures
        s@ == decimal(n as nat),
    decreases n,
{
    if n < 10 {
        String::from_str(digit_str(n))
    } else {
        let mut s = decimal_string(n / 10);
        s.append(digit_str(n % 10));
        assert(s@ =~= decimal(n as nat));
        s
    }
}

/// The value of a decimal digit, if `c` is one.
pub open spec fn digit_value(c: char) -> Option<nat> {
    if c == '0' {
        Some(0)
    } else if c == '1' {
        Some(1)
    } else if c == '2' {
        Some(2)
    } else if c == '3' {
        Some(3)
    } else if c == '4' {
        Some(4)
    } else if c == '5' {
        Some(5)
    } else if c == '6' {
        Some(6)
    } else if c == '7' {
        Some(7)
    } else if c == '8' {
        Some(8)
    } else if c == '9' {
        Some(9)
    } else {
        None
    }
}

/// Whether every character of `s` is a decimal digit.
pub open spec fn all_digits(s: Seq<char>) -> bool {
    forall|i: int| 0 <= i < s.len() ==> (#[trigger] digit_value(s[i])) is Some
}

/// The number that the digits of `s` write in decimal; the empty sequence
/// writes zero.
pub open spec fn digits_value(s: Seq<char>) -> nat
    decreases s.len(),
{
    if s.len() == 0 {
        0
    } else {
        digits_value(s.drop_last()) * 10 + match digit_value(s.last()) {
            Some(d) => d,
            None => 0,
        }
    }
}

/// `s` without one leading plus sign.
pub open spec fn unsigned_body(s: Seq<char>) -> Seq<char> {
    if s.len() > 0 && s[0] == '+' {
        s.skip(1)
    } else {
        s
    }
}

/// The number below 2^32 that `s` writes: an optional plus sign, then one or
/// more decimal digits. `None` for any other text and for larger numbers.
pub open spec fn parsed_u32(s: Seq<char>) -> Option<u32> {
    let body = unsigned_body(s);
    if body.len() > 0 && all_digits(body) && digits_value(body) <= u32::MAX {
        Some(digits_value(body) as u32)
    } else {
        None
    }
}

fn digit_of(c: char) -> (d: Option<u64>)
    ensures
        d is Some <==> digit_value(c) is Some,
        d matches Some(v) ==> digit_value(c) == Some(v as nat),
{
    if c == '0' {
        Some(0)
    } else if c == '1' {
        Some(1)
    } else if c == '2' {
        Some(2)
    } else if c == '3' {
        Some(3)
    } else if c == '4' {
        Some(4)
    } else if c == '5' {
        Some(5)
    } else if c == '6' {
        Some(6)
    } else if c == '7' {
        Some(7)
    } else if c == '8' {
        Some(8)
    } else if c == '9' {
        Some(9)
    } else {
        None
    }
}

/// Reads an unsigned decimal number below 2^32.
pub fn parse_u32(s: &str) -> (n: Option<u32>)
    ensures
        n == parsed_u32(s@),
{
    let length = s.unicode_len();
    let body = if length > 0 && s.get_char(0) == '+' {
        s.substring_char(1, length)
    } else {
        s
    };
    assert(body@ =~= unsigned_body(s@));
    // The value of the digits read so far, as long as it stays below 2^32.
    let mut value: u64 = 0;
    let mut empty = true;
    let mut valid = true;
    let mut fits = true;
    for c in it: body.chars()
        invariant
            it.seq() == body@,
            empty <==> it.index() == 0,
            valid ==> all_digits(body@.take(it.index())),
            !valid ==> !all_digits(body@),
            valid && fits ==> value == digits_value(body@.take(it.index())) && value <= u32::MAX,
            valid && !fits ==> digits_value(body@.take(it.index())) > u32::MAX,
    {
        let ghost at = it.index();
        proof {
            let upto = body@.take(at + 1);
            assert(upto.drop_last() =~= body@.take(at));
            assert(upto.last() == c);
        }
        match digit_of(c) {
            Some(d) => {
                if valid {
                    proof {
                        let upto = body@.take(at + 1);
                        assert forall|i: int| 0 <= i < upto.len() implies (#[trigger] digit_value(
                            upto[i],
                        )) is Some by {
                            if i < at {
                                assert(body@.take(at)[i] == upto[i]);
                            }
                        }
                    }
                    if fits {
                        value = value * 10 + d;
                        if value > 0xffff_ffff {
                            fits = false;
                        }
                    }
                }
            },
            None => {
                proof {
                    assert(digit_value(body@[at]) is None);
                }
                valid = false;
            },
        }
        empty = false;
    }
    proof {
        assert(body@.take(body@.len() as int) =~= body@);
    }
    if !empty && valid && fits {
        Some(value as u32)
    } else {
        None
    }
}

/// The pieces of `s` between the occurrences of `sep`: reading `s` from the
/// left, each `sep` closes a piece and opens the next, and any other character
/// extends the open piece. There is always at least one piece.
pub open spec fn split(s: Seq<char>, sep: char) -> Seq<Seq<char>>
    decreases s.len(),
{
    if s.len() == 0 {
        seq![Seq::empty()]
    } else {
        let before = split(s.drop_last(), sep);
        if s.last() == sep {
            before.push(Seq::empty())
        } else {
            before.drop_last().push(before.last().push(s.last()))
        }
    }
}

/// `split` yields at least one piece, and its last piece is what follows the
/// last `sep`.
pub proof fn lemma_split_last(s: Seq<char>, sep: char, start: int)
    requires
        0 <= start <= s.len(),
        start > 0 ==> s[start - 1] == sep,
        forall|i: int| start <= i < s.len() ==> s[i] != sep,
    ensures
        split(s, sep).len() >= 1,
        split(s, sep).last() == s.subrange(start, s.len() as int),
        start == 0 ==> split(s, sep).len() == 1,
        start > 0 ==> split(s, sep).drop_last() == split(s.take(start - 1), sep),
    decreases s.len(),
{
    if s.len() == 0 {
        assert(s.subrange(0, 0) =~= Seq::<char>::empty());
    } else if start == s.len() {
        assert(s.last() == sep);
        assert(s.subrange(start, s.len() as int) =~= Seq::<char>::empty());
        assert(split(s, sep).drop_last() =~= split(s.drop_last(), sep));
        assert(s.take(start - 1) =~= s.drop_last());
    } else {
        let shorter = s.drop_last();
        lemma_split_last(shorter, sep, start);
        assert(shorter.subrange(start, shorter.len() as int).push(s.last()) =~= s.subrange(
            start,
            s.len() as int,
        ));
        let before = split(shorter, sep);
        assert(split(s, sep) == before.drop_last().push(before.last().push(s.last())));
        assert(split(s, sep).drop_last() =~= before.drop_last());
        if start > 0 {
            assert(shorter.take(start - 1) =~= s.take(start - 1));
        }
    }
}

/// The pieces of a text, joined by the separator again, are the text, and
/// no piece holds the separator.
pub proof fn lemma_split_join(s: Seq<char>, sep: char)
    ensures
        split(s, sep).len() >= 1,
        join(split(s, sep), seq![sep]) == s,
        forall|i: int| 0 <= i < split(s, sep).len() ==> !(#[trigger] split(s, sep)[i]).contains(sep),
    decreases s.len(),
{
    let pieces = split(s, sep);
    if s.len() == 0 {
        assert(join(pieces, seq![sep]) =~= s);
    } else {
        let shorter = s.drop_last();
        let before = split(shorter, sep);
        lemma_split_join(shorter, sep);
        assert(s =~= shorter.push(s.last()));
        if s.last() == sep {
            assert(pieces.drop_last() =~= before);
            assert(join(pieces, seq![sep]) =~= s);
        } else {
            let grown = before.last().push(s.last());
            assert(pieces.last() == grown);
            assert(pieces.drop_last() =~= before.drop_last());
            if before.len() == 1 {
                assert(join(before, seq![sep]) == before[0]);
                assert(join(pieces, seq![sep]) =~= s);
            } else {
                assert(join(pieces, seq![sep]) =~= join(before, seq![sep]).push(s.last()));
            }
        }
        assert forall|i: int| 0 <= i < pieces.len() implies !(#[trigger] pieces[i]).contains(
            sep,
        ) by {
            if i < pieces.len() - 1 {
                assert(pieces[i] == before[i]);
            } else if s.last() != sep {
                if pieces[i].contains(sep) {
                    let k = choose|k: int| 0 <= k < pieces[i].len() && pieces[i][k] == sep;
                    assert(before[before.len() - 1][k] == sep);
                    assert(before[before.len() - 1].contains(sep));
                }
            }
        }
    }
}

/// A text without the separator, put behind another text, extends the last
/// piece of that text.
pub proof fn lemma_split_extended(a: Seq<char>, b: Seq<char>, sep: char)
    requires
        !b.contains(sep),
    ensures
        split(a, sep).len() >= 1,
        split(a + b, sep) == split(a, sep).drop_last().push(split(a, sep).last() + b),
    decreases b.len(),
{
    lemma_split_join(a, sep);
    let pieces = split(a, sep);
    if b.len() == 0 {
        assert(a + b =~= a);
        assert(pieces.last() + b =~= pieces.last());
        assert(pieces =~= pieces.drop_last().push(pieces.last()));
    } else {
        let shorter = b.drop_last();
        assert(!shorter.contains(sep)) by {
            if shorter.contains(sep) {
                let k = choose|k: int| 0 <= k < shorter.len() && shorter[k] == sep;
                assert(b[k] == sep);
            }
        }
        lemma_split_extended(a, shorter, sep);
        assert((a + b).drop_last() =~= a + shorter);
        assert((a + b).last() == b.last());
        assert(b[b.len() - 1] != sep);
        let before = split(a + shorter, sep);
        assert(before.drop_last() =~= pieces.drop_last());
        assert(before.last().push(b.last()) =~= pieces.last() + b);
    }
}

/// A separator and a text without the separator, put behind another text, add
/// the text as a piece.
pub proof fn lemma_split_piece(a: Seq<char>, b: Seq<char>, sep: char)
    requires
        !b.contains(sep),
    ensures
        split(a + seq![sep] + b, sep) == split(a, sep).push(b),
{
    let closed = a + seq![sep];
    assert(closed.drop_last() =~= a);
    assert(closed.last() == sep);
    lemma_split_extended(closed, b, sep);
    let pieces = split(closed, sep);
    assert(pieces.drop_last() =~= split(a, sep));
    assert(pieces.last() + b =~= b);
}

/// The pieces of two texts with a separator between them are the pieces of
/// the first and the pieces of the second.
pub proof fn lemma_split_at_separator(a: Seq<char>, b: Seq<char>, sep: char)
    ensures
        split(a + seq![sep] + b, sep) == split(a, sep) + split(b, sep),
    decreases b.len(),
{
    let closed = a + seq![sep];
    lemma_split_join(b, sep);
    if b.len() == 0 {
        assert(closed + b =~= closed);
        assert(closed.drop_last() =~= a);
        assert(split(a, sep).push(Seq::<char>::empty()) =~= split(a, sep) + split(b, sep));
    } else {
        let shorter = b.drop_last();
        lemma_split_at_separator(a, shorter, sep);
        lemma_split_join(shorter, sep);
        assert((closed + b).drop_last() =~= closed + shorter);
        assert((closed + b).last() == b.last());
        let before = split(closed + shorter, sep);
        let behind = split(shorter, sep);
        assert(before.last() == behind.last());
        assert(before.drop_last() =~= split(a, sep) + behind.drop_last());
        if b.last() == sep {
            assert(before.push(Seq::<char>::empty()) =~= split(a, sep) + behind.push(
                Seq::<char>::empty(),
            ));
        } else {
            assert(before.drop_last().push(before.last().push(b.last())) =~= split(a, sep)
                + behind.drop_last().push(behind.last().push(b.last())));
        }
    }
}

/// Each piece of a text stands in the text.
pub proof fn lemma_split_piece_occurs(s: Seq<char>, sep: char, i: int)
    requires
        0 <= i < split(s, sep).len(),
    ensures
        contains_text(s, split(s, sep)[i]),
    decreases s.len(),
{
    let pieces = split(s, sep);
    if s.len() == 0 {
        assert(s.subrange(0, 0) =~= pieces[i]);
        assert(occurs_at(s, pieces[i], 0));
    } else {
        let shorter = s.drop_last();
        let before = split(shorter, sep);
        lemma_split_join(shorter, sep);
        if i < pieces.len() - 1 {
            assert(pieces[i] == before[i]);
            lemma_split_piece_occurs(shorter, sep, i);
            let at = choose|at: int| occurs_at(shorter, before[i], at);
            assert(s.subrange(at, at + before[i].len()) =~= shorter.subrange(
                at,
                at + before[i].len(),
            ));
            assert(occurs_at(s, pieces[i], at));
        } else if s.last() == sep {
            assert(s.subrange(s.len() as int, s.len() as int) =~= pieces[i]);
            assert(occurs_at(s, pieces[i], s.len() as int));
        } else {
            // The last piece stands at the end of the text.
            lemma_split_last_stands_last(shorter, sep);
            let from = shorter.len() - before.last().len();
            assert(s.subrange(from, s.len() as int) =~= before.last().push(s.last()));
            assert(occurs_at(s, pieces[i], from));
        }
    }
}

/// The last piece of a text stands at its end.
pub proof fn lemma_split_last_stands_last(s: Seq<char>, sep: char)
    ensures
        split(s, sep).len() >= 1,
        split(s, sep).last().len() <= s.len(),
        s.subrange(s.len() - split(s, sep).last().len(), s.len() as int) == split(s, sep).last(),
    decreases s.len(),
{
    if s.len() == 0 {
        assert(s.subrange(0, 0) =~= split(s, sep).last());
    } else {
        let shorter = s.drop_last();
        lemma_split_last_stands_last(shorter, sep);
        let before = split(shorter, sep);
        if s.last() == sep {
            assert(s.subrange(s.len() as int, s.len() as int) =~= split(s, sep).last());
        } else {
            let from = shorter.len() - before.last().len();
            assert(s.subrange(from, s.len() as int) =~= shorter.subrange(
                from,
                shorter.len() as int,
            ).push(s.last()));
        }
    }
}

/// Splits `s` at each occurrence of `sep`.
pub fn split_on(s: &str, sep: char) -> (pieces: Vec<String>)
    ensures
        texts(pieces@) == split(s@, sep),
        pieces@.len() >= 1,
{
    let length = s.unicode_len();
    let mut pieces: Vec<String> = Vec::new();
    let mut start: usize = 0;
    let mut at: usize = 0;
    for c in it: s.chars()
        invariant
            it.seq() == s@,
            length == s@.len(),
            at == it.index(),
            start <= at <= s@.len(),
            start > 0 ==> s@[start - 1] == sep,
            forall|i: int| start <= i < at ==> s@[i] != sep,
            start == 0 ==> pieces@.len() == 0,
            start > 0 ==> texts(pieces@) == split(s@.take(start - 1), sep),
    {
        if c == sep {
            let piece = s.substring_char(start, at);
            proof {
                let upto = s@.take(at as int);
                lemma_split_last(upto, sep, start as int);
                assert(upto.subrange(start as int, at as int) =~= s@.subrange(
                    start as int,
                    at as int,
                ));
                let all = split(upto, sep);
                assert(all =~= all.drop_last().push(all.last()));
                if start > 0 {
                    assert(upto.take(start - 1) =~= s@.take(start - 1));
                } else {
                    assert(all.drop_last() =~= Seq::<Seq<char>>::empty());
                }
            }
            let owned = String::from_str(piece);
            proof {
                assert(texts(pieces@.push(owned)) =~= texts(pieces@).push(owned@));
            }
            pieces.push(owned);
            start = at + 1;
        }
        at = at + 1;
    }
    let piece = s.substring_char(start, at);
    let owned = String::from_str(piece);
    proof {
        assert(s@.take(at as int) =~= s@);
        lemma_split_last(s@, sep, start as int);
        let all = split(s@, sep);
        assert(all =~= all.drop_last().push(all.last()));
        if start == 0 {
            assert(all.drop_last() =~= Seq::<Seq<char>>::empty());
        }
        assert(texts(pieces@.push(owned)) =~= texts(pieces@).push(owned@));
    }
    pieces.push(owned);
    pieces
}

/// Whether `a` comes before `b` in dictionary order, characters compared by
/// their code points.
pub open spec fn text_lt(a: Seq<char>, b: Seq<char>) -> bool
    decreases a.len(),
{
    if b.len() == 0 {
        false
    } else if a.len() == 0 {
        true
    } else if a[0] != b[0] {
        a[0] < b[0]
    } else {
        text_lt(a.skip(1), b.skip(1))
    }
}

/// No text comes before itself.
pub proof fn lemma_text_lt_irreflexive(a: Seq<char>)
    ensures
        !text_lt(a, a),
    decreases a.len(),
{
    if a.len() > 0 {
        lemma_text_lt_irreflexive(a.skip(1));
    }
}

/// Of two different texts, one comes before the other.
pub proof fn lemma_text_lt_total(a: Seq<char>, b: Seq<char>)
    ensures
        a == b || text_lt(a, b) || text_lt(b, a),
    decreases a.len(),
{
    if a.len() == 0 || b.len() == 0 {
        if a.len() == 0 && b.len() == 0 {
            assert(a =~= b);
        }
    } else if a[0] == b[0] {
        lemma_text_lt_total(a.skip(1), b.skip(1));
        if a.skip(1) == b.skip(1) {
            assert(a =~= seq![a[0]] + a.skip(1));
            assert(b =~= seq![b[0]] + b.skip(1));
        }
    }
}

/// Dictionary order is transitive.
pub proof fn lemma_text_lt_transitive(a: Seq<char>, b: Seq<char>, c: Seq<char>)
    requires
        text_lt(a, b),
        text_lt(b, c),
    ensures
        text_lt(a, c),
    decreases a.len(),
{
    if a.len() > 0 && a[0] == b[0] && b[0] == c[0] {
        lemma_text_lt_transitive(a.skip(1), b.skip(1), c.skip(1));
    }
}

/// Of two texts, at most one comes before the other.
pub proof fn lemma_text_lt_asymmetric(a: Seq<char>, b: Seq<char>)
    requires
        text_lt(a, b),
    ensures
        !text_lt(b, a),
        a != b,
{
    lemma_text_lt_irreflexive(a);
    if text_lt(b, a) {
        lemma_text_lt_transitive(a, b, a);
    }
}

/// The lowercase form of a text, as `str::to_lowercase` gives it.
pub uninterp spec fn lowered(s: Seq<char>) -> Seq<char>;

/// `str::to_lowercase`: the result is determined by the characters of `s`.
#[verifier::external_body]
pub(crate) fn lowercase(s: &str) -> (lower: String)
    ensures
        lower@ == lowered(s@),
{
    s.to_lowercase()
}

/// Whether `pattern` stands in `s` at the place `at`.
pub open spec fn occurs_at(s: Seq<char>, pattern: Seq<char>, at: int) -> bool {
    0 <= at && at + pattern.len() <= s.len() && s.subrange(at, at + pattern.len()) == pattern
}

/// Whether `pattern` stands somewhere in `s`.
pub open spec fn contains_text(s: Seq<char>, pattern: Seq<char>) -> bool {
    exists|at: int| occurs_at(s, pattern, at)
}

/// Whether `c` stands in `pattern` before its last place.
pub open spec fn in_front(pattern: Seq<char>, c: char) -> bool {
    exists|k: int| 0 <= k < pattern.len() - 1 && pattern[k] == c
}

/// Whether `c` stands in `pattern` behind its first place.
pub open spec fn in_back(pattern: Seq<char>, c: char) -> bool {
    exists|k: int| 1 <= k < pattern.len() && pattern[k] == c
}

/// Whether no character of `s` stands in `pattern`.
pub open spec fn shares_no_char(s: Seq<char>, pattern: Seq<char>) -> bool {
    forall|i: int, k: int|
        0 <= i < s.len() && 0 <= k < pattern.len() ==> #[trigger] s[i] != #[trigger] pattern[k]
}

/// Where a pattern can stand in two texts put together: in the first or in
/// the second. It cannot lie across the seam if the first text ends with a
/// character that the pattern has nowhere before its last place, or the second
/// begins with one that the pattern has nowhere behind its first place.
pub proof fn lemma_occurs_in_concat(a: Seq<char>, b: Seq<char>, pattern: Seq<char>, at: int)
    requires
        occurs_at(a + b, pattern, at),
        a.len() == 0 || b.len() == 0 || !in_front(pattern, a.last()) || !in_back(pattern, b[0]),
    ensures
        occurs_at(a, pattern, at) || occurs_at(b, pattern, at - a.len()),
{
    let whole = a + b;
    let found = whole.subrange(at, at + pattern.len());
    if at + pattern.len() <= a.len() {
        assert(a.subrange(at, at + pattern.len()) =~= found);
    } else if at >= a.len() {
        assert(b.subrange(at - a.len(), at - a.len() + pattern.len()) =~= found);
    } else {
        let k = a.len() - 1 - at;
        assert(found[k] == whole[a.len() - 1]);
        assert(found[k + 1] == whole[a.len() as int]);
        assert(pattern[k] == a.last());
        assert(pattern[k + 1] == b[0]);
        assert(in_front(pattern, a.last()));
        assert(in_back(pattern, b[0]));
    }
}

/// Two texts put together hold a pattern only if one of them does, where the
/// pattern cannot lie across the seam.
pub proof fn lemma_concat_free(a: Seq<char>, b: Seq<char>, pattern: Seq<char>)
    requires
        !contains_text(a, pattern),
        !contains_text(b, pattern),
        a.len() == 0 || b.len() == 0 || !in_front(pattern, a.last()) || !in_back(pattern, b[0]),
    ensures
        !contains_text(a + b, pattern),
{
    if contains_text(a + b, pattern) {
        let at = choose|at: int| occurs_at(a + b, pattern, at);
        lemma_occurs_in_concat(a, b, pattern, at);
    }
}

/// A text that shares no character with a pattern does not hold it, and the
/// pattern cannot lie across a seam at either end of the text.
pub proof fn lemma_shares_no_char(s: Seq<char>, pattern: Seq<char>)
    requires
        shares_no_char(s, pattern),
        pattern.len() > 0,
    ensures
        !contains_text(s, pattern),
        s.len() > 0 ==> !in_front(pattern, s.last()) && !in_back(pattern, s[0]),
        s.len() > 0 ==> !in_front(pattern, s[0]) && !in_back(pattern, s.last()),
{
    if contains_text(s, pattern) {
        let at = choose|at: int| occurs_at(s, pattern, at);
        assert(s.subrange(at, at + pattern.len())[0] == pattern[0]);
        assert(s[at] == pattern[0]);
    }
    if s.len() > 0 {
        assert forall|k: int| 0 <= k < pattern.len() implies pattern[k] != s.last() && pattern[k]
            != s[0] by {
            assert(s[s.len() - 1] != pattern[k]);
            assert(s[0] != pattern[k]);
        }
    }
}

/// A number in decimal is made of digits.
pub proof fn lemma_decimal_digits(n: nat)
    ensures
        decimal(n).len() > 0,
        forall|i: int| 0 <= i < decimal(n).len() ==> (#[trigger] digit_value(decimal(n)[i])) is Some,
    decreases n,
{
    if n >= 10 {
        lemma_decimal_digits(n / 10);
        let front = decimal(n / 10);
        assert forall|i: int| 0 <= i < decimal(n).len() implies (#[trigger] digit_value(
            decimal(n)[i],
        )) is Some by {
            if i < front.len() {
                assert(decimal(n)[i] == front[i]);
            }
        }
    }
}

/// A number below 2^32, written in decimal, reads as itself.
pub proof fn lemma_decimal_reads_back(n: u32)
    ensures
        parsed_u32(decimal(n as nat)) == Some(n),
{
    lemma_decimal_value(n as nat);
    lemma_decimal_digits(n as nat);
    let written = decimal(n as nat);
    assert(digit_value(written[0]) is Some);
    assert(unsigned_body(written) == written);
}

/// The digits of a number in decimal have the number as their value.
pub proof fn lemma_decimal_value(n: nat)
    ensures
        digits_value(decimal(n)) == n,
    decreases n,
{
    let written = decimal(n);
    assert(digit_value(digit_char(n % 10)) == Some(n % 10));
    if n >= 10 {
        lemma_decimal_value(n / 10);
        assert(written.drop_last() =~= decimal(n / 10));
        assert(written.last() == digit_char(n % 10));
    } else {
        assert(written.drop_last() =~= Seq::<char>::empty());
        assert(written.last() == digit_char(n % 10));
        assert(digits_value(written.drop_last()) == 0);
    }
}

/// Texts joined by a separator hold a pattern only if one of them does, where
/// the separator shares no character with the pattern.
pub proof fn lemma_join_free(parts: Seq<Seq<char>>, sep: Seq<char>, pattern: Seq<char>)
    requires
        pattern.len() > 0,
        sep.len() > 0,
        shares_no_char(sep, pattern),
        forall|i: int| 0 <= i < parts.len() ==> !contains_text(#[trigger] parts[i], pattern),
    ensures
        !contains_text(join(parts, sep), pattern),
    decreases parts.len(),
{
    if parts.len() == 0 {
        if contains_text(Seq::<char>::empty(), pattern) {
            let at = choose|at: int| occurs_at(Seq::<char>::empty(), pattern, at);
        }
    } else if parts.len() == 1 {
    } else {
        let front = parts.drop_last();
        assert forall|i: int| 0 <= i < front.len() implies !contains_text(
            #[trigger] front[i],
            pattern,
        ) by {
            assert(front[i] == parts[i]);
        }
        lemma_join_free(front, sep, pattern);
        lemma_shares_no_char(sep, pattern);
        lemma_concat_free(join(front, sep), sep, pattern);
        assert((join(front, sep) + sep).last() == sep.last());
        lemma_concat_free(join(front, sep) + sep, parts.last(), pattern);
    }
}

/// The characters of `s`, one by one.
pub fn chars_of(s: &str) -> (chars: Vec<char>)
    ensures
        chars@ == s@,
{
    let mut chars: Vec<char> = Vec::new();
    for c in it: s.chars()
        invariant
            it.seq() == s@,
            chars@ == s@.take(it.index()),
    {
        chars.push(c);
        proof {
            assert(chars@ =~= s@.take(it.index() + 1));
        }
    }
    proof {
        assert(s@.take(s@.len() as int) =~= s@);
    }
    chars
}

fn stands_at(text: &Vec<char>, pattern: &Vec<char>, at: usize) -> (found: bool)
    requires
        at + pattern.len() <= text.len(),
    ensures
        found == occurs_at(text@, pattern@, at as int),
{
    let mut k: usize = 0;
    while k < pattern.len()
        invariant
            k <= pattern.len(),
            at + pattern.len() <= text.len(),
            forall|j: int| 0 <= j < k ==> text@[at + j] == pattern@[j],
        decreases pattern.len() - k,
    {
        if text[at + k] != pattern[k] {
            proof {
                let found = text@.subrange(at as int, at + pattern.len());
                assert(found[k as int] == text@[at + k]);
            }
            return false;
        }
        k += 1;
    }
    proof {
        assert(text@.subrange(at as int, at + pattern.len()) =~= pattern@);
    }
    true
}

/// Whether `s` begins with `prefix`.
pub fn begins_with(s: &str, prefix: &str) -> (found: bool)
    ensures
        found == occurs_at(s@, prefix@, 0),
{
    let text = chars_of(s);
    let pattern = chars_of(prefix);
    if pattern.len() <= text.len() {
        stands_at(&text, &pattern, 0)
    } else {
        false
    }
}

/// Whether `s` ends with `suffix`.
pub fn ends_with(s: &str, suffix: &str) -> (found: bool)
    ensures
        found == occurs_at(s@, suffix@, s@.len() - suffix@.len()),
{
    let text = chars_of(s);
    let pattern = chars_of(suffix);
    if pattern.len() <= text.len() {
        stands_at(&text, &pattern, text.len() - pattern.len())
    } else {
        false
    }
}

/// Whether `pattern` stands somewhere in `s`.
pub fn has_text(s: &str, pattern: &str) -> (found: bool)
    ensures
        found == contains_text(s@, pattern@),
{
    let text = chars_of(s);
    let wanted = chars_of(pattern);
    if wanted.len() > text.len() {
        return false;
    }
    if wanted.len() == 0 {
        proof {
            assert(text@.subrange(0, 0) =~= wanted@);
            assert(occurs_at(s@, pattern@, 0));
        }
        return true;
    }
    let last = text.len() - wanted.len();
    let mut at: usize = 0;
    while at <= last
        invariant
            at <= last + 1,
            last == text.len() - wanted.len(),
            0 < wanted.len() <= text.len(),
            text@ == s@,
            wanted@ == pattern@,
            forall|i: int| 0 <= i < at ==> !occurs_at(text@, wanted@, i),
        decreases last + 1 - at,
    {
        if stands_at(&text, &wanted, at) {
            return true;
        }
        at += 1;
    }
    false
}

/// `s` without the repetitions of `suffix` at its end.
pub open spec fn without_suffixes(s: Seq<char>, suffix: Seq<char>) -> Seq<char>
    decreases s.len(),
{
    if suffix.len() > 0 && occurs_at(s, suffix, s.len() - suffix.len()) {
        without_suffixes(s.take(s.len() - suffix.len()), suffix)
    } else {
        s
    }
}

/// `s` without the repetitions of `suffix` at its end.
pub fn trim_end(s: &str, suffix: &str) -> (trimmed: String)
    ensures
        trimmed@ == without_suffixes(s@, suffix@),
{
    let text = chars_of(s);
    let wanted = chars_of(suffix);
    if wanted.len() == 0 {
        return String::from_str(s);
    }
    let mut end: usize = text.len();
    proof {
        assert(s@.take(s@.len() as int) =~= s@);
    }
    loop
        invariant
            end <= text.len(),
            text@ == s@,
            wanted@ == suffix@,
            wanted.len() > 0,
            without_suffixes(s@, suffix@) == without_suffixes(s@.take(end as int), suffix@),
        ensures
            end <= text.len(),
            text@ == s@,
            without_suffixes(s@, suffix@) == s@.take(end as int),
        decreases end,
    {
        if end < wanted.len() {
            break;
        }
        let found = stands_at(&text, &wanted, end - wanted.len());
        proof {
            let upto = s@.take(end as int);
            let from = end - wanted.len();
            assert(upto.subrange(from, from + wanted.len()) =~= text@.subrange(
                from,
                from + wanted.len(),
            ));
            assert(upto.take(upto.len() - suffix@.len()) =~= s@.take(from));
        }
        if !found {
            break;
        }
        end = end - wanted.len();
    }
    proof {
        assert(s@.subrange(0, end as int) =~= s@.take(end as int));
    }
    String::from_str(s.substring_char(0, end))
}

/// `s` without the repetitions of `prefix` at its start.
pub open spec fn without_prefixes(s: Seq<char>, prefix: Seq<char>) -> Seq<char>
    decreases s.len(),
{
    if prefix.len() > 0 && occurs_at(s, prefix, 0) {
        without_prefixes(s.skip(prefix.len() as int), prefix)
    } else {
        s
    }
}

/// `s` without the repetitions of `prefix` at its start.
pub fn trim_start(s: &str, prefix: &str) -> (trimmed: String)
    ensures
        trimmed@ == without_prefixes(s@, prefix@),
{
    let text = chars_of(s);
    let wanted = chars_of(prefix);
    if wanted.len() == 0 {
        return String::from_str(s);
    }
    let mut start: usize = 0;
    proof {
        assert(s@.skip(0) =~= s@);
    }
    loop
        invariant
            start <= text.len(),
            text@ == s@,
            wanted@ == prefix@,
            wanted.len() > 0,
            without_prefixes(s@, prefix@) == without_prefixes(s@.skip(start as int), prefix@),
        ensures
            start <= text.len(),
            text@ == s@,
            without_prefixes(s@, prefix@) == s@.skip(start as int),
        decreases text.len() - start,
    {
        if text.len() - start < wanted.len() {
            break;
        }
        let found = stands_at(&text, &wanted, start);
        proof {
            let rest = s@.skip(start as int);
            assert(rest.subrange(0, wanted.len() as int) =~= text@.subrange(
                start as int,
                start + wanted.len(),
            ));
            assert(rest.skip(prefix@.len() as int) =~= s@.skip(start + wanted.len()));
        }
        if !found {
            break;
        }
        start = start + wanted.len();
    }
    proof {
        assert(s@.subrange(start as int, s@.len() as int) =~= s@.skip(start as int));
    }
    String::from_str(s.substring_char(start, text.len()))
}

/// The pieces of `s` that `sep` ends: as `split`, but without an empty piece
/// at the end.
pub open spec fn split_terminated(s: Seq<char>, sep: char) -> Seq<Seq<char>> {
    let pieces = split(s, sep);
    if pieces.last().len() == 0 {
        pieces.drop_last()
    } else {
        pieces
    }
}

/// Splits `s` into the pieces that `sep` ends.
pub fn split_terminator(s: &str, sep: char) -> (pieces: Vec<String>)
    ensures
        texts(pieces@) == split_terminated(s@, sep),
{
    let mut pieces = split_on(s, sep);
    let n = pieces.len();
    proof {
        assert(texts(pieces@)[n - 1] == pieces@[n - 1]@);
        assert(texts(pieces@.drop_last()) =~= texts(pieces@).drop_last());
    }
    if pieces[n - 1].as_str().is_empty() {
        pieces.pop();
    }
    pieces
}

/// Whether a character is white space, as `char::is_whitespace` tells it.
pub uninterp spec fn white_space(c: char) -> bool;

/// `char::is_whitespace`: the answer is determined by the character.
#[verifier::external_body]
fn is_white_space(c: char) -> (white: bool)
    ensures
        white == white_space(c),
{
    c.is_whitespace()
}

/// `s` without the white space at its start.
pub open spec fn without_leading_space(s: Seq<char>) -> Seq<char>
    decreases s.len(),
{
    if s.len() > 0 && white_space(s.first()) {
        without_leading_space(s.drop_first())
    } else {
        s
    }
}

/// `s` without the white space at its end.
pub open spec fn without_trailing_space(s: Seq<char>) -> Seq<char>
    decreases s.len(),
{
    if s.len() > 0 && white_space(s.last()) {
        without_trailing_space(s.drop_last())
    } else {
        s
    }
}

/// A text without the white space at its ends.
pub open spec fn trimmed(s: Seq<char>) -> Seq<char> {
    without_trailing_space(without_leading_space(s))
}

/// `s` without the white space at its ends.
pub fn trim(s: &str) -> (inner: String)
    ensures
        inner@ == trimmed(s@),
{
    let text = chars_of(s);
    let mut start: usize = 0;
    proof {
        assert(s@.skip(0) =~= s@);
    }
    while start < text.len() && is_white_space(text[start])
        invariant
            start <= text.len(),
            text@ == s@,
            without_leading_space(s@) == without_leading_space(s@.skip(start as int)),
        decreases text.len() - start,
    {
        proof {
            assert(s@.skip(start as int).first() == text@[start as int]);
            assert(s@.skip(start as int).drop_first() =~= s@.skip(start + 1));
        }
        start += 1;
    }
    proof {
        if start < text.len() {
            assert(s@.skip(start as int).first() == text@[start as int]);
        }
        assert(without_leading_space(s@) == s@.skip(start as int));
        assert(s@.skip(start as int) =~= s@.subrange(start as int, text.len() as int));
    }
    let mut end: usize = text.len();
    while end > start && is_white_space(text[end - 1])
        invariant
            start <= end <= text.len(),
            text@ == s@,
            trimmed(s@) == without_trailing_space(s@.subrange(start as int, end as int)),
        decreases end,
    {
        proof {
            let piece = s@.subrange(start as int, end as int);
            assert(piece.last() == text@[end - 1]);
            assert(piece.drop_last() =~= s@.subrange(start as int, end - 1));
        }
        end -= 1;
    }
    proof {
        let piece = s@.subrange(start as int, end as int);
        if end > start {
            assert(piece.last() == text@[end - 1]);
        }
        assert(trimmed(s@) == piece);
    }
    String::from_str(s.substring_char(start, end))
}

/// `line` without a carriage return at its end.
pub open spec fn without_return(line: Seq<char>) -> Seq<char> {
    if line.len() > 0 && line.last() == '\r' {
        line.drop_last()
    } else {
        line
    }
}

/// The lines of a text. A line ends with a line feed, or with a carriage
/// return and a line feed, neither of which belongs to the line; the last line
/// may end with the text, and then keeps a carriage return at its end.
pub open spec fn lines_of(text: Seq<char>) -> Seq<Seq<char>> {
    let pieces = split(text, '\n');
    let ended = pieces.drop_last().map_values(|line: Seq<char>| without_return(line));
    if pieces.last().len() == 0 {
        ended
    } else {
        ended.push(pieces.last())
    }
}

fn strip_return(line: &str) -> (stripped: String)
    ensures
        stripped@ == without_return(line@),
{
    let length = line.unicode_len();
    if length > 0 && line.get_char(length - 1) == '\r' {
        proof {
            assert(line@.subrange(0, length - 1) =~= line@.drop_last());
        }
        String::from_str(line.substring_char(0, length - 1))
    } else {
        String::from_str(line)
    }
}

/// The lines of a text.
pub fn text_lines(s: &str) -> (lines: Vec<String>)
    ensures
        texts(lines@) == lines_of(s@),
{
    let mut pieces = split_on(s, '\n');
    let last = pieces.pop().unwrap();
    let ghost ended = texts(pieces@).map_values(|line: Seq<char>| without_return(line));
    proof {
        let all = split(s@, '\n');
        assert(texts(pieces@) =~= all.drop_last());
        assert(last@ == all.last());
    }
    let mut lines: Vec<String> = Vec::new();
    let mut i: usize = 0;
    while i < pieces.len()
        invariant
            i <= pieces.len(),
            lines@.len() == i,
            forall|k: int| 0 <= k < i ==> (#[trigger] lines@[k])@ == without_return(pieces@[k]@),
        decreases pieces.len() - i,
    {
        lines.push(strip_return(pieces[i].as_str()));
        i += 1;
    }
    proof {
        assert(texts(lines@) =~= ended);
    }
    if !last.as_str().is_empty() {
        proof {
            assert(texts(lines@.push(last)) =~= texts(lines@).push(last@));
        }
        lines.push(last);
    }
    lines
}


/// Whether `a` comes before `b` in dictionary order.
pub fn text_before(a: &str, b: &str) -> (before: bool)
    ensures
        before == text_lt(a@, b@),
{
    let first = chars_of(a);
    let second = chars_of(b);
    let mut i: usize = 0;
    proof {
        assert(a@.skip(0) =~= a@);
        assert(b@.skip(0) =~= b@);
    }
    while i < first.len() && i < second.len()
        invariant
            i <= first.len(),
            i <= second.len(),
            first@ == a@,
            second@ == b@,
            text_lt(a@, b@) == text_lt(a@.skip(i as int), b@.skip(i as int)),
        decreases first.len() - i,
    {
        proof {
            assert(a@.skip(i as int).skip(1) =~= a@.skip(i + 1));
            assert(b@.skip(i as int).skip(1) =~= b@.skip(i + 1));
        }
        let x: char = first[i];
        let y: char = second[i];
        if x != y {
            proof {
                assert(a@.skip(i as int)[0] == x);
                assert(b@.skip(i as int)[0] == y);
            }
            return x < y;
        }
        proof {
            assert(a@.skip(i as int)[0] == b@.skip(i as int)[0]);
        }
        i += 1;
    }
    i < second.len()
}

} // verus!
