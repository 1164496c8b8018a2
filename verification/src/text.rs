//! Text primitives: comparison, joining, splitting and number formatting, each
//! stated over the sequence of characters a string holds.

use vstd::prelude::*;
use vstd::string::{StrSliceExecFns, StringExecFns};

verus! {

/// The decimal digit for `d`, as a character.
pub open spec fn digit_char(d: nat) -> char {
    (('0' as nat) + d) as char
}

/// The decimal rendering of `n`, without leading zeros.
pub open spec fn decimal(n: nat) -> Seq<char>
    decreases n,
{
    if n < 10 {
        seq![digit_char(n)]
    } else {
        decimal(n / 10).push(digit_char(n % 10))
    }
}

/// The lower-case hexadecimal digit for `d`.
pub open spec fn hex_char(d: nat) -> char {
    if d < 10 {
        (('0' as nat) + d) as char
    } else {
        (('a' as nat) + (d - 10)) as char
    }
}

/// Two lower-case hexadecimal digits per byte, most significant first.
pub open spec fn hex(bytes: Seq<u8>) -> Seq<char>
    decreases bytes.len(),
{
    if bytes.len() == 0 {
        Seq::empty()
    } else {
        hex(bytes.drop_last()).push(hex_char((bytes.last() / 16) as nat)).push(
            hex_char((bytes.last() % 16) as nat),
        )
    }
}

/// Whether `a` comes strictly before `b`, character by character.
pub open spec fn precedes(a: Seq<char>, b: Seq<char>) -> bool
    decreases a.len(),
{
    if b.len() == 0 {
        false
    } else if a.len() == 0 {
        true
    } else if a[0] != b[0] {
        a[0] < b[0]
    } else {
        precedes(a.drop_first(), b.drop_first())
    }
}

/// What each string of a list holds.
pub open spec fn texts(strings: Seq<String>) -> Seq<Seq<char>> {
    strings.map_values(|text: String| text@)
}

/// What a string holds, where there is one.
pub open spec fn text_of(string: Option<String>) -> Option<Seq<char>> {
    match string {
        Some(text) => Some(text@),
        None => None,
    }
}

/// Copies a list of strings.
pub fn clone_texts(strings: &Vec<String>) -> (copies: Vec<String>)
    ensures
        texts(copies@) == texts(strings@),
{
    let mut copies: Vec<String> = Vec::new();
    let mut i: usize = 0;
    while i < strings.len()
        invariant
            i <= strings@.len(),
            copies@.len() == i,
            forall|j: int| 0 <= j < i ==> (#[trigger] copies@[j])@ == strings@[j]@,
        decreases strings@.len() - i,
    {
        copies.push(strings[i].clone());
        i = i + 1;
    }
    assert(texts(copies@) =~= texts(strings@));
    copies
}

/// Copies a string, where there is one.
pub fn clone_text(string: &Option<String>) -> (copy: Option<String>)
    ensures
        copy == *string,
{
    match string {
        Some(text) => Some(text.clone()),
        None => None,
    }
}

/// Whether two strings hold the same characters.
pub fn same_text(a: &str, b: &str) -> (same: bool)
    ensures
        same == (a@ == b@),
{
    let mut left = a.chars();
    let mut right = b.chars();
    let ghost mut taken: int = 0;
    loop
        invariant
            0 <= taken <= a@.len(),
            taken <= b@.len(),
            vstd::std_specs::iter::IteratorSpec::remaining(&left) == a@.skip(taken),
            vstd::std_specs::iter::IteratorSpec::remaining(&right) == b@.skip(taken),
            vstd::std_specs::iter::IteratorSpec::obeys_prophetic_iter_laws(&left),
            vstd::std_specs::iter::IteratorSpec::obeys_prophetic_iter_laws(&right),
            forall|i: int| 0 <= i < taken ==> a@[i] == b@[i],
        decreases a@.len() - taken,
    {
        let x = left.next();
        let y = right.next();
        match (x, y) {
            (Some(c), Some(d)) => {
                if c != d {
                    assert(a@[taken] != b@[taken]);
                    return false;
                }
                proof {
                    taken = taken + 1;
                    assert(a@.skip(taken - 1).drop_first() =~= a@.skip(taken));
                    assert(b@.skip(taken - 1).drop_first() =~= b@.skip(taken));
                }
            },
            (None, None) => {
                assert(a@ =~= b@);
                return true;
            },
            (_, _) => {
                assert(a@.len() != b@.len());
                return false;
            },
        }
    }
}

/// `a` followed by `b`.
pub fn joined(a: &str, b: &str) -> (text: String)
    ensures
        text@ == a@ + b@,
{
    let mut text: String = a.to_owned();
    text.append(b);
    text
}

/// `a`, then `separator`, then `b`.
pub fn joined_with(a: &str, separator: &str, b: &str) -> (text: String)
    ensures
        text@ == a@ + separator@ + b@,
{
    let mut text: String = a.to_owned();
    text.append(separator);
    text.append(b);
    text
}

/// The decimal digit for `d`, as text.
fn digit(d: u64) -> (text: &'static str)
    requires
        d < 10,
    ensures
        text@ == seq![digit_char(d as nat)],
{
    proof {
        reveal_strlit("0");
        reveal_strlit("1");
        reveal_strlit("2");
        reveal_strlit("3");
        reveal_strlit("4");
        reveal_strlit("5");
        reveal_strlit("6");
        reveal_strlit("7");
        reveal_strlit("8");
        reveal_strlit("9");
    }
    let text: &'static str = match d {
        0 => "0",
        1 => "1",
        2 => "2",
        3 => "3",
        4 => "4",
        5 => "5",
        6 => "6",
        7 => "7",
        8 => "8",
        _ => "9",
    };
    assert(text@ =~= seq![digit_char(d as nat)]);
    text
}

/// The lower-case hexadecimal digit for `d`, as text.
fn hex_digit(d: u8) -> (text: &'static str)
    requires
        d < 16,
    ensures
        text@ == seq![hex_char(d as nat)],
{
    if d < 10 {
        return digit(d as u64);
    }
    proof {
        reveal_strlit("a");
        reveal_strlit("b");
        reveal_strlit("c");
        reveal_strlit("d");
        reveal_strlit("e");
        reveal_strlit("f");
    }
    let text: &'static str = match d {
        10 => "a",
        11 => "b",
        12 => "c",
        13 => "d",
        14 => "e",
        _ => "f",
    };
    assert(text@ =~= seq![hex_char(d as nat)]);
    text
}

/// Renders a number in decimal.
pub fn to_decimal(n: u64) -> (text: String)
    ensures
        text@ == decimal(n as nat),
    decreases n,
{
    if n < 10 {
        digit(n).to_owned()
    } else {
        let mut text: String = to_decimal(n / 10);
        text.append(digit(n % 10));
        assert(text@ =~= decimal(n as nat));
        text
    }
}

/// Renders bytes in lower-case hexadecimal.
pub fn to_hex(bytes: &Vec<u8>) -> (text: String)
    ensures
        text@ == hex(bytes@),
{
    let mut text: String = String::new();
    let mut i: usize = 0;
    while i < bytes.len()
        invariant
            i <= bytes@.len(),
            text@ == hex(bytes@.take(i as int)),
        decreases bytes@.len() - i,
    {
        let byte: u8 = bytes[i];
        text.append(hex_digit(byte / 16));
        text.append(hex_digit(byte % 16));
        proof {
            let next = bytes@.take(i + 1);
            assert(next.drop_last() =~= bytes@.take(i as int));
            assert(next.last() == byte);
            assert(text@ =~= hex(next));
        }
        i = i + 1;
    }
    assert(bytes@.take(bytes@.len() as int) =~= bytes@);
    text
}

/// Whether `text` begins with `prefix`.
pub open spec fn has_prefix(text: Seq<char>, prefix: Seq<char>) -> bool {
    prefix.len() <= text.len() && text.take(prefix.len() as int) == prefix
}

/// Whether `text` begins with `prefix`.
pub fn starts_with(text: &str, prefix: &str) -> (yes: bool)
    ensures
        yes == has_prefix(text@, prefix@),
{
    let length: usize = prefix.unicode_len();
    if text.unicode_len() < length {
        return false;
    }
    same_text(text.substring_char(0, length), prefix)
}

/// Where `mark` first occurs in `text`; its length when it does not occur.
pub open spec fn first_mark(text: Seq<char>, mark: char) -> int
    decreases text.len(),
{
    if text.len() == 0 || text[0] == mark {
        0
    } else {
        1 + first_mark(text.drop_first(), mark)
    }
}

/// The place `first_mark` names is the only one before which `mark` does not
/// occur and at which it does, or the end.
pub proof fn lemma_first_mark(text: Seq<char>, mark: char, at: int)
    requires
        0 <= at <= text.len(),
        forall|i: int| 0 <= i < at ==> text[i] != mark,
        at < text.len() ==> text[at] == mark,
    ensures
        first_mark(text, mark) == at,
    decreases text.len(),
{
    if text.len() > 0 && text[0] != mark {
        let rest = text.drop_first();
        assert forall|i: int| 0 <= i < at - 1 implies rest[i] != mark by {
            assert(rest[i] == text[i + 1]);
        }
        assert(at >= 1);
        lemma_first_mark(rest, mark, at - 1);
    }
}

/// Finds where `mark` first occurs in `text`, or its length.
pub fn find_mark(text: &str, mark: char) -> (at: usize)
    ensures
        at == first_mark(text@, mark),
        at <= text@.len(),
{
    let length: usize = text.unicode_len();
    let mut at: usize = 0;
    while at < length && text.get_char(at) != mark
        invariant
            at <= length == text@.len(),
            forall|i: int| 0 <= i < at ==> text@[i] != mark,
        decreases length - at,
    {
        at = at + 1;
    }
    proof {
        lemma_first_mark(text@, mark, at as int);
    }
    at
}

/// Whether `a` comes strictly before `b`, character by character.
pub fn comes_before(a: &str, b: &str) -> (yes: bool)
    ensures
        yes == precedes(a@, b@),
{
    let a_length: usize = a.unicode_len();
    let b_length: usize = b.unicode_len();
    let mut i: usize = 0;
    assert(a@.skip(0) =~= a@);
    assert(b@.skip(0) =~= b@);
    while i < a_length && i < b_length
        invariant
            i <= a_length == a@.len(),
            i <= b_length == b@.len(),
            precedes(a@, b@) == precedes(a@.skip(i as int), b@.skip(i as int)),
        decreases a_length - i,
    {
        let c: char = a.get_char(i);
        let d: char = b.get_char(i);
        if c != d {
            return c < d;
        }
        proof {
            assert(a@.skip(i as int).drop_first() =~= a@.skip(i + 1));
            assert(b@.skip(i as int).drop_first() =~= b@.skip(i + 1));
        }
        i = i + 1;
    }
    i < b_length
}

/// Of two strings, one comes first unless they are the same.
pub proof fn lemma_precedes_total(a: Seq<char>, b: Seq<char>)
    ensures
        precedes(a, b) || precedes(b, a) || a == b,
    decreases a.len(),
{
    if a.len() > 0 && b.len() > 0 {
        if a[0] == b[0] {
            lemma_precedes_total(a.drop_first(), b.drop_first());
            if a.drop_first() == b.drop_first() {
                assert(a =~= seq![a[0]] + a.drop_first());
                assert(b =~= seq![b[0]] + b.drop_first());
            }
        }
    } else if a.len() == 0 && b.len() == 0 {
        assert(a =~= b);
    }
}

/// Coming first is transitive.
pub proof fn lemma_precedes_transitive(a: Seq<char>, b: Seq<char>, c: Seq<char>)
    requires
        precedes(a, b),
        precedes(b, c),
    ensures
        precedes(a, c),
    decreases a.len(),
{
    if a.len() > 0 && a[0] == b[0] && b[0] == c[0] {
        lemma_precedes_transitive(a.drop_first(), b.drop_first(), c.drop_first());
    }
}

/// No string comes before itself.
pub proof fn lemma_precedes_irreflexive(a: Seq<char>)
    ensures
        !precedes(a, a),
    decreases a.len(),
{
    if a.len() > 0 {
        lemma_precedes_irreflexive(a.drop_first());
    }
}

/// The number that decimal digits stand for.
pub open spec fn number_of(digits: Seq<char>) -> int
    decreases digits.len(),
{
    if digits.len() == 0 {
        0
    } else {
        10 * number_of(digits.drop_last()) + (digits.last() as int - '0' as int)
    }
}

/// A number is written in decimal digits that stand for it, with no zero in front but
/// for the number zero.
pub proof fn law_decimal_stands_for_the_number(n: nat)
    ensures
        number_of(decimal(n)) == n,
        decimal(n).len() > 0,
        forall|i: int| 0 <= i < decimal(n).len() ==> '0' <= #[trigger] decimal(n)[i] <= '9',
        n > 0 ==> decimal(n)[0] != '0',
    decreases n,
{
    if n < 10 {
        reveal_with_fuel(number_of, 2);
        assert(decimal(n).drop_last() =~= Seq::empty());
    } else {
        law_decimal_stands_for_the_number(n / 10);
        let rest = decimal(n / 10);
        assert(decimal(n).drop_last() =~= rest);
        assert forall|i: int| 0 <= i < decimal(n).len() implies '0' <= #[trigger] decimal(n)[i]
            <= '9' by {
            if i < rest.len() {
                assert(decimal(n)[i] == rest[i]);
            }
        }
    }
}

/// Two texts are compared by the first characters in which they differ, and one that
/// ends before they do comes first.
pub proof fn law_texts_are_compared_by_their_first_difference(
    a: Seq<char>,
    b: Seq<char>,
    k: int,
)
    requires
        0 <= k <= a.len(),
        k <= b.len(),
        forall|i: int| 0 <= i < k ==> a[i] == #[trigger] b[i],
        k < a.len() && k < b.len() ==> a[k] != b[k],
    ensures
        precedes(a, b) <==> k < b.len() && (k == a.len() || a[k] < b[k]),
    decreases k,
{
    if k > 0 {
        let (c, d) = (a.drop_first(), b.drop_first());
        assert(a[0] == b[0]);
        assert forall|i: int| 0 <= i < k - 1 implies c[i] == #[trigger] d[i] by {
            assert(a[i + 1] == b[i + 1]);
        }
        law_texts_are_compared_by_their_first_difference(c, d, k - 1);
        if k < b.len() {
            assert(d[k - 1] == b[k]);
        }
        if k < a.len() {
            assert(c[k - 1] == a[k]);
        }
    }
}

} // verus!
