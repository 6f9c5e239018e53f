//! The pieces that messages are put together from.
use crate::order::texts_of;
use vstd::prelude::*;

verus! {

/// How `std` writes a text for debugging: between double quotes, with what
/// would not read well there escaped.
pub uninterp spec fn quoted(text: Seq<char>) -> Seq<char>;

/// `format!("{:?}", text)` on a `str`. The result is a function of the text
/// alone; which characters `std` escapes, and how, is left unsaid.
#[verifier::external_body]
pub(crate) fn quote(text: &str) -> (quoted_text: String)
    ensures
        quoted_text@ == quoted(text@),
{
    format!("{:?}", text)
}

/// The parts one after the other, with the separator between each two.
pub open spec fn joined(parts: Seq<Seq<char>>, separator: Seq<char>) -> Seq<char>
    decreases parts.len(),
{
    if parts.len() == 0 {
        seq![]
    } else if parts.len() == 1 {
        parts[0]
    } else {
        joined(parts.drop_last(), separator) + separator + parts.last()
    }
}

/// Puts the parts one after the other, with the separator between each two.
pub fn join(parts: &Vec<String>, separator: &str) -> (text: String)
    ensures
        text@ == joined(texts_of(parts@), separator@),
{
    let mut text = String::new();
    let ghost all = texts_of(parts@);
    for i in 0..parts.len()
        invariant
            all == texts_of(parts@),
            text@ == joined(all.take(i as int), separator@),
    {
        if i > 0 {
            text.append(separator);
        }
        text.append(parts[i].as_str());
        proof {
            assert(all.take(i + 1).drop_last() =~= all.take(i as int));
            assert(i == 0 ==> text@ =~= all[0]);
        }
    }
    assert(all.take(parts.len() as int) =~= all);
    text
}

/// A list of texts as messages name it: each quoted, between square brackets,
/// with commas in between.
pub open spec fn quoted_list(texts: Seq<Seq<char>>) -> Seq<char> {
    "["@ + joined(texts.map_values(|text: Seq<char>| quoted(text)), ", "@) + "]"@
}

/// Writes a list of texts as messages name it.
pub fn quote_list(texts: &Vec<String>) -> (text: String)
    ensures
        text@ == quoted_list(texts_of(texts@)),
{
    let mut parts: Vec<String> = Vec::new();
    for i in 0..texts.len()
        invariant
            parts.len() == i,
            forall|j: int| 0 <= j < i ==> #[trigger] parts[j]@ == quoted(texts[j]@),
    {
        parts.push(quote(texts[i].as_str()));
    }
    assert(texts_of(parts@) =~= texts_of(texts@).map_values(|text: Seq<char>| quoted(text)));
    let mut text = "[".to_owned();
    text.append(join(&parts, ", ").as_str());
    text.append("]");
    text
}

/// Puts two texts one after the other.
pub fn concat_two(a: &str, b: &str) -> (text: String)
    ensures
        text@ == a@ + b@,
{
    let mut text = a.to_owned();
    text.append(b);
    text
}

/// Puts three texts one after the other.
pub fn concat_three(a: &str, b: &str, c: &str) -> (text: String)
    ensures
        text@ == a@ + b@ + c@,
{
    let mut text = concat_two(a, b);
    text.append(c);
    text
}

/// A hexadecimal digit, in lower case.
pub open spec fn hex_digit(digit: int) -> char {
    if digit < 10 {
        (digit + '0' as int) as char
    } else {
        (digit - 10 + 'a' as int) as char
    }
}

/// A number in hexadecimal, without leading zeros.
pub open spec fn hexadecimal(number: nat) -> Seq<char>
    decreases number,
{
    if number < 16 {
        seq![hex_digit(number as int)]
    } else {
        hexadecimal(number / 16).push(hex_digit((number % 16) as int))
    }
}

fn hex_digit_text(digit: u64) -> (text: &'static str)
    requires
        digit < 16,
    ensures
        text@ == seq![hex_digit(digit as int)],
{
    proof {
        reveal_strlit("0");
        reveal_strlit("1");
        reveal_strlit("2");
        reveal_strlit("3");
        reveal_strlit("4");
        reveal_strlit("5");
        reveal_strlit("6");
        reveal_strlit("7");
        reveal_strlit("8");
        reveal_strlit("9");
        reveal_strlit("a");
        reveal_strlit("b");
        reveal_strlit("c");
        reveal_strlit("d");
        reveal_strlit("e");
        reveal_strlit("f");
    }
    match digit {
        0 => "0",
        1 => "1",
        2 => "2",
        3 => "3",
        4 => "4",
        5 => "5",
        6 => "6",
        7 => "7",
        8 => "8",
        9 => "9",
        10 => "a",
        11 => "b",
        12 => "c",
        13 => "d",
        14 => "e",
        _ => "f",
    }
}

/// Writes a number in hexadecimal.
pub fn to_hexadecimal(number: u64) -> (text: String)
    ensures
        text@ == hexadecimal(number as nat),
    decreases number,
{
    if number < 16 {
        hex_digit_text(number).to_owned()
    } else {
        let mut text = to_hexadecimal(number / 16);
        text.append(hex_digit_text(number % 16));
        assert(text@ =~= hexadecimal((number / 16) as nat).push(hex_digit((number % 16) as int)));
        text
    }
}

/// A number in decimal, without leading zeros.
pub open spec fn decimal(number: nat) -> Seq<char>
    decreases number,
{
    if number < 10 {
        seq![hex_digit(number as int)]
    } else {
        decimal(number / 10).push(hex_digit((number % 10) as int))
    }
}

/// Writes a number in decimal.
pub fn to_decimal(number: u64) -> (text: String)
    ensures
        text@ == decimal(number as nat),
    decreases number,
{
    if number < 10 {
        hex_digit_text(number).to_owned()
    } else {
        let mut text = to_decimal(number / 10);
        text.append(hex_digit_text(number % 10));
        assert(text@ =~= decimal((number / 10) as nat).push(hex_digit((number % 10) as int)));
        text
    }
}

/// Different numbers are written differently.
pub proof fn hexadecimal_is_injective(a: nat, b: nat)
    requires
        hexadecimal(a) == hexadecimal(b),
    ensures
        a == b,
    decreases a,
{
    lemma_hexadecimal_digits(a);
    lemma_hexadecimal_digits(b);
    if a < 16 && b < 16 {
        assert(hexadecimal(a)[0] == hex_digit(a as int));
        assert(hexadecimal(b)[0] == hex_digit(b as int));
        assert(a == b);
    } else if a >= 16 && b >= 16 {
        lemma_hexadecimal_digits(a / 16);
        lemma_hexadecimal_digits(b / 16);
        assert(hexadecimal(a).drop_last() =~= hexadecimal(a / 16));
        assert(hexadecimal(b).drop_last() =~= hexadecimal(b / 16));
        assert(hexadecimal(a).last() == hex_digit((a % 16) as int));
        assert(hexadecimal(b).last() == hex_digit((b % 16) as int));
        assert(a % 16 == b % 16);
        hexadecimal_is_injective(a / 16, b / 16);
        assert(a == b);
    } else if a >= 16 {
        lemma_hexadecimal_digits(a / 16);
        assert(hexadecimal(a).len() > 1);
    } else {
        lemma_hexadecimal_digits(b / 16);
        assert(hexadecimal(b).len() > 1);
    }
}

/// A number in hexadecimal has at least one digit and holds no hyphen.
pub proof fn lemma_hexadecimal_digits(number: nat)
    ensures
        hexadecimal(number).len() > 0,
        forall|i: int| 0 <= i < hexadecimal(number).len() ==> #[trigger] hexadecimal(number)[i] != '-',
    decreases number,
{
    if number >= 16 {
        lemma_hexadecimal_digits(number / 16);
    }
}

/// What a digit stands for, when it is read.
pub open spec fn digit_value(digit: char) -> int {
    if '0' <= digit <= '9' {
        digit as int - '0' as int
    } else {
        digit as int - 'a' as int + 10
    }
}

/// The number that digits stand for, when they are read in a base.
pub open spec fn number_read(digits: Seq<char>, base: int) -> int
    decreases digits.len(),
{
    if digits.len() == 0 {
        0
    } else {
        number_read(digits.drop_last(), base) * base + digit_value(digits.last())
    }
}

/// A number in hexadecimal reads as that number, has only digits and letters
/// from `a` to `f`, and starts with a zero only if it is zero.
pub proof fn hexadecimal_reads_back(number: nat)
    ensures
        number_read(hexadecimal(number), 16) == number,
        forall|i: int|
            0 <= i < hexadecimal(number).len() ==> ('0' <= #[trigger] hexadecimal(number)[i] <= '9'
                || 'a' <= hexadecimal(number)[i] <= 'f'),
        hexadecimal(number).len() > 0,
        hexadecimal(number)[0] == '0' ==> number == 0 && hexadecimal(number).len() == 1,
    decreases number,
{
    if number < 16 {
        let digits = hexadecimal(number);
        assert(digits.drop_last() =~= seq![]);
        assert(number_read(digits.drop_last(), 16) == 0);
    } else {
        let digits = hexadecimal(number);
        hexadecimal_reads_back(number / 16);
        assert(digits.drop_last() =~= hexadecimal(number / 16));
        assert(digits[0] == hexadecimal(number / 16)[0]);
    }
}

/// A number in decimal reads as that number, has only digits, and starts with a
/// zero only if it is zero.
pub proof fn decimal_reads_back(number: nat)
    ensures
        number_read(decimal(number), 10) == number,
        forall|i: int|
            0 <= i < decimal(number).len() ==> '0' <= #[trigger] decimal(number)[i] <= '9',
        decimal(number).len() > 0,
        decimal(number)[0] == '0' ==> number == 0 && decimal(number).len() == 1,
    decreases number,
{
    if number < 10 {
        let digits = decimal(number);
        assert(digits.drop_last() =~= seq![]);
        assert(number_read(digits.drop_last(), 10) == 0);
    } else {
        let digits = decimal(number);
        decimal_reads_back(number / 10);
        assert(digits.drop_last() =~= decimal(number / 10));
        assert(digits[0] == decimal(number / 10)[0]);
    }
}

/// Joining two lists is joining each, with the separator in between; one part
/// alone stands as it is, and none make nothing.
pub proof fn joined_lists_are_joined(
    parts: Seq<Seq<char>>,
    more: Seq<Seq<char>>,
    separator: Seq<char>,
)
    ensures
        parts.len() == 0 ==> joined(parts, separator) == Seq::<char>::empty(),
        parts.len() == 1 ==> joined(parts, separator) == parts[0],
        parts.len() > 0 && more.len() > 0 ==> joined(parts + more, separator) == joined(
            parts,
            separator,
        ) + separator + joined(more, separator),
    decreases more.len(),
{
    if parts.len() > 0 && more.len() > 0 {
        assert((parts + more).drop_last() =~= parts + more.drop_last());
        if more.len() == 1 {
            assert(parts + more.drop_last() =~= parts);
        } else {
            joined_lists_are_joined(parts, more.drop_last(), separator);
            assert(joined(parts + more, separator) =~= joined(parts, separator) + separator
                + joined(more, separator));
        }
    }
}

/// A list names each of its texts, quoted, in their order: with none it is two
/// brackets, with one that text between them, and two lists put together are
/// named as one.
pub proof fn lists_name_each_text(texts: Seq<Seq<char>>, more: Seq<Seq<char>>)
    ensures
        texts.len() == 0 ==> quoted_list(texts) == "[]"@,
        texts.len() == 1 ==> quoted_list(texts) == "["@ + quoted(texts[0]) + "]"@,
        texts.len() > 0 && more.len() > 0 ==> quoted_list(texts + more) == quoted_list(
            texts,
        ).drop_last() + ", "@ + quoted_list(more).drop_first(),
{
    reveal_strlit("[");
    reveal_strlit("]");
    reveal_strlit("[]");
    let some = texts.map_values(|text: Seq<char>| quoted(text));
    let others = more.map_values(|text: Seq<char>| quoted(text));
    joined_lists_are_joined(some, others, ", "@);
    if texts.len() == 0 {
        assert(quoted_list(texts) =~= "[]"@);
    }
    if texts.len() > 0 && more.len() > 0 {
        assert((texts + more).map_values(|text: Seq<char>| quoted(text)) =~= some + others);
        assert(quoted_list(texts).drop_last() =~= "["@ + joined(some, ", "@));
        assert(quoted_list(more).drop_first() =~= joined(others, ", "@) + "]"@);
        assert(quoted_list(texts + more) =~= quoted_list(texts).drop_last() + ", "@ + quoted_list(
            more,
        ).drop_first());
    }
}

} // verus!
