//! Texts of messages and identifiers.
use vstd::prelude::*;
use vstd::string::*;

verus! {

/// The text that std's `Debug` writes for a string slice.
pub uninterp spec fn debug_text(text: Seq<char>) -> Seq<char>;

/// Writes a text with std's `{:?}` formatting of `str`: quoted and escaped. The
/// contract names the outcome, which depends on the text alone.
#[verifier::external_body]
pub(crate) fn quoted(text: &str) -> (result: String)
    ensures
        result@ == debug_text(text@),
{
    format!("{text:?}")
}

/// The decimal digit of a number below ten.
pub open spec fn digit_text(digit: int) -> Seq<char> {
    if digit == 0 {
        "0"@
    } else if digit == 1 {
        "1"@
    } else if digit == 2 {
        "2"@
    } else if digit == 3 {
        "3"@
    } else if digit == 4 {
        "4"@
    } else if digit == 5 {
        "5"@
    } else if digit == 6 {
        "6"@
    } else if digit == 7 {
        "7"@
    } else if digit == 8 {
        "8"@
    } else {
        "9"@
    }
}

/// The decimal notation of a number, without leading zeros.
pub open spec fn decimal_text(number: nat) -> Seq<char>
    decreases number,
{
    if number < 10 {
        digit_text(number as int)
    } else {
        decimal_text(number / 10) + digit_text((number % 10) as int)
    }
}

fn digit(value: u64) -> (text: &'static str)
    requires
        value < 10,
    ensures
        text@ == digit_text(value as int),
{
    match value {
        0 => "0",
        1 => "1",
        2 => "2",
        3 => "3",
        4 => "4",
        5 => "5",
        6 => "6",
        7 => "7",
        8 => "8",
        _ => "9",
    }
}

/// Writes a number in decimal notation.
pub fn decimal_u64(number: u64) -> (text: String)
    ensures
        text@ == decimal_text(number as nat),
    decreases number,
{
    if number < 10 {
        digit(number).to_owned()
    } else {
        let mut text = decimal_u64(number / 10);
        text.append(digit(number % 10));
        text
    }
}

/// Writes a number in decimal notation.
pub fn decimal(number: usize) -> (text: String)
    ensures
        text@ == decimal_text(number as nat),
{
    decimal_u64(number as u64)
}

/// Joins 2 texts.
pub fn join2(a: &str, b: &str) -> (text: String)
    ensures
        text@ == a@ + b@,
{
    let mut text = a.to_owned();
    text.append(b);
    text
}

/// Joins 3 texts.
pub fn join3(a: &str, b: &str, c: &str) -> (text: String)
    ensures
        text@ == a@ + b@ + c@,
{
    let mut text = a.to_owned();
    text.append(b);
    text.append(c);
    text
}

/// Joins 4 texts.
pub fn join4(a: &str, b: &str, c: &str, d: &str) -> (text: String)
    ensures
        text@ == a@ + b@ + c@ + d@,
{
    let mut text = a.to_owned();
    text.append(b);
    text.append(c);
    text.append(d);
    text
}

/// Joins 5 texts.
pub fn join5(a: &str, b: &str, c: &str, d: &str, e: &str) -> (text: String)
    ensures
        text@ == a@ + b@ + c@ + d@ + e@,
{
    let mut text = a.to_owned();
    text.append(b);
    text.append(c);
    text.append(d);
    text.append(e);
    text
}

/// Joins 6 texts.
pub fn join6(a: &str, b: &str, c: &str, d: &str, e: &str, f: &str) -> (text: String)
    ensures
        text@ == a@ + b@ + c@ + d@ + e@ + f@,
{
    let mut text = a.to_owned();
    text.append(b);
    text.append(c);
    text.append(d);
    text.append(e);
    text.append(f);
    text
}

/// Joins 7 texts.
pub fn join7(a: &str, b: &str, c: &str, d: &str, e: &str, f: &str, g: &str) -> (text: String)
    ensures
        text@ == a@ + b@ + c@ + d@ + e@ + f@ + g@,
{
    let mut text = a.to_owned();
    text.append(b);
    text.append(c);
    text.append(d);
    text.append(e);
    text.append(f);
    text.append(g);
    text
}

/// Joins 8 texts.
pub fn join8(
    a: &str,
    b: &str,
    c: &str,
    d: &str,
    e: &str,
    f: &str,
    g: &str,
    h: &str,
) -> (text: String)
    ensures
        text@ == a@ + b@ + c@ + d@ + e@ + f@ + g@ + h@,
{
    let mut text = a.to_owned();
    text.append(b);
    text.append(c);
    text.append(d);
    text.append(e);
    text.append(f);
    text.append(g);
    text.append(h);
    text
}

/// Joins 9 texts.
pub fn join9(
    a: &str,
    b: &str,
    c: &str,
    d: &str,
    e: &str,
    f: &str,
    g: &str,
    h: &str,
    i: &str,
) -> (text: String)
    ensures
        text@ == a@ + b@ + c@ + d@ + e@ + f@ + g@ + h@ + i@,
{
    let mut text = a.to_owned();
    text.append(b);
    text.append(c);
    text.append(d);
    text.append(e);
    text.append(f);
    text.append(g);
    text.append(h);
    text.append(i);
    text
}

/// Joins 10 texts.
pub fn join10(
    a: &str,
    b: &str,
    c: &str,
    d: &str,
    e: &str,
    f: &str,
    g: &str,
    h: &str,
    i: &str,
    j: &str,
) -> (text: String)
    ensures
        text@ == a@ + b@ + c@ + d@ + e@ + f@ + g@ + h@ + i@ + j@,
{
    let mut text = a.to_owned();
    text.append(b);
    text.append(c);
    text.append(d);
    text.append(e);
    text.append(f);
    text.append(g);
    text.append(h);
    text.append(i);
    text.append(j);
    text
}

/// Joins 12 texts.
pub fn join12(
    a: &str,
    b: &str,
    c: &str,
    d: &str,
    e: &str,
    f: &str,
    g: &str,
    h: &str,
    i: &str,
    j: &str,
    k: &str,
    l: &str,
) -> (text: String)
    ensures
        text@ == a@ + b@ + c@ + d@ + e@ + f@ + g@ + h@ + i@ + j@ + k@ + l@,
{
    let mut text = a.to_owned();
    text.append(b);
    text.append(c);
    text.append(d);
    text.append(e);
    text.append(f);
    text.append(g);
    text.append(h);
    text.append(i);
    text.append(j);
    text.append(k);
    text.append(l);
    text
}

/// Texts with a comma and a space between them.
pub open spec fn listed_text(items: Seq<Seq<char>>) -> Seq<char>
    decreases items.len(),
{
    if items.len() == 0 {
        Seq::empty()
    } else if items.len() == 1 {
        items[0]
    } else {
        listed_text(items.drop_last()) + ", "@ + items.last()
    }
}

/// Writes texts with a comma and a space between them.
pub fn listed(items: &Vec<String>) -> (text: String)
    ensures
        text@ == listed_text(items.deep_view()),
{
    let mut text = String::new();
    let ghost all = items.deep_view();
    for index in 0..items.len()
        invariant
            all == items.deep_view(),
            text@ == listed_text(all.take(index as int)),
    {
        assert(all.take(index as int + 1).drop_last() =~= all.take(index as int));
        assert(all[index as int] == items@[index as int]@);
        if index == 0 {
            text = items[index].clone();
        } else {
            text.append(", ");
            text.append(items[index].as_str());
        }
    }
    assert(all.take(all.len() as int) =~= all);
    text
}

} // verus!
