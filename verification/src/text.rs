//! Text that the rest of the crate takes apart and puts together.

use vstd::prelude::*;
use vstd::string::*;
use vstd::utf8::*;

verus! {

/// The contents of each string.
pub open spec fn texts(strings: Seq<String>) -> Seq<Seq<char>> {
    strings.map_values(|s: String| s@)
}

/// `n` spaces.
pub open spec fn spaces(n: nat) -> Seq<char> {
    Seq::new(n, |i: int| ' ')
}

/// `text`, with spaces behind it up to `width` characters.
pub open spec fn padded(text: Seq<char>, width: nat) -> Seq<char> {
    text + spaces(if text.len() < width { (width - text.len()) as nat } else { 0 })
}

/// The digit `d` as a character.
pub open spec fn digit(d: nat) -> char {
    ('0' as u32 + d) as char
}

/// A natural number in decimal notation.
pub open spec fn decimal(n: nat) -> Seq<char>
    decreases n,
{
    if n < 10 {
        seq![digit(n)]
    } else {
        decimal(n / 10).push(digit(n % 10))
    }
}

/// An integer in decimal notation.
pub open spec fn signed_decimal(n: int) -> Seq<char> {
    if n < 0 {
        seq!['-'] + decimal((-n) as nat)
    } else {
        decimal(n as nat)
    }
}

/// Calls `std::str::from_utf8`: it succeeds where the bytes are valid UTF-8,
/// and then gives the text that they encode.
#[verifier::external_body]
pub(crate) fn decode(bytes: &[u8]) -> (text: Option<&str>)
    ensures
        text is Some <==> valid_utf8(bytes@),
        text matches Some(text) ==> text@ == decode_utf8(bytes@),
{
    std::str::from_utf8(bytes).ok()
}

/// What the standard library's `Debug` of `str` writes for a text: the text in
/// quotes, with its unprintable characters escaped.
pub uninterp spec fn debug_form(text: Seq<char>) -> Seq<char>;

/// Calls the standard library's `Debug` of `str`. Its result depends on nothing
/// but the text; which characters it escapes, and how, is not stated.
#[verifier::external_body]
pub(crate) fn debug_text(text: &str) -> (quoted: String)
    ensures
        quoted@ == debug_form(text@),
{
    format!("{:?}", text)
}

/// Puts two texts together.
pub(crate) fn join(a: &str, b: &str) -> (text: String)
    ensures
        text@ == a@ + b@,
{
    let mut text: String = a.to_owned();
    text.append(b);
    text
}

/// Appends spaces to `text` up to `width` characters.
pub(crate) fn pad(text: &str, width: usize) -> (line: String)
    ensures
        line@ == padded(text@, width as nat),
{
    let mut line: String = text.to_owned();
    let count: usize = text.unicode_len();
    let mut i: usize = count;
    assert(line@ =~= text@ + spaces(0));
    while i < width
        invariant
            count == text@.len(),
            count <= i,
            count < i ==> i <= width,
            line@ == text@ + spaces((i - count) as nat),
        decreases width - i,
    {
        line.append(" ");
        proof {
            reveal_strlit(" ");
            assert(line@ =~= text@ + spaces((i + 1 - count) as nat));
        }
        i = i + 1;
    }
    line
}

/// Appends the digit `d` to `text`.
fn append_digit(text: &mut String, d: u32)
    requires
        d < 10,
    ensures
        final(text)@ == old(text)@.push(digit(d as nat)),
{
    proof {
        reveal_strlit("0");
        reveal_strlit("1");
        reveal_strlit("2");
        reveal_strlit("3");
        reveal_strlit("4");
        reveal_strlit("5");
        reveal_strlit("6");
        reveal_strlit("7");
        reveal_strlit("8");
        reveal_strlit("9");
    }
    text.append(
        match d {
            0 => "0",
            1 => "1",
            2 => "2",
            3 => "3",
            4 => "4",
            5 => "5",
            6 => "6",
            7 => "7",
            8 => "8",
            _ => "9",
        },
    );
    assert(text@ =~= old(text)@.push(digit(d as nat)));
}

/// Appends a natural number in decimal notation.
fn append_decimal(text: &mut String, n: u32)
    ensures
        final(text)@ == old(text)@ + decimal(n as nat),
    decreases n,
{
    if n >= 10 {
        append_decimal(text, n / 10);
    }
    append_digit(text, n % 10);
    assert(text@ =~= old(text)@ + decimal(n as nat));
}

/// An integer in decimal notation.
pub(crate) fn number(n: i32) -> (text: String)
    ensures
        text@ == signed_decimal(n as int),
{
    let mut text: String = String::new();
    if n < 0 {
        text.append("-");
        proof {
            reveal_strlit("-");
        }
        assert(text@ =~= seq!['-']);
        append_decimal(&mut text, (-(n as i64)) as u32);
    } else {
        append_decimal(&mut text, n as u32);
        assert(text@ =~= decimal(n as nat));
    }
    text
}

/// The texts are those of the list, as many and each in its place.
pub proof fn law_texts_are_those_of_the_list(strings: Seq<String>)
    ensures
        texts(strings).len() == strings.len(),
        forall|i: int| 0 <= i < strings.len() ==> #[trigger] texts(strings)[i] == strings[i]@,
{
}

/// A padded text begins with the text, has nothing but spaces behind it, and is
/// as wide as asked, or as the text where that is wider.
pub proof fn law_padding_is_space(text: Seq<char>, width: nat)
    ensures
        padded(text, width).len() == if text.len() < width { width } else { text.len() },
        forall|i: int| 0 <= i < text.len() ==> #[trigger] padded(text, width)[i] == text[i],
        forall|i: int|
            text.len() <= i < padded(text, width).len() ==> #[trigger] padded(text, width)[i]
                == ' ',
{
}

/// The number that a sequence of characters stands for, each taken for the
/// decimal digit that is so far behind `0`.
pub open spec fn value_of(digits: Seq<char>) -> int
    decreases digits.len(),
{
    if digits.len() == 0 {
        0
    } else {
        10 * value_of(digits.drop_last()) + (digits.last() as int - '0' as int)
    }
}

/// A number in decimal notation reads back as the number: it is made of digits,
/// has no zero in front unless it is zero, and stands for the number.
pub proof fn law_decimal_reads_back(n: nat)
    ensures
        value_of(decimal(n)) == n,
        decimal(n).len() > 0,
        forall|i: int| 0 <= i < decimal(n).len() ==> '0' <= #[trigger] decimal(n)[i] <= '9',
        n > 0 ==> decimal(n)[0] != '0',
        n == 0 ==> decimal(n).len() == 1,
    decreases n,
{
    reveal_with_fuel(value_of, 2);
    if n < 10 {
        assert(seq![digit(n)].drop_last() =~= Seq::<char>::empty());
    } else {
        law_decimal_reads_back(n / 10);
        let head: Seq<char> = decimal(n / 10);
        assert(decimal(n).drop_last() =~= head);
        assert(decimal(n)[0] == head[0]);
        assert forall|i: int| 0 <= i < decimal(n).len() implies '0' <= #[trigger] decimal(n)[i]
            <= '9' by {
            if i < head.len() {
                assert(decimal(n)[i] == head[i]);
            }
        }
    }
}

/// A negative number is shown as the positive one behind a minus sign, and any
/// other as it is.
pub proof fn law_sign_stands_in_front(n: int)
    ensures
        n >= 0 ==> value_of(signed_decimal(n)) == n && signed_decimal(n)[0] != '-',
        n < 0 ==> signed_decimal(n)[0] == '-' && signed_decimal(n).skip(1) == decimal((-n) as nat),
{
    if n >= 0 {
        law_decimal_reads_back(n as nat);
    } else {
        assert(signed_decimal(n).skip(1) =~= decimal((-n) as nat));
    }
}

} // verus!
