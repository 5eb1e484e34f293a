//! Small facts and functions on texts.

use vstd::prelude::*;
use vstd::string::*;

verus! {

/// The characters of an optional text.
pub open spec fn text_of(value: Option<String>) -> Option<Seq<char>> {
    match value {
        Some(text) => Some(text@),
        None => None,
    }
}

/// The index of the first `mark` at or after `from`; the length of the text
/// if there is none.
pub open spec fn first_from(text: Seq<char>, mark: char, from: int) -> int
    decreases text.len() - from,
{
    if from < 0 || from >= text.len() {
        text.len() as int
    } else if text[from] == mark {
        from
    } else {
        first_from(text, mark, from + 1)
    }
}

/// The index of the last `mark` among the first `upto` characters; `-1` if
/// there is none.
pub open spec fn last_upto(text: Seq<char>, mark: char, upto: int) -> int
    decreases upto,
{
    if upto <= 0 || upto > text.len() {
        -1
    } else if text[upto - 1] == mark {
        upto - 1
    } else {
        last_upto(text, mark, upto - 1)
    }
}

/// The index of the first `mark` at or after `from`, or the length of the
/// text.
pub fn find_first(text: &str, mark: char, from: usize) -> (at: usize)
    requires
        from <= text@.len(),
    ensures
        at == first_from(text@, mark, from as int),
        from <= at <= text@.len(),
{
    let length = text.unicode_len();
    let mut i: usize = from;
    while i < length
        invariant
            from <= i <= length,
            length == text@.len(),
            first_from(text@, mark, i as int) == first_from(text@, mark, from as int),
        decreases length - i,
    {
        if text.get_char(i) == mark {
            return i;
        }
        i += 1;
    }
    i
}

/// The index of the last `mark` in the text, if there is one.
pub fn find_last(text: &str, mark: char) -> (at: Option<usize>)
    ensures
        match at {
            Some(index) => index == last_upto(text@, mark, text@.len() as int) && index < text@.len(),
            None => last_upto(text@, mark, text@.len() as int) == -1,
        },
{
    let length = text.unicode_len();
    let mut i: usize = length;
    while i > 0
        invariant
            i <= length,
            length == text@.len(),
            last_upto(text@, mark, i as int) == last_upto(text@, mark, length as int),
        decreases i,
    {
        if text.get_char(i - 1) == mark {
            return Some(i - 1);
        }
        i -= 1;
    }
    None
}

/// The characters from index `from` to index `to`, as a text of their own.
pub fn slice(text: &str, from: usize, to: usize) -> (part: String)
    requires
        from <= to <= text@.len(),
    ensures
        part@ == text@.subrange(from as int, to as int),
{
    text.substring_char(from, to).to_owned()
}

/// What follows the last dot of a path; nothing if the path has no dot.
pub open spec fn extension_of(path: Seq<char>) -> Option<Seq<char>> {
    let dot = last_upto(path, '.', path.len() as int);
    if dot < 0 {
        None
    } else {
        Some(path.subrange(dot + 1, path.len() as int))
    }
}

/// What follows the last dot of a path; nothing if the path has no dot.
pub fn extension(path: &str) -> (found: Option<String>)
    ensures
        text_of(found) == extension_of(path@),
{
    let length = path.unicode_len();
    match find_last(path, '.') {
        Some(dot) => Some(slice(path, dot + 1, length)),
        None => None,
    }
}


/// The decimal digit of a value below ten.
pub open spec fn digit_char(value: int) -> char {
    "0123456789"@[value]
}

/// The decimal form of a number, without leading zeros.
pub open spec fn decimal_of(value: nat) -> Seq<char>
    decreases value,
{
    if value < 10 {
        seq![digit_char(value as int)]
    } else {
        decimal_of(value / 10).push(digit_char((value % 10) as int))
    }
}

/// The decimal digit of a value below ten, as a text.
fn digit_text(value: u8) -> (digit: &'static str)
    requires
        value < 10,
    ensures
        digit@ == seq![digit_char(value as int)],
{
    proof {
        reveal_strlit("0123456789");
        reveal_strlit("0");
        reveal_strlit("1");
        reveal_strlit("2");
        reveal_strlit("3");
        reveal_strlit("4");
        reveal_strlit("5");
        reveal_strlit("6");
        reveal_strlit("7");
        reveal_strlit("8");
        reveal_strlit("9");
    }
    let digit = match value {
        0 => "0",
        1 => "1",
        2 => "2",
        3 => "3",
        4 => "4",
        5 => "5",
        6 => "6",
        7 => "7",
        8 => "8",
        _ => "9",
    };
    assert(digit@ =~= seq![digit_char(value as int)]);
    digit
}

/// The decimal form of a number.
pub fn decimal(value: u128) -> (text: String)
    ensures
        text@ == decimal_of(value as nat),
    decreases value,
{
    if value < 10 {
        String::from_str(digit_text(value as u8))
    } else {
        let mut text = decimal(value / 10);
        text.append(digit_text((value % 10) as u8));
        assert(text@ =~= decimal_of(value as nat));
        text
    }
}

/// Whether the text ends with the given characters.
pub open spec fn ends_with_text(text: Seq<char>, end: Seq<char>) -> bool {
    end.len() <= text.len() && text.subrange(text.len() - end.len(), text.len() as int) == end
}

/// Whether the text ends with the given characters.
pub fn ends_with(text: &str, end: &str) -> (ends: bool)
    ensures
        ends == ends_with_text(text@, end@),
{
    let length = text.unicode_len();
    let wanted = end.unicode_len();
    if wanted > length {
        return false;
    }
    let offset = length - wanted;
    let mut i: usize = 0;
    while i < wanted
        invariant
            i <= wanted,
            wanted == end@.len(),
            length == text@.len(),
            offset == length - wanted,
            forall|j: int| 0 <= j < i ==> text@[offset + j] == end@[j],
        decreases wanted - i,
    {
        if text.get_char(offset + i) != end.get_char(i) {
            assert(text@.subrange(text@.len() - end@.len(), text@.len() as int)[i as int]
                != end@[i as int]);
            return false;
        }
        i += 1;
    }
    assert(text@.subrange(text@.len() - end@.len(), text@.len() as int) =~= end@);
    true
}


/// Calls `String::push`, which appends one character to the text.
#[verifier::external_body]
pub(crate) fn push_char(text: &mut String, c: char)
    ensures
        final(text)@ == old(text)@.push(c),
{
    text.push(c)
}

/// Appends the bytes of `more` to `bytes`.
pub fn append_bytes(bytes: &mut Vec<u8>, more: &Vec<u8>)
    ensures
        final(bytes)@ == old(bytes)@ + more@,
{
    let mut i: usize = 0;
    while i < more.len()
        invariant
            i <= more.len(),
            bytes@ == old(bytes)@ + more@.take(i as int),
        decreases more.len() - i,
    {
        bytes.push(more[i]);
        assert(bytes@ =~= old(bytes)@ + more@.take(i + 1));
        i += 1;
    }
    assert(more@.take(more@.len() as int) =~= more@);
}

} // verus!
