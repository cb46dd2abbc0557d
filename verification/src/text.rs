//! Text building: decimal numerals, joined lines and text comparison.

use vstd::prelude::*;
use vstd::string::*;

verus! {

/// The character of a decimal digit.
pub open spec fn digit_char(digit: nat) -> char
    recommends
        digit < 10,
{
    (48 + digit) as char
}

/// The decimal numeral of `n`, without leading zeros.
pub open spec fn decimal(n: nat) -> Seq<char>
    decreases n,
{
    if n < 10 {
        seq![digit_char(n)]
    } else {
        decimal(n / 10).push(digit_char(n % 10))
    }
}

/// The one-character text of a decimal digit.
fn digit_text(digit: usize) -> (text: &'static str)
    requires
        digit < 10,
    ensures
        text@ == seq![digit_char(digit as nat)],
{
    proof {
        reveal_strlit("0");
        reveal_strlit("1");
        reveal_strlit("2");
        reveal_strlit("3");
        reveal_strlit("4");
        reveal_strlit("5");
        reveal_strlit("6");
        reveal_strlit("7");
        reveal_strlit("8");
        reveal_strlit("9");
    }
    if digit == 0 {
        "0"
    } else if digit == 1 {
        "1"
    } else if digit == 2 {
        "2"
    } else if digit == 3 {
        "3"
    } else if digit == 4 {
        "4"
    } else if digit == 5 {
        "5"
    } else if digit == 6 {
        "6"
    } else if digit == 7 {
        "7"
    } else if digit == 8 {
        "8"
    } else {
        "9"
    }
}

/// Writes `n` as a decimal numeral.
pub fn decimal_text(n: usize) -> (text: String)
    ensures
        text@ == decimal(n as nat),
    decreases n,
{
    if n < 10 {
        digit_text(n).to_owned()
    } else {
        let mut text = decimal_text(n / 10);
        text.append(digit_text(n % 10));
        proof {
            assert(text@ =~= decimal(n as nat));
        }
        text
    }
}

/// `lines` in order, with `separator` between each two of them.
pub open spec fn joined(lines: Seq<Seq<char>>, separator: Seq<char>) -> Seq<char>
    decreases lines.len(),
{
    if lines.len() == 0 {
        Seq::empty()
    } else if lines.len() == 1 {
        lines[0]
    } else {
        joined(lines.drop_last(), separator) + separator + lines.last()
    }
}

/// Joins `lines` with a line break between each two of them.
pub fn join_lines(lines: &Vec<String>) -> (text: String)
    ensures
        text@ == joined(lines.deep_view(), "\n"@),
{
    let mut text = String::new();
    let ghost views = lines.deep_view();
    for i in 0..lines.len()
        invariant
            views == lines.deep_view(),
            text@ == joined(views.take(i as int), "\n"@),
    {
        if i > 0 {
            text.append("\n");
        }
        text.append(lines[i].as_str());
        proof {
            assert(views.take(i + 1).drop_last() =~= views.take(i as int));
            assert(views.take(i + 1).last() == lines[i as int]@);
            assert(text@ =~= joined(views.take(i + 1), "\n"@));
        }
    }
    proof {
        assert(views.take(lines.len() as int) =~= views);
    }
    text
}

/// Whether a text holds another one somewhere.
pub open spec fn holds_text(text: Seq<char>, part: Seq<char>) -> bool {
    exists|before: Seq<char>, after: Seq<char>| text == #[trigger] (before + part + after)
}

/// A text holds whatever a part of it holds.
pub proof fn lemma_holds_text_within(
    before: Seq<char>,
    middle: Seq<char>,
    after: Seq<char>,
    part: Seq<char>,
)
    requires
        holds_text(middle, part),
    ensures
        holds_text(before + middle + after, part),
{
    let (left, right) = choose|left: Seq<char>, right: Seq<char>|
        middle == #[trigger] (left + part + right);
    assert(before + middle + after =~= (before + left) + part + (right + after));
}

/// Joined lines hold each of the lines.
pub proof fn lemma_joined_holds_line(lines: Seq<Seq<char>>, separator: Seq<char>, i: int)
    requires
        0 <= i < lines.len(),
    ensures
        holds_text(joined(lines, separator), lines[i]),
    decreases lines.len(),
{
    let none = Seq::<char>::empty();
    if lines.len() == 1 {
        assert(lines[0] =~= none + lines[0] + none);
    } else if i == lines.len() - 1 {
        let start = joined(lines.drop_last(), separator) + separator;
        assert(joined(lines, separator) =~= start + lines[i] + none);
    } else {
        let earlier = joined(lines.drop_last(), separator);
        lemma_joined_holds_line(lines.drop_last(), separator, i);
        lemma_holds_text_within(none, earlier, separator + lines.last(), lines[i]);
        assert(joined(lines, separator) =~= none + earlier + (separator + lines.last()));
    }
}

/// Whether two texts hold the same characters.
pub fn same_text(left: &str, right: &str) -> (same: bool)
    ensures
        same == (left@ == right@),
{
    left.to_owned() == right.to_owned()
}

} // verus!
