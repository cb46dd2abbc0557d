//! What holds of numerals and joined lines.

use vstd::prelude::*;

use crate::text::{decimal, joined};

verus! {

/// The number that a text of decimal digits stands for.
pub open spec fn numeral_value(text: Seq<char>) -> int
    decreases text.len(),
{
    if text.len() == 0 {
        0
    } else {
        numeral_value(text.drop_last()) * 10 + (text.last() as int - '0' as int)
    }
}

/// A numeral reads back as the number that it was written for, holds nothing but digits, and has no
/// leading zero.
pub proof fn law_decimal_reads_back(n: nat)
    ensures
        numeral_value(decimal(n)) == n,
        decimal(n).len() > 0,
        forall|i: int| 0 <= i < decimal(n).len() ==> '0' <= #[trigger] decimal(n)[i] <= '9',
        decimal(n).len() > 1 ==> decimal(n)[0] != '0',
        decimal(n).len() == 1 <==> n < 10,
    decreases n,
{
    reveal_with_fuel(numeral_value, 3);
    if n < 10 {
        assert(decimal(n).drop_last() =~= Seq::empty());
    } else {
        let front = decimal(n / 10);
        law_decimal_reads_back(n / 10);
        assert(decimal(n).drop_last() =~= front);
        if front.len() == 1 {
            assert(front.drop_last() =~= Seq::empty());
            assert(numeral_value(front) == front[0] as int - '0' as int);
        }
    }
}

/// Numerals of different numbers differ.
pub proof fn law_decimals_differ(left: nat, right: nat)
    ensures
        decimal(left) == decimal(right) <==> left == right,
{
    law_decimal_reads_back(left);
    law_decimal_reads_back(right);
}

/// Joining puts the separator between two lines and nowhere else: no lines give nothing, one line
/// gives itself, and two groups of lines give the one and the other with the separator between.
pub proof fn law_joined(left: Seq<Seq<char>>, right: Seq<Seq<char>>, separator: Seq<char>)
    ensures
        joined(Seq::empty(), separator) == Seq::<char>::empty(),
        left.len() == 1 ==> joined(left, separator) == left[0],
        left.len() > 0 && right.len() > 0 ==> joined(left + right, separator) == joined(
            left,
            separator,
        ) + separator + joined(right, separator),
    decreases right.len(),
{
    if left.len() > 0 && right.len() > 0 {
        let all = left + right;
        assert(all.drop_last() =~= left + right.drop_last());
        assert(all.last() == right.last());
        if right.len() == 1 {
            assert(left + right.drop_last() =~= left);
        } else {
            law_joined(left, right.drop_last(), separator);
            assert(joined(all, separator) =~= joined(left, separator) + separator + joined(
                right,
                separator,
            ));
        }
    }
}

} // verus!
