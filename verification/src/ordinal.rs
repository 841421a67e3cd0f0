//! Ordinal numbers: `1st`, `2nd`, `3rd`, `4th`, ...

use vstd::prelude::*;
use vstd::std_specs::convert::IntoSpec;

use crate::decimal::{signed_decimal, signed_decimal_string};

verus! {

/// The two letters that follow the digits of `n`.
///
/// A number ending in 1, 2 or 3 takes `st`, `nd` or `rd`, unless it ends in
/// 11, 12 or 13. Everything else takes `th`, and so does every negative
/// number: the remainder of a truncating division of a negative number is
/// never 1, 2 or 3.
pub open spec fn ordinal_suffix(n: int) -> Seq<char> {
    if n >= 0 && n % 10 == 1 && n % 100 != 11 {
        "st"@
    } else if n >= 0 && n % 10 == 2 && n % 100 != 12 {
        "nd"@
    } else if n >= 0 && n % 10 == 3 && n % 100 != 13 {
        "rd"@
    } else {
        "th"@
    }
}

/// The ordinal form of `n`: its decimal notation and then its suffix.
pub open spec fn ordinal_text(n: int) -> Seq<char> {
    signed_decimal(n) + ordinal_suffix(n)
}

/// Whether `text` ends with `tail`.
pub open spec fn ends_with(text: Seq<char>, tail: Seq<char>) -> bool {
    tail.len() <= text.len() && text.subrange(text.len() - tail.len(), text.len() as int) == tail
}

/// The ordinal form of any integer starts with the decimal notation of that
/// integer, goes on for exactly two more characters, and ends in exactly one
/// of `st`, `nd`, `rd` and `th`.
pub proof fn lemma_ordinal_shape(n: int)
    ensures
        signed_decimal(n).is_prefix_of(ordinal_text(n)),
        ordinal_text(n).len() == signed_decimal(n).len() + 2,
        ends_with(ordinal_text(n), ordinal_suffix(n)),
        (if ends_with(ordinal_text(n), "st"@) { 1int } else { 0 })
            + (if ends_with(ordinal_text(n), "nd"@) { 1int } else { 0 })
            + (if ends_with(ordinal_text(n), "rd"@) { 1int } else { 0 })
            + (if ends_with(ordinal_text(n), "th"@) { 1int } else { 0 }) == 1,
{
    reveal_strlit("st");
    reveal_strlit("nd");
    reveal_strlit("rd");
    reveal_strlit("th");
    let text = ordinal_text(n);
    let suffix = ordinal_suffix(n);
    assert(suffix.len() == 2);
    let tail = text.subrange(text.len() - 2, text.len() as int);
    assert(tail =~= suffix);
    assert(tail[0] == suffix[0] && tail[1] == suffix[1]);
    assert("st"@[0] == 's' && "st"@[1] == 't');
    assert("nd"@[0] == 'n' && "nd"@[1] == 'd');
    assert("rd"@[0] == 'r' && "rd"@[1] == 'd');
    assert("th"@[0] == 't' && "th"@[1] == 'h');
}

/// The ordinal form of `n`.
pub fn ordinal_of(n: i64) -> (text: String)
    ensures
        text@ == ordinal_text(n as int),
{
    let mut suffix = "th";
    let last: i64 = n % 10;
    let last_two: i64 = n % 100;
    if last == 1 {
        if last_two != 11 {
            suffix = "st";
        }
    } else if last == 2 {
        if last_two != 12 {
            suffix = "nd";
        }
    } else if last == 3 {
        if last_two != 13 {
            suffix = "rd";
        }
    }
    signed_decimal_string(n).concat(suffix)
}

/// The ordinal form of any value that converts into an `i64`.
///
/// The text is that of the number the conversion returned.
pub fn ordinal<T: Into<i64>>(x: T) -> (text: String)
    ensures
        exists|n: i64| call_ensures(T::into, (x,), n) && text@ == ordinal_text(n as int),
        T::obeys_into_spec() ==> text@ == ordinal_text(T::into_spec(x) as int),
{
    let n: i64 = x.into();
    ordinal_of(n)
}

/// Asking twice for the ordinal form of the same number gives the same
/// text.
pub proof fn lemma_ordinal_of_repeatable(n: i64, first: String, second: String)
    requires
        call_ensures(ordinal_of, (n,), first),
        call_ensures(ordinal_of, (n,), second),
    ensures
        first@ == second@,
{
}

/// Asking twice for the ordinal form of the same value gives the same text,
/// provided that its conversion into an `i64` is a function of the value.
pub proof fn lemma_ordinal_repeatable<T: Into<i64>>(x: T, first: String, second: String)
    requires
        T::obeys_into_spec(),
        call_ensures(ordinal::<T>, (x,), first),
        call_ensures(ordinal::<T>, (x,), second),
    ensures
        first@ == second@,
{
}

} // verus!
