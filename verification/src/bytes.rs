//! Sizes in bytes, written with decimal (`kB`, `MB`, ...) or binary (`KiB`,
//! `MiB`, ...) units.

use vstd::arithmetic::div_mod::lemma_div_denominator;
use vstd::arithmetic::logarithm::{
    lemma_log0, lemma_log_is_ordered, lemma_log_nonnegative, lemma_log_pow, lemma_log_s, log,
};
use vstd::arithmetic::power::{lemma_pow0, lemma_pow_positive, pow};
use vstd::prelude::*;

use crate::decimal::{decimal, decimal_string};

verus! {

/// One byte.
pub const BYTE: u64 = 1;

/// 1024 bytes.
pub const KI_BYTE: u64 = 1_024;

/// 1024 `KiB`.
pub const MI_BYTE: u64 = 1_048_576;

/// 1024 `MiB`.
pub const GI_BYTE: u64 = 1_073_741_824;

/// 1024 `GiB`.
pub const TI_BYTE: u64 = 1_099_511_627_776;

/// 1024 `TiB`.
pub const PI_BYTE: u64 = 1_125_899_906_842_624;

/// 1024 `PiB`.
pub const EI_BYTE: u64 = 1_152_921_504_606_846_976;

/// 1000 bytes.
pub const K_BYTE: u64 = BYTE * 1000;

/// 1000 `kB`.
pub const M_BYTE: u64 = K_BYTE * 1000;

/// 1000 `MB`.
pub const G_BYTE: u64 = M_BYTE * 1000;

/// 1000 `GB`.
pub const T_BYTE: u64 = G_BYTE * 1000;

/// 1000 `TB`.
pub const P_BYTE: u64 = T_BYTE * 1000;

/// 1000 `PB`.
pub const E_BYTE: u64 = P_BYTE * 1000;

/// The exponent of the largest unit there is a name for.
pub const MAX_EXPONENT: usize = 6;

/// The name of the decimal unit of `base` to the power `exponent` bytes.
pub open spec fn si_unit(exponent: nat) -> Seq<char>
    recommends
        exponent <= MAX_EXPONENT,
{
    if exponent == 0 {
        "B"@
    } else if exponent == 1 {
        "kB"@
    } else if exponent == 2 {
        "MB"@
    } else if exponent == 3 {
        "GB"@
    } else if exponent == 4 {
        "TB"@
    } else if exponent == 5 {
        "PB"@
    } else {
        "EB"@
    }
}

/// The name of the binary unit of 1024 to the power `exponent` bytes.
pub open spec fn iec_unit(exponent: nat) -> Seq<char>
    recommends
        exponent <= MAX_EXPONENT,
{
    if exponent == 0 {
        "B"@
    } else if exponent == 1 {
        "KiB"@
    } else if exponent == 2 {
        "MiB"@
    } else if exponent == 3 {
        "GiB"@
    } else if exponent == 4 {
        "TiB"@
    } else if exponent == 5 {
        "PiB"@
    } else {
        "EiB"@
    }
}

/// The exponent of the unit in which a size of `n` bytes is written: the
/// whole part of the logarithm of `n` to `base`, and at most
/// [`MAX_EXPONENT`].
pub open spec fn unit_exponent(n: nat, base: nat) -> nat {
    if log(base as int, n as int) <= MAX_EXPONENT {
        log(base as int, n as int) as nat
    } else {
        MAX_EXPONENT as nat
    }
}

/// The number of whole units in `n` bytes.
pub open spec fn unit_count(n: nat, base: nat) -> nat {
    (n / pow(base as int, unit_exponent(n, base)) as nat) as nat
}

/// The text for a size of `n` bytes that comes to `count` whole units named
/// `unit`.
///
/// Below ten bytes the size is written as it is. A count below ten stands
/// alone; a larger one is followed by `.0`.
pub open spec fn size_text(n: nat, count: nat, unit: Seq<char>) -> Seq<char> {
    if n < 10 {
        decimal(n) + " B"@
    } else if count < 10 {
        decimal(count) + " "@ + unit
    } else {
        decimal(count) + ".0 "@ + unit
    }
}

/// The text of `n` bytes in decimal units.
pub open spec fn bytes_text(n: nat) -> Seq<char> {
    size_text(n, unit_count(n, 1000), si_unit(unit_exponent(n, 1000)))
}

/// The text of `n` bytes in binary units.
pub open spec fn ibytes_text(n: nat) -> Seq<char> {
    size_text(n, unit_count(n, 1024), iec_unit(unit_exponent(n, 1024)))
}

/// The size in bytes of the decimal unit with the given exponent.
pub open spec fn si_size(exponent: nat) -> nat
    recommends
        exponent <= MAX_EXPONENT,
{
    if exponent == 0 {
        BYTE as nat
    } else if exponent == 1 {
        K_BYTE as nat
    } else if exponent == 2 {
        M_BYTE as nat
    } else if exponent == 3 {
        G_BYTE as nat
    } else if exponent == 4 {
        T_BYTE as nat
    } else if exponent == 5 {
        P_BYTE as nat
    } else {
        E_BYTE as nat
    }
}

/// The size in bytes of the binary unit with the given exponent.
pub open spec fn iec_size(exponent: nat) -> nat
    recommends
        exponent <= MAX_EXPONENT,
{
    if exponent == 0 {
        BYTE as nat
    } else if exponent == 1 {
        KI_BYTE as nat
    } else if exponent == 2 {
        MI_BYTE as nat
    } else if exponent == 3 {
        GI_BYTE as nat
    } else if exponent == 4 {
        TI_BYTE as nat
    } else if exponent == 5 {
        PI_BYTE as nat
    } else {
        EI_BYTE as nat
    }
}

/// The named units are the powers of their base.
pub proof fn lemma_unit_sizes(exponent: nat)
    requires
        exponent <= MAX_EXPONENT,
    ensures
        pow(1000, exponent) == si_size(exponent),
        pow(1024, exponent) == iec_size(exponent),
{
    reveal_with_fuel(pow, 8);
}

/// A number below a power of the base has a logarithm below the exponent.
proof fn lemma_log_below(base: int, n: int, exponent: nat)
    requires
        base > 1,
        exponent >= 1,
        0 <= n < pow(base, exponent),
    ensures
        log(base, n) < exponent,
    decreases exponent,
{
    if n < base {
        lemma_log0(base, n);
    } else {
        let lower = (exponent - 1) as nat;
        assert(pow(base, exponent) == base * pow(base, lower)) by {
            reveal(pow);
        }
        if lower == 0 {
            lemma_pow0(base);
        } else {
            lemma_log_s(base, n);
            assert(n / base < pow(base, lower)) by (nonlinear_arith)
                requires
                    base > 1,
                    0 <= n < base * pow(base, lower),
            ;
            lemma_log_below(base, n / base, lower);
        }
    }
}

/// The unit of a size is the largest one that the size holds at least once,
/// and the count is the number of times it holds it.
pub proof fn lemma_unit_exponent(n: nat, base: nat, exponent: nat)
    requires
        base > 1,
        exponent <= MAX_EXPONENT,
        pow(base as int, exponent) <= n,
        exponent < MAX_EXPONENT ==> n < pow(base as int, exponent + 1),
    ensures
        unit_exponent(n, base) == exponent,
        unit_count(n, base) == n / pow(base as int, exponent) as nat,
{
    lemma_pow_positive(base as int, exponent);
    lemma_log_pow(base as int, exponent);
    lemma_log_is_ordered(base as int, pow(base as int, exponent), n as int);
    if exponent < MAX_EXPONENT {
        lemma_log_below(base as int, n as int, exponent + 1);
    }
}

/// A size that lies between a decimal unit and the next is written in that
/// unit; from the largest unit on, in the largest.
pub proof fn lemma_bytes_unit(n: nat, exponent: nat)
    requires
        exponent <= MAX_EXPONENT,
        si_size(exponent) <= n,
        exponent < MAX_EXPONENT ==> n < si_size(exponent + 1),
    ensures
        bytes_text(n) == size_text(n, n / si_size(exponent), si_unit(exponent)),
{
    lemma_unit_sizes(exponent);
    if exponent < MAX_EXPONENT {
        lemma_unit_sizes(exponent + 1);
    }
    lemma_unit_exponent(n, 1000, exponent);
}

/// A size that lies between a binary unit and the next is written in that
/// unit; from the largest unit on, in the largest.
pub proof fn lemma_ibytes_unit(n: nat, exponent: nat)
    requires
        exponent <= MAX_EXPONENT,
        iec_size(exponent) <= n,
        exponent < MAX_EXPONENT ==> n < iec_size(exponent + 1),
    ensures
        ibytes_text(n) == size_text(n, n / iec_size(exponent), iec_unit(exponent)),
{
    lemma_unit_sizes(exponent);
    if exponent < MAX_EXPONENT {
        lemma_unit_sizes(exponent + 1);
    }
    lemma_unit_exponent(n, 1024, exponent);
}

/// Asking twice for the text of the same size gives the same text.
pub proof fn lemma_bytes_repeatable(s: u64, first: String, second: String)
    requires
        call_ensures(bytes, (s,), first),
        call_ensures(bytes, (s,), second),
    ensures
        first@ == second@,
{
}

/// Asking twice for the text of the same size gives the same text.
pub proof fn lemma_ibytes_repeatable(s: u64, first: String, second: String)
    requires
        call_ensures(ibytes, (s,), first),
        call_ensures(ibytes, (s,), second),
    ensures
        first@ == second@,
{
}

/// Finds the unit for `n` bytes: returns the number of whole units and the
/// unit's exponent.
fn scale(n: u64, base: u64) -> (scaled: (u64, usize))
    requires
        base > 1,
    ensures
        scaled.0 == unit_count(n as nat, base as nat),
        scaled.1 == unit_exponent(n as nat, base as nat),
        scaled.1 <= MAX_EXPONENT,
{
    let mut count: u64 = n;
    let mut exponent: usize = 0;
    proof {
        lemma_pow0(base as int);
        lemma_log_nonnegative(base as int, n as int);
    }
    while exponent < MAX_EXPONENT && count >= base
        invariant
            base > 1,
            exponent <= MAX_EXPONENT,
            pow(base as int, exponent as nat) > 0,
            count == n as int / pow(base as int, exponent as nat),
            log(base as int, n as int) == exponent + log(base as int, count as int),
            log(base as int, count as int) >= 0,
        decreases MAX_EXPONENT - exponent,
    {
        proof {
            let power = pow(base as int, exponent as nat);
            lemma_log_s(base as int, count as int);
            lemma_log_nonnegative(base as int, count as int / base as int);
            lemma_div_denominator(n as int, power, base as int);
            lemma_pow_positive(base as int, (exponent + 1) as nat);
            assert(pow(base as int, (exponent + 1) as nat) == power * base) by {
                reveal(pow);
                assert(base * power == power * base) by (nonlinear_arith);
            }
        }
        count = count / base;
        exponent = exponent + 1;
    }
    proof {
        if count < base {
            lemma_log0(base as int, count as int);
        }
    }
    (count, exponent)
}

/// The name of a decimal unit.
fn si_unit_name(exponent: usize) -> (name: &'static str)
    requires
        exponent <= MAX_EXPONENT,
    ensures
        name@ == si_unit(exponent as nat),
{
    match exponent {
        0 => "B",
        1 => "kB",
        2 => "MB",
        3 => "GB",
        4 => "TB",
        5 => "PB",
        _ => "EB",
    }
}

/// The name of a binary unit.
fn iec_unit_name(exponent: usize) -> (name: &'static str)
    requires
        exponent <= MAX_EXPONENT,
    ensures
        name@ == iec_unit(exponent as nat),
{
    match exponent {
        0 => "B",
        1 => "KiB",
        2 => "MiB",
        3 => "GiB",
        4 => "TiB",
        5 => "PiB",
        _ => "EiB",
    }
}

/// Writes a size of `n` bytes that comes to `count` whole units named
/// `unit`.
fn write_size(n: u64, count: u64, unit: &str) -> (text: String)
    ensures
        text@ == size_text(n as nat, count as nat, unit@),
{
    if n < 10 {
        decimal_string(n as u128).concat(" B")
    } else if count < 10 {
        decimal_string(count as u128).concat(" ").concat(unit)
    } else {
        decimal_string(count as u128).concat(".0 ").concat(unit)
    }
}

/// Writes a size in bytes with decimal units: `bytes(5000)` is `5 kB`.
pub fn bytes(s: u64) -> (text: String)
    ensures
        text@ == bytes_text(s as nat),
{
    let (count, exponent) = scale(s, 1000);
    write_size(s, count, si_unit_name(exponent))
}

/// Writes a size in bytes with binary units: `ibytes(5120)` is `5 KiB`.
pub fn ibytes(s: u64) -> (text: String)
    ensures
        text@ == ibytes_text(s as nat),
{
    let (count, exponent) = scale(s, 1024);
    write_size(s, count, iec_unit_name(exponent))
}

} // verus!
