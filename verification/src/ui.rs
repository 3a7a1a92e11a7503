//! The text of the statistics overlay: one line for each steering weight.

use vstd::prelude::*;
use vstd::string::StringExecFns;
use crate::settings::{BoidSettings, WEIGHT_ONE};

verus! {

/// The character of the decimal digit `d`.
pub open spec fn digit(d: int) -> char {
    if d == 0 {
        '0'
    } else if d == 1 {
        '1'
    } else if d == 2 {
        '2'
    } else if d == 3 {
        '3'
    } else if d == 4 {
        '4'
    } else if d == 5 {
        '5'
    } else if d == 6 {
        '6'
    } else if d == 7 {
        '7'
    } else if d == 8 {
        '8'
    } else {
        '9'
    }
}

/// The decimal digits of `n`, most significant first, without leading
/// zeros.
pub open spec fn decimal(n: nat) -> Seq<char>
    decreases n,
{
    if n < 10 {
        seq![digit(n as int)]
    } else {
        decimal(n / 10).push(digit((n % 10) as int))
    }
}

/// `unit` is one, ten, a hundred and so on.
pub open spec fn is_power_of_ten(unit: nat) -> bool
    decreases unit,
{
    unit == 1 || (unit >= 10 && unit % 10 == 0 && is_power_of_ten(unit / 10))
}

/// The decimal places of `part / (10 * unit)`, a fraction below one, down
/// to the last place that is not zero; `unit` is a power of ten.
pub open spec fn places(part: nat, unit: nat) -> Seq<char>
    decreases unit,
{
    if unit == 0 {
        Seq::empty()
    } else if part % unit == 0 {
        seq![digit((part / unit) as int)]
    } else {
        seq![digit((part / unit) as int)] + places(part % unit, unit / 10)
    }
}

/// A magnitude in millionths, in decimal: the whole part, and, where there
/// is a fraction, a point and its places.
pub open spec fn millionths(n: nat) -> Seq<char> {
    if n % (WEIGHT_ONE as nat) == 0 {
        decimal(n / (WEIGHT_ONE as nat))
    } else {
        decimal(n / (WEIGHT_ONE as nat)) + seq!['.'] + places(n % (WEIGHT_ONE as nat), 100_000)
    }
}

/// A weight in decimal, with a minus sign in front where it is negative:
/// `5`, `-0.25`, `1.5`.
pub open spec fn weight_text(weight: int) -> Seq<char> {
    if weight < 0 {
        seq!['-'] + millionths((-weight) as nat)
    } else {
        millionths(weight as nat)
    }
}

/// The line of the overlay for the weight `value` under the name `label`.
pub open spec fn stat_line(label: Seq<char>, value: int) -> Seq<char> {
    label + seq![':', ' '] + weight_text(value)
}

/// The text of one decimal digit.
fn digit_text(d: u64) -> (text: &'static str)
    requires
        d < 10,
    ensures
        text@ == seq![digit(d as int)],
{
    proof {
        reveal_strlit("0");
        reveal_strlit("1");
        reveal_strlit("2");
        reveal_strlit("3");
        reveal_strlit("4");
        reveal_strlit("5");
        reveal_strlit("6");
        reveal_strlit("7");
        reveal_strlit("8");
        reveal_strlit("9");
    }
    let text = if d == 0 {
        "0"
    } else if d == 1 {
        "1"
    } else if d == 2 {
        "2"
    } else if d == 3 {
        "3"
    } else if d == 4 {
        "4"
    } else if d == 5 {
        "5"
    } else if d == 6 {
        "6"
    } else if d == 7 {
        "7"
    } else if d == 8 {
        "8"
    } else {
        "9"
    };
    assert(text@ =~= seq![digit(d as int)]);
    text
}

/// Appends the decimal digits of `n` to `text`.
fn append_decimal(text: &mut String, n: u64)
    ensures
        final(text)@ == old(text)@ + decimal(n as nat),
    decreases n,
{
    if n >= 10 {
        append_decimal(text, n / 10);
    }
    text.append(digit_text(n % 10));
    assert(text@ =~= old(text)@ + decimal(n as nat));
}

/// Appends the decimal places of `part / (10 * unit)` to `text`.
fn append_places(text: &mut String, part: u64, unit: u64)
    requires
        is_power_of_ten(unit as nat),
        part < 10 * unit,
    ensures
        final(text)@ == old(text)@ + places(part as nat, unit as nat),
    decreases unit,
{
    assert(part / unit < 10) by (nonlinear_arith)
        requires
            part < 10 * unit,
            unit > 0,
    ;
    text.append(digit_text(part / unit));
    let rest: u64 = part % unit;
    if rest != 0 {
        assert(unit != 1);
        append_places(text, rest, unit / 10);
    }
    assert(text@ =~= old(text)@ + places(part as nat, unit as nat));
}

/// One line of the overlay: the label, a colon, a blank, and the weight in
/// decimal.
pub fn stat_text(label: &str, value: i64) -> (line: String)
    ensures
        line@ == stat_line(label@, value as int),
{
    proof {
        reveal_strlit(": ");
        reveal_strlit("-");
        reveal_strlit(".");
    }
    let mut line = String::new();
    line.append(label);
    line.append(": ");
    assert(line@ =~= label@ + seq![':', ' ']);
    let one: u64 = WEIGHT_ONE as u64;
    let magnitude: u64 = if value < 0 {
        line.append("-");
        (-(value as i128)) as u64
    } else {
        value as u64
    };
    let ghost head = line@;
    append_decimal(&mut line, magnitude / one);
    let part: u64 = magnitude % one;
    if part != 0 {
        line.append(".");
        proof {
            reveal_with_fuel(is_power_of_ten, 7);
            assert(is_power_of_ten(100_000));
        }
        append_places(&mut line, part, 100_000);
    }
    assert(line@ =~= head + millionths(magnitude as nat));
    assert(line@ =~= stat_line(label@, value as int));
    line
}

/// The three lines of the overlay: alignment, cohesion, separation.
pub fn show_stats(boid_settings: &BoidSettings) -> (lines: Vec<String>)
    ensures
        lines@.len() == 3,
        lines@[0]@ == stat_line("Alignment"@, boid_settings.alignment as int),
        lines@[1]@ == stat_line("Cohesion"@, boid_settings.cohesion as int),
        lines@[2]@ == stat_line("Separation"@, boid_settings.separation as int),
{
    let mut lines: Vec<String> = Vec::new();
    lines.push(stat_text("Alignment", boid_settings.alignment));
    lines.push(stat_text("Cohesion", boid_settings.cohesion));
    lines.push(stat_text("Separation", boid_settings.separation));
    lines
}

} // verus!
