//! The lines the game writes to its log.

use vstd::prelude::*;
use vstd::string::*;

verus! {

/// The character that stands for a single decimal digit.
pub open spec fn digit_char(d: int) -> char {
    if d == 0 {
        '0'
    } else if d == 1 {
        '1'
    } else if d == 2 {
        '2'
    } else if d == 3 {
        '3'
    } else if d == 4 {
        '4'
    } else if d == 5 {
        '5'
    } else if d == 6 {
        '6'
    } else if d == 7 {
        '7'
    } else if d == 8 {
        '8'
    } else {
        '9'
    }
}

/// A natural number written in base ten, without leading zeros.
pub open spec fn decimal(n: nat) -> Seq<char>
    decreases n,
{
    if n < 10 {
        seq![digit_char(n as int)]
    } else {
        decimal(n / 10).push(digit_char((n % 10) as int))
    }
}

/// An integer written in base ten, with a minus sign if it is negative.
pub open spec fn signed_decimal(n: int) -> Seq<char> {
    if n < 0 {
        seq!['-'] + decimal((-n) as nat)
    } else {
        decimal(n as nat)
    }
}

/// The first line of every log: the seed the dungeon grew from.
pub open spec fn seed_text(seed: u64) -> Seq<char> {
    "Seed: "@ + decimal(seed as nat)
}

/// The line logged when the player has moved to `(x, y)`.
pub open spec fn moved_text(x: i32, y: i32) -> Seq<char> {
    "Player moved to ("@ + signed_decimal(x as int) + ", "@ + signed_decimal(y as int) + ")"@
}

/// The line logged on arriving at the level of the given depth.
pub open spec fn entered_text(depth: usize) -> Seq<char> {
    "Entered level "@ + decimal(depth as nat)
}

/// The line logged on coming back to the level of the given depth.
pub open spec fn returned_text(depth: usize) -> Seq<char> {
    "Returned to level "@ + decimal(depth as nat)
}

/// The one-character string of a decimal digit.
fn digit_str(d: u64) -> (s: &'static str)
    requires
        d < 10,
    ensures
        s@ == seq![digit_char(d as int)],
{
    proof {
        reveal_strlit("0");
        reveal_strlit("1");
        reveal_strlit("2");
        reveal_strlit("3");
        reveal_strlit("4");
        reveal_strlit("5");
        reveal_strlit("6");
        reveal_strlit("7");
        reveal_strlit("8");
        reveal_strlit("9");
    }
    let s = if d == 0 {
        "0"
    } else if d == 1 {
        "1"
    } else if d == 2 {
        "2"
    } else if d == 3 {
        "3"
    } else if d == 4 {
        "4"
    } else if d == 5 {
        "5"
    } else if d == 6 {
        "6"
    } else if d == 7 {
        "7"
    } else if d == 8 {
        "8"
    } else {
        "9"
    };
    assert(s@ =~= seq![digit_char(d as int)]);
    s
}

/// Appends `n`, written in base ten, to `text`.
pub fn append_decimal(text: &mut String, n: u64)
    ensures
        final(text)@ == old(text)@ + decimal(n as nat),
    decreases n,
{
    if n >= 10 {
        append_decimal(text, n / 10);
    }
    text.append(digit_str(n % 10));
    assert(text@ =~= old(text)@ + decimal(n as nat));
}

/// Appends `n`, written in base ten with its sign, to `text`.
pub fn append_signed(text: &mut String, n: i32)
    ensures
        final(text)@ == old(text)@ + signed_decimal(n as int),
{
    if n < 0 {
        proof {
            reveal_strlit("-");
        }
        text.append("-");
        append_decimal(text, (-(n as i64)) as u64);
        assert(text@ =~= old(text)@ + signed_decimal(n as int));
    } else {
        append_decimal(text, n as u64);
    }
}

/// The first line of every log: the seed the dungeon grew from.
pub fn seed_message(seed: u64) -> (line: String)
    ensures
        line@ == seed_text(seed),
{
    let mut line = String::from_str("Seed: ");
    append_decimal(&mut line, seed);
    line
}

/// The line logged when the player has moved to `(x, y)`.
pub fn moved_message(x: i32, y: i32) -> (line: String)
    ensures
        line@ == moved_text(x, y),
{
    let mut line = String::from_str("Player moved to (");
    append_signed(&mut line, x);
    line.append(", ");
    append_signed(&mut line, y);
    line.append(")");
    line
}

/// The line logged on arriving at the level of the given depth.
pub fn entered_message(depth: usize) -> (line: String)
    ensures
        line@ == entered_text(depth),
{
    let mut line = String::from_str("Entered level ");
    append_decimal(&mut line, depth as u64);
    line
}

/// The line logged on coming back to the level of the given depth.
pub fn returned_message(depth: usize) -> (line: String)
    ensures
        line@ == returned_text(depth),
{
    let mut line = String::from_str("Returned to level ");
    append_decimal(&mut line, depth as u64);
    line
}

} // verus!
