//! Rendering workspace numbers and the outgoing command strings.

use vstd::prelude::*;
use vstd::string::StringExecFns;

verus! {

/// The decimal digit character for `d` (0 through 9).
pub open spec fn spec_digit_char(d: int) -> char {
    if d == 0 {
        '0'
    } else if d == 1 {
        '1'
    } else if d == 2 {
        '2'
    } else if d == 3 {
        '3'
    } else if d == 4 {
        '4'
    } else if d == 5 {
        '5'
    } else if d == 6 {
        '6'
    } else if d == 7 {
        '7'
    } else if d == 8 {
        '8'
    } else {
        '9'
    }
}

/// Decimal digits of a non-negative number, most significant first.
pub open spec fn spec_udigits(n: int) -> Seq<char>
    decreases n,
{
    if n < 10 {
        seq![spec_digit_char(n)]
    } else {
        spec_udigits(n / 10) + seq![spec_digit_char(n % 10)]
    }
}

/// Decimal rendering of a signed number.
pub open spec fn spec_i32_digits(n: int) -> Seq<char> {
    if n < 0 {
        seq!['-'] + spec_udigits(-n)
    } else {
        spec_udigits(n)
    }
}

/// The command that switches to workspace `n`.
pub open spec fn spec_switch_cmd(n: int) -> Seq<char> {
    "workspace number "@ + spec_i32_digits(n)
}

/// The command that moves the focused container to workspace `n` and then
/// switches to it, as one atomic sequence.
pub open spec fn spec_move_cmd(n: int) -> Seq<char> {
    "move container to workspace number "@ + spec_i32_digits(n) + "; workspace number "@
        + spec_i32_digits(n)
}

fn digit_str(d: u32) -> (s: &'static str)
    requires
        d < 10,
    ensures
        s@ == seq![spec_digit_char(d as int)],
{
    proof {
        reveal_strlit("0");
        reveal_strlit("1");
        reveal_strlit("2");
        reveal_strlit("3");
        reveal_strlit("4");
        reveal_strlit("5");
        reveal_strlit("6");
        reveal_strlit("7");
        reveal_strlit("8");
        reveal_strlit("9");
    }
    match d {
        0 => "0",
        1 => "1",
        2 => "2",
        3 => "3",
        4 => "4",
        5 => "5",
        6 => "6",
        7 => "7",
        8 => "8",
        _ => "9",
    }
}

/// Append the decimal digits of `n` to `out`.
fn push_udigits(n: u32, out: &mut String)
    ensures
        final(out)@ == old(out)@ + spec_udigits(n as int),
    decreases n,
{
    if n >= 10 {
        push_udigits(n / 10, out);
    }
    out.append(digit_str(n % 10));
    proof {
        if n >= 10 {
            assert(final(out)@ =~= old(out)@ + spec_udigits(n as int));
        } else {
            assert(final(out)@ =~= old(out)@ + spec_udigits(n as int));
        }
    }
}

/// Append the decimal rendering of `n` (sign included) to `out`.
fn push_i32(n: i32, out: &mut String)
    ensures
        final(out)@ == old(out)@ + spec_i32_digits(n as int),
{
    if n < 0 {
        proof {
            reveal_strlit("-");
        }
        out.append("-");
        let wide: i64 = -(n as i64);
        let m: u32 = wide as u32;
        assert(m as int == -(n as int));
        push_udigits(m, out);
        proof {
            assert(final(out)@ =~= old(out)@ + spec_i32_digits(n as int));
        }
    } else {
        push_udigits(n as u32, out);
    }
}

/// Render `n` in decimal.
pub fn format_i32(n: i32) -> (s: String)
    ensures
        s@ == spec_i32_digits(n as int),
{
    let mut out = String::new();
    push_i32(n, &mut out);
    proof {
        assert(out@ =~= spec_i32_digits(n as int));
    }
    out
}

/// Build the switch command for workspace `n`.
pub fn switch_cmd(n: i32) -> (s: String)
    ensures
        s@ == spec_switch_cmd(n as int),
{
    let mut out = String::from_str("workspace number ");
    push_i32(n, &mut out);
    out
}

/// Build the move-then-switch command for workspace `n`.
pub fn move_cmd(n: i32) -> (s: String)
    ensures
        s@ == spec_move_cmd(n as int),
{
    let mut out = String::from_str("move container to workspace number ");
    push_i32(n, &mut out);
    out.append("; workspace number ");
    push_i32(n, &mut out);
    proof {
        assert(out@ =~= spec_move_cmd(n as int));
    }
    out
}

} // verus!
