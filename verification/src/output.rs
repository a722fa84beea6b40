//! Formatting of every line the tool prints: colour-tagged command output and
//! the informational, warning and error log lines.

use vstd::prelude::*;

verus! {

/// The four ANSI colour codes cycled over command ordinals.
pub open spec fn palette(i: int) -> Seq<char>
    recommends
        0 <= i < 4,
{
    if i == 0 {
        "\x1b[34m"@
    } else if i == 1 {
        "\x1b[35m"@
    } else if i == 2 {
        "\x1b[36m"@
    } else {
        "\x1b[37m"@
    }
}

/// The colour assigned to a command ordinal. The `+ 1` offset is deliberate:
/// ordinal 0 does not receive the palette's first entry.
pub open spec fn colour_of(ordinal: int) -> Seq<char>
    recommends
        ordinal >= 0,
{
    palette((ordinal + 1) % 4)
}

/// The escape sequence that colours a command's tag.
pub fn colour_for(ordinal: usize) -> (c: &'static str)
    ensures
        c@ == colour_of(ordinal as int),
{
    let i = (ordinal % 4 + 1) % 4;
    proof {
        vstd::arithmetic::div_mod::lemma_add_mod_noop(ordinal as int, 1, 4);
    }
    if i == 0 {
        "\x1b[34m"
    } else if i == 1 {
        "\x1b[35m"
    } else if i == 2 {
        "\x1b[36m"
    } else {
        "\x1b[37m"
    }
}

/// The character for one decimal digit.
pub open spec fn digit_char(d: int) -> char
    recommends
        0 <= d < 10,
{
    if d == 0 {
        '0'
    } else if d == 1 {
        '1'
    } else if d == 2 {
        '2'
    } else if d == 3 {
        '3'
    } else if d == 4 {
        '4'
    } else if d == 5 {
        '5'
    } else if d == 6 {
        '6'
    } else if d == 7 {
        '7'
    } else if d == 8 {
        '8'
    } else {
        '9'
    }
}

/// The decimal representation of a natural number, most significant digit
/// first, with no leading zeros (and "0" for zero).
pub open spec fn dec_str(n: nat) -> Seq<char>
    decreases n,
{
    if n < 10 {
        seq![digit_char(n as int)]
    } else {
        dec_str(n / 10).push(digit_char((n % 10) as int))
    }
}

fn digit_str(d: usize) -> (s: &'static str)
    requires
        d < 10,
    ensures
        s@ == seq![digit_char(d as int)],
{
    proof {
        reveal_strlit("0");
        reveal_strlit("1");
        reveal_strlit("2");
        reveal_strlit("3");
        reveal_strlit("4");
        reveal_strlit("5");
        reveal_strlit("6");
        reveal_strlit("7");
        reveal_strlit("8");
        reveal_strlit("9");
    }
    let s: &'static str = if d == 0 {
        "0"
    } else if d == 1 {
        "1"
    } else if d == 2 {
        "2"
    } else if d == 3 {
        "3"
    } else if d == 4 {
        "4"
    } else if d == 5 {
        "5"
    } else if d == 6 {
        "6"
    } else if d == 7 {
        "7"
    } else if d == 8 {
        "8"
    } else {
        "9"
    };
    proof {
        assert(s@ =~= seq![digit_char(d as int)]);
    }
    s
}

/// Renders a number in decimal, as used for a command's numeric tag.
pub fn usize_to_string(n: usize) -> (s: String)
    ensures
        s@ == dec_str(n as nat),
    decreases n,
{
    if n < 10 {
        String::from_str(digit_str(n))
    } else {
        let mut s = usize_to_string(n / 10);
        s.append(digit_str(n % 10));
        proof {
            assert(s@ =~= dec_str(n as nat));
        }
        s
    }
}

/// A command-output line: bold coloured ordinal tag, a space, then the line
/// content verbatim.
pub open spec fn tagged_line_spec(ordinal: nat, line: Seq<char>) -> Seq<char> {
    "\x1b[1m"@ + colour_of(ordinal as int) + dec_str(ordinal) + "\x1b[0m "@ + line
}

/// Formats one line of a command's output with that command's tag.
pub fn tagged_line(ordinal: usize, line: &str) -> (out: String)
    ensures
        out@ == tagged_line_spec(ordinal as nat, line@),
{
    let mut s = String::from_str("\x1b[1m");
    s.append(colour_for(ordinal));
    let digits = usize_to_string(ordinal);
    s.append(digits.as_str());
    s.append("\x1b[0m ");
    s.append(line);
    proof {
        assert(s@ =~= tagged_line_spec(ordinal as nat, line@));
    }
    s
}

/// An informational log line: a bold green "I" tag, then the message.
pub open spec fn info_line_spec(msg: Seq<char>) -> Seq<char> {
    "[\x1b[1m\x1b[32mI\x1b[0m] "@ + msg
}

/// A warning log line: a bold yellow "W" tag, then the message.
pub open spec fn warn_line_spec(msg: Seq<char>) -> Seq<char> {
    "[\x1b[1m\x1b[33mW\x1b[0m] "@ + msg
}

/// An error log line: a bold red "E" tag, then the message.
pub open spec fn error_line_spec(msg: Seq<char>) -> Seq<char> {
    "[\x1b[1m\x1b[31mE\x1b[0m] "@ + msg
}

/// Formats an informational log line.
pub fn info_line(msg: &str) -> (out: String)
    ensures
        out@ == info_line_spec(msg@),
{
    let mut s = String::from_str("[\x1b[1m\x1b[32mI\x1b[0m] ");
    s.append(msg);
    s
}

/// Formats a warning log line.
pub fn warn_line(msg: &str) -> (out: String)
    ensures
        out@ == warn_line_spec(msg@),
{
    let mut s = String::from_str("[\x1b[1m\x1b[33mW\x1b[0m] ");
    s.append(msg);
    s
}

/// Formats an error log line.
pub fn error_line(msg: &str) -> (out: String)
    ensures
        out@ == error_line_spec(msg@),
{
    let mut s = String::from_str("[\x1b[1m\x1b[31mE\x1b[0m] ");
    s.append(msg);
    s
}

} // verus!
