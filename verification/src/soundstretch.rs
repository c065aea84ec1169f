//! Command-line grammar of the `soundstretch` tool.
//!
//! The command line is `soundstretch infile [outfile] [switches]`. A switch
//! starts with `-`; its first letter (in either case) says which one it is,
//! and the switches that take a number carry it after the first `=`:
//! `-tempo=n`, `-pitch=n`, `-rate=n`, `-bpm[=n]`, `-quick`, `-naa`,
//! `-speech`, `-license`.

use vstd::prelude::*;

verus! {

/// How the command line is laid out before its switches.
#[derive(Debug, Clone, Copy, PartialEq, Eq, Structural)]
pub enum ArgsLayout {
    /// Only the license text is asked for.
    License,
    /// Too few parameters.
    TooFew,
    /// The input file is the first argument; the output file is the second
    /// when `has_output`; the switches start at `switches_start`.
    Files { has_output: bool, switches_start: usize },
}

/// The value part of a switch.
#[derive(Debug, Clone, PartialEq, Eq)]
pub enum SwitchValue {
    /// The switch has no `=`.
    Missing,
    /// The text after the first `=`.
    Text(String),
}

/// What one command-line switch is.
#[derive(Debug, Clone, PartialEq, Eq)]
pub enum Switch {
    /// The argument does not start with `-`.
    Unexpected,
    /// `-tempo=n`: tempo change in percent.
    Tempo(SwitchValue),
    /// `-pitch=n`: pitch change in semitones.
    Pitch(SwitchValue),
    /// `-rate=n`: rate change in percent.
    Rate(SwitchValue),
    /// `-bpm[=n]`: detect the beat rate, and adjust the tempo to `n` if given.
    Bpm(SwitchValue),
    /// `-quick`: quicker tempo change algorithm.
    Quick,
    /// `-naa`: no anti-alias filtering.
    NoAntiAlias,
    /// `-speech`: settings tuned for speech.
    Speech,
    /// `-license`: show the license text.
    License,
    /// A switch letter that no switch has.
    Unknown,
}

/// Whether `s` starts with `c`.
pub open spec fn starts_with(s: Seq<char>, c: char) -> bool {
    s.len() > 0 && s[0] == c
}

/// The layout of command line `args` (the program name first).
pub open spec fn args_layout_spec(args: Seq<Seq<char>>) -> ArgsLayout {
    if args.len() < 3 {
        if args.len() == 2 && args[1].len() >= 2 && args[1][0] == '-' && args[1][1] == 'l' {
            ArgsLayout::License
        } else {
            ArgsLayout::TooFew
        }
    } else if starts_with(args[2], '-') {
        ArgsLayout::Files { has_output: false, switches_start: 2 }
    } else {
        ArgsLayout::Files { has_output: true, switches_start: 3 }
    }
}

/// The character views of the arguments.
pub open spec fn arg_views(args: Seq<String>) -> Seq<Seq<char>> {
    args.map_values(|a: String| a@)
}

/// The layout of command line `args` (see `args_layout_spec`).
pub fn args_layout(args: &Vec<String>) -> (r: ArgsLayout)
    ensures
        r == args_layout_spec(arg_views(args@)),
        args@.len() >= 3 && starts_with(args@[2]@, '-') ==> r == (ArgsLayout::Files {
            has_output: false,
            switches_start: 2,
        }),
        args@.len() >= 3 && !starts_with(args@[2]@, '-') ==> r == (ArgsLayout::Files {
            has_output: true,
            switches_start: 3,
        }),
        args@.len() < 3 ==> (r == ArgsLayout::License <==> (args@.len() == 2 && args@[1]@.len()
            >= 2 && args@[1]@[0] == '-' && args@[1]@[1] == 'l')),
        args@.len() < 3 ==> (r == ArgsLayout::License || r == ArgsLayout::TooFew),
{
    let ghost views = arg_views(args@);
    let n = args.len();
    if n < 3 {
        if n == 2 {
            let a = args[1].as_str();
            proof {
                assert(views[1] == args@[1]@);
            }
            let len = a.unicode_len();
            if len >= 2 && a.get_char(0) == '-' && a.get_char(1) == 'l' {
                return ArgsLayout::License;
            }
        }
        return ArgsLayout::TooFew;
    }
    let b = args[2].as_str();
    proof {
        assert(views[2] == args@[2]@);
    }
    let len = b.unicode_len();
    if len > 0 && b.get_char(0) == '-' {
        ArgsLayout::Files { has_output: false, switches_start: 2 }
    } else {
        ArgsLayout::Files { has_output: true, switches_start: 3 }
    }
}

/// With three arguments or more the input file comes first, and the output
/// file is there exactly when the third argument is not a switch (does not
/// start with `-`); the switches start right after the files, however many
/// arguments follow.
pub proof fn law_output_present_unless_switch(args: Seq<String>)
    requires
        args.len() >= 3,
    ensures
        ({
            let r = args_layout_spec(arg_views(args));
            &&& r matches ArgsLayout::Files { has_output, switches_start }
            &&& (r matches ArgsLayout::Files { has_output, .. } && has_output
                <==> !starts_with(args[2]@, '-'))
            &&& (r matches ArgsLayout::Files { has_output, switches_start } && switches_start == (
            if has_output {
                3usize
            } else {
                2usize
            }))
        }),
{
    assert(arg_views(args)[2] == args[2]@);
}

/// Whether `k` is the position of the first `=` in `s`.
pub open spec fn is_first_eq(s: Seq<char>, k: int) -> bool {
    0 <= k < s.len() && s[k] == '=' && forall|j: int| 0 <= j < k ==> s[j] != '='
}

/// Whether `v` is the value part of switch `s`: `Missing` when `s` has no
/// `=`, else the text after the first `=`.
pub open spec fn value_of(v: SwitchValue, s: Seq<char>) -> bool {
    match v {
        SwitchValue::Missing => forall|j: int| 0 <= j < s.len() ==> s[j] != '=',
        SwitchValue::Text(t) => exists|k: int|
            #![trigger is_first_eq(s, k)]
            is_first_eq(s, k) && t@ == s.subrange(k + 1, s.len() as int),
    }
}

/// The value part of switch `arg` (see `value_of`).
pub fn switch_value(arg: &str) -> (r: SwitchValue)
    ensures
        value_of(r, arg@),
{
    let len = arg.unicode_len();
    let mut k: usize = 0;
    while k < len
        invariant
            len == arg@.len(),
            k <= len,
            forall|j: int| 0 <= j < k ==> arg@[j] != '=',
        decreases len - k,
    {
        if arg.get_char(k) == '=' {
            let text = arg.substring_char(k + 1, len).to_owned();
            proof {
                assert(is_first_eq(arg@, k as int));
            }
            return SwitchValue::Text(text);
        }
        k = k + 1;
    }
    SwitchValue::Missing
}

/// The letter that names switch `s`: the one after the `-`, or a space
/// when there is none.
pub open spec fn switch_letter(s: Seq<char>) -> char {
    if s.len() >= 2 {
        s[1]
    } else {
        ' '
    }
}

/// Whether `letter` is `lower` in either case.
pub open spec fn is_letter(letter: char, lower: char, upper: char) -> bool {
    letter == lower || letter == upper
}

/// Classifies one command-line argument after the file names. An argument
/// that does not start with `-` is unexpected; otherwise the letter after
/// the `-`, in either case, names the switch, and the switches that take a
/// number get the text after their first `=`.
pub fn classify_switch(arg: &str) -> (r: Switch)
    ensures
        !starts_with(arg@, '-') ==> r == Switch::Unexpected,
        starts_with(arg@, '-') ==> {
            let c = switch_letter(arg@);
            &&& is_letter(c, 't', 'T') ==> (r matches Switch::Tempo(v) && value_of(v, arg@))
            &&& is_letter(c, 'p', 'P') ==> (r matches Switch::Pitch(v) && value_of(v, arg@))
            &&& is_letter(c, 'r', 'R') ==> (r matches Switch::Rate(v) && value_of(v, arg@))
            &&& is_letter(c, 'b', 'B') ==> (r matches Switch::Bpm(v) && value_of(v, arg@))
            &&& is_letter(c, 'q', 'Q') ==> r == Switch::Quick
            &&& is_letter(c, 'n', 'N') ==> r == Switch::NoAntiAlias
            &&& is_letter(c, 's', 'S') ==> r == Switch::Speech
            &&& is_letter(c, 'l', 'L') ==> r == Switch::License
            &&& !(is_letter(c, 't', 'T') || is_letter(c, 'p', 'P') || is_letter(c, 'r', 'R')
                || is_letter(c, 'b', 'B') || is_letter(c, 'q', 'Q') || is_letter(c, 'n', 'N')
                || is_letter(c, 's', 'S') || is_letter(c, 'l', 'L')) ==> r == Switch::Unknown
        },
{
    let len = arg.unicode_len();
    if len == 0 || arg.get_char(0) != '-' {
        return Switch::Unexpected;
    }
    let c = if len >= 2 {
        arg.get_char(1)
    } else {
        ' '
    };
    if c == 't' || c == 'T' {
        Switch::Tempo(switch_value(arg))
    } else if c == 'p' || c == 'P' {
        Switch::Pitch(switch_value(arg))
    } else if c == 'r' || c == 'R' {
        Switch::Rate(switch_value(arg))
    } else if c == 'b' || c == 'B' {
        Switch::Bpm(switch_value(arg))
    } else if c == 'q' || c == 'Q' {
        Switch::Quick
    } else if c == 'n' || c == 'N' {
        Switch::NoAntiAlias
    } else if c == 's' || c == 'S' {
        Switch::Speech
    } else if c == 'l' || c == 'L' {
        Switch::License
    } else {
        Switch::Unknown
    }
}

} // verus!
