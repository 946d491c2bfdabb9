//! The command line: what to do, and which folder to play.

use vstd::prelude::*;

use crate::text::{char_vec, same_chars};

verus! {

/// What the program was asked to do.
#[derive(Clone, Copy, PartialEq, Eq, Debug)]
pub enum Command {
    /// Print the usage text and exit.
    Help,
    /// List the library found in the folder and exit.
    Scan,
    /// Start the player.
    Play,
}

/// What the first argument after the program's name asks for: `-h` and
/// `--help` ask for help, `--scan` for a listing; anything else (or nothing)
/// starts the player.
pub open spec fn command_of(args: Seq<Seq<char>>) -> Command {
    if args.len() > 1 && (args[1] == "-h"@ || args[1] == "--help"@) {
        Command::Help
    } else if args.len() > 1 && args[1] == "--scan"@ {
        Command::Scan
    } else {
        Command::Play
    }
}

/// The arguments as character sequences.
pub open spec fn arg_view(args: Seq<String>) -> Seq<Seq<char>> {
    args.map_values(|a: String| a@)
}

fn is_text(v: &Vec<char>, w: &str) -> (r: bool)
    ensures
        r == (v@ == w@),
{
    same_chars(v, &char_vec(w))
}

/// Decides what to do from the program's arguments (`args[0]` is its name).
pub fn command(args: &Vec<String>) -> (c: Command)
    ensures
        c == command_of(arg_view(args@)),
{
    if args.len() > 1 {
        let a = char_vec(args[1].as_str());
        proof {
            assert(arg_view(args@)[1] == args@[1]@);
        }
        if is_text(&a, "-h") || is_text(&a, "--help") {
            return Command::Help;
        }
        if is_text(&a, "--scan") {
            return Command::Scan;
        }
    }
    Command::Play
}

/// An argument is an option when it starts with `-`.
pub open spec fn is_option(a: Seq<char>) -> bool {
    a.len() > 0 && a[0] == '-'
}

/// The position of the first argument after the program's name that is not
/// an option: the music folder, when one is given.
pub fn music_dir_arg(args: &Vec<String>) -> (r: Option<usize>)
    ensures
        match r {
            Some(i) => 1 <= i < args.len() && !is_option(args@[i as int]@) && forall|j: int|
                1 <= j < i ==> is_option(#[trigger] args@[j]@),
            None => forall|j: int| 1 <= j < args.len() ==> is_option(#[trigger] args@[j]@),
        },
{
    let mut i: usize = 1;
    while i < args.len()
        invariant
            1 <= i,
            forall|j: int| 1 <= j < i && j < args.len() ==> is_option(#[trigger] args@[j]@),
        decreases args.len() - i,
    {
        let a = char_vec(args[i].as_str());
        if !(a.len() > 0 && a[0] == '-') {
            return Some(i);
        }
        i = i + 1;
    }
    None
}

} // verus!
