//! The command audit trail that `log` shows: each run is recorded as its
//! command word and its arguments, with API keys kept out of the record.
use vstd::prelude::*;

use crate::text;

verus! {

/// The command word of a command line (without the program name): the
/// first argument that is not a flag, skipping the value of `--db`.
pub open spec fn command_word(a: Seq<Seq<char>>) -> Seq<char>
    decreases a.len(),
{
    if a.len() == 0 {
        Seq::empty()
    } else if a[0] == "--db"@ {
        if a.len() >= 2 {
            command_word(a.skip(2))
        } else {
            Seq::empty()
        }
    } else if a[0].len() > 0 && a[0][0] == '-' {
        command_word(a.skip(1))
    } else {
        a[0]
    }
}

/// An argument as recorded: the value given after `--api-key`, or in
/// `--api-key=...`, is replaced by `[redacted]`.
pub open spec fn recorded_arg(a: Seq<Seq<char>>, i: int) -> Seq<char> {
    if i > 0 && a[i - 1] == "--api-key"@ {
        "[redacted]"@
    } else if text::starts_with(a[i], "--api-key="@) {
        "--api-key=[redacted]"@
    } else {
        a[i]
    }
}

/// All arguments as recorded, in order.
pub open spec fn recorded_args(a: Seq<Seq<char>>) -> Seq<Seq<char>> {
    Seq::new(a.len(), |i: int| recorded_arg(a, i))
}

fn command_word_from(args: &Vec<String>, start: usize) -> (res: String)
    requires
        start <= args.len(),
    ensures
        res@ == command_word(text::views(args@).skip(start as int)),
    decreases args.len() - start,
{
    let ghost a = text::views(args@).skip(start as int);
    if start == args.len() {
        return String::new();
    }
    let first = args[start].as_str();
    proof {
        assert(a[0] == args@[start as int]@);
    }
    if text::seq_eq(first, "--db") {
        if args.len() - start >= 2 {
            proof {
                assert(a.skip(2) =~= text::views(args@).skip(start + 2));
            }
            return command_word_from(args, start + 2);
        }
        return String::new();
    }
    let v = text::chars_of(first);
    if v.len() > 0 && v[0] == '-' {
        proof {
            assert(a.skip(1) =~= text::views(args@).skip(start + 1));
        }
        return command_word_from(args, start + 1);
    }
    text::copy_str(first)
}

/// The record of one run, given the command line without the program
/// name: its command word, and its arguments joined by spaces with any
/// `--api-key` value replaced by `[redacted]`.
pub fn audit_entry(args: &Vec<String>) -> (res: (String, String))
    ensures
        res.0@ == command_word(text::views(args@)),
        res.1@ == text::join(recorded_args(text::views(args@)), " "@),
{
    let ghost a = text::views(args@);
    let mut kept: Vec<String> = Vec::new();
    let mut i: usize = 0;
    while i < args.len()
        invariant
            i <= args.len(),
            a == text::views(args@),
            text::views(kept@) == recorded_args(a).take(i as int),
        decreases args.len() - i,
    {
        let arg = args[i].as_str();
        let item = if i > 0 && text::seq_eq(args[i - 1].as_str(), "--api-key") {
            text::copy_str("[redacted]")
        } else if text::str_starts_with(arg, "--api-key=") {
            text::copy_str("--api-key=[redacted]")
        } else {
            text::copy_str(arg)
        };
        let ghost before = text::views(kept@);
        kept.push(item);
        proof {
            assert(text::views(kept@) =~= before.push(item@));
            assert(recorded_args(a).take(i + 1) =~= recorded_args(a).take(i as int).push(
                recorded_arg(a, i as int),
            ));
        }
        i = i + 1;
    }
    proof {
        assert(recorded_args(a).take(args.len() as int) =~= recorded_args(a));
        assert(text::views(args@).skip(0) =~= text::views(args@));
    }
    let joined = text::join_strings(kept.as_slice(), " ");
    (command_word_from(args, 0), joined)
}

} // verus!
