//! The command line: process identifiers and the grace period.

use crate::text::{
    chars_of, decimal_digits, find_char, has_char, has_prefix, parse_decimal, parse_decimal_spec,
    position_from, push_decimal, same_chars, trim, trimmed,
};
use vstd::prelude::*;
use vstd::slice::slice_subrange;
use vstd::string::*;

verus! {

/// The message that names `text` as the cause of an error: `opening`, the
/// text, and a closing quote.
pub open spec fn quoted(opening: Seq<char>, text: Seq<char>) -> Seq<char> {
    opening + text + "'"@
}

/// What parsing yields: the value, or the message that says why there is none.
pub type Parsed<T> = Result<T, Seq<char>>;

/// The identifiers `found`, followed by those that the rest yields.
pub open spec fn after(found: Seq<u32>, rest: Parsed<Seq<u32>>) -> Parsed<Seq<u32>> {
    match rest {
        Ok(more) => Ok(found + more),
        Err(message) => Err(message),
    }
}

/// The identifiers in the comma-separated list that starts at `from` in `s`.
/// Each piece may have white space around it. The first piece that is no
/// identifier makes the whole list an error, which quotes that piece.
pub open spec fn parse_pid_pieces(s: Seq<char>, from: int) -> Parsed<Seq<u32>>
    decreases s.len() - from,
{
    let end = position_from(s, ',', from);
    let piece = s.subrange(from, end);
    match parse_decimal_spec(trimmed(piece), u32::MAX as nat) {
        None => Err(quoted("Invalid PID: '"@, piece)),
        Some(pid) => if from <= end < s.len() {
            after(seq![pid as u32], parse_pid_pieces(s, end + 1))
        } else {
            Ok(seq![pid as u32])
        },
    }
}

/// The identifiers that one argument names: a single number, or, where the
/// argument holds a comma, a comma-separated list of them.
pub open spec fn parse_pid_list(arg: Seq<char>) -> Parsed<Seq<u32>> {
    if arg.contains(',') {
        parse_pid_pieces(arg, 0)
    } else {
        match parse_decimal_spec(arg, u32::MAX as nat) {
            Some(pid) => Ok(seq![pid as u32]),
            None => Err(quoted("Invalid PID: '"@, arg)),
        }
    }
}

/// The grace period that `value` writes, in seconds.
pub open spec fn parse_grace(value: Seq<char>) -> Parsed<u64> {
    match parse_decimal_spec(value, u64::MAX as nat) {
        Some(seconds) => Ok(seconds as u64),
        None => Err(quoted("Invalid grace-seconds value: '"@, value)),
    }
}

/// What the arguments from position `i` on add to the identifiers `pids` and
/// the grace period `grace` that the arguments before them gave.
///
/// `-g` and `--grace-seconds` take the next argument as the grace period in
/// seconds, `--grace-seconds=` takes what follows the `=`; a later one
/// replaces an earlier one. Any other argument that starts with `-` is an
/// unknown option. Everything else names process identifiers.
pub open spec fn parse_args_from(args: Seq<Seq<char>>, i: int, pids: Seq<u32>, grace: u64) -> Parsed<
    (Seq<u32>, u64),
>
    decreases args.len() - i,
{
    if i < 0 || i >= args.len() {
        Ok((pids, grace))
    } else if args[i] == "-g"@ || args[i] == "--grace-seconds"@ {
        if i + 1 >= args.len() {
            Err("Missing value for grace-seconds"@)
        } else {
            match parse_grace(args[i + 1]) {
                Ok(seconds) => parse_args_from(args, i + 2, pids, seconds),
                Err(message) => Err(message),
            }
        }
    } else if "--grace-seconds="@.is_prefix_of(args[i]) {
        match parse_grace(args[i].skip("--grace-seconds="@.len() as int)) {
            Ok(seconds) => parse_args_from(args, i + 1, pids, seconds),
            Err(message) => Err(message),
        }
    } else if "-"@.is_prefix_of(args[i]) {
        Err(quoted("Unknown option: '"@, args[i]))
    } else {
        match parse_pid_list(args[i]) {
            Ok(more) => parse_args_from(args, i + 1, pids + more, grace),
            Err(message) => Err(message),
        }
    }
}

/// The identifiers and the grace period in seconds that the arguments give,
/// where `default_grace` is the grace period when no argument sets one.
pub open spec fn parse_args_spec(args: Seq<Seq<char>>, default_grace: u64) -> Parsed<
    (Seq<u32>, u64),
> {
    parse_args_from(args, 0, Seq::empty(), default_grace)
}

/// The text of each argument.
pub open spec fn texts(args: Seq<String>) -> Seq<Seq<char>> {
    args.map_values(|arg: String| arg@)
}

/// Builds the message that quotes `text` after `opening`.
fn quote(opening: &str, text: &str) -> (message: String)
    ensures
        message@ == quoted(opening@, text@),
{
    let mut message: String = opening.to_owned();
    message.append(text);
    message.append("'");
    message
}

/// Reads a grace period in seconds.
fn grace_from(value: &str) -> (r: Result<u64, String>)
    ensures
        r matches Ok(seconds) ==> parse_grace(value@) == Ok::<u64, Seq<char>>(seconds),
        r matches Err(message) ==> parse_grace(value@) == Err::<u64, Seq<char>>(message@),
{
    let chars: Vec<char> = chars_of(value);
    match parse_decimal(chars.as_slice(), u64::MAX) {
        Some(seconds) => Ok(seconds),
        None => Err(quote("Invalid grace-seconds value: '", value)),
    }
}

/// Reads the process identifiers that one argument names.
fn pids_from(arg: &str) -> (r: Result<Vec<u32>, String>)
    ensures
        r matches Ok(pids) ==> parse_pid_list(arg@) == Ok::<Seq<u32>, Seq<char>>(pids@),
        r matches Err(message) ==> parse_pid_list(arg@) == Err::<Seq<u32>, Seq<char>>(message@),
{
    let chars: Vec<char> = chars_of(arg);
    let s: &[char] = chars.as_slice();
    let mut pids: Vec<u32> = Vec::new();
    if !has_char(s, ',') {
        return match parse_decimal(s, u32::MAX as u64) {
            Some(pid) => {
                pids.push(pid as u32);
                assert(pids@ =~= seq![pid as u32]);
                Ok(pids)
            },
            None => Err(quote("Invalid PID: '", arg)),
        };
    }
    let n: usize = s.len();
    let mut from: usize = 0;
    proof {
        let whole = parse_pid_pieces(s@, 0);
        if whole is Ok {
            assert(pids@ + whole->Ok_0 =~= whole->Ok_0);
        }
    }
    loop
        invariant
            from <= n,
            n == s@.len(),
            s@ == arg@,
            parse_pid_list(arg@) == after(pids@, parse_pid_pieces(s@, from as int)),
        decreases n - from,
    {
        let end: usize = find_char(s, ',', from);
        let ghost before = pids@;
        let ghost piece = s@.subrange(from as int, end as int);
        match parse_decimal(trim(slice_subrange(s, from, end)), u32::MAX as u64) {
            None => {
                return Err(quote("Invalid PID: '", arg.substring_char(from, end)));
            },
            Some(pid) => {
                pids.push(pid as u32);
                if end >= n {
                    assert(before + seq![pid as u32] =~= pids@);
                    return Ok(pids);
                }
                proof {
                    let rest = parse_pid_pieces(s@, end as int + 1);
                    if rest is Ok {
                        assert(before + (seq![pid as u32] + rest->Ok_0) =~= pids@ + rest->Ok_0);
                    }
                }
                from = end + 1;
            },
        }
    }
}

/// Reads the command line, without the program's name: the process
/// identifiers to terminate, in the order given, and the grace period in
/// seconds. `default_grace` is the grace period where no argument sets one.
/// Duplicates are kept, and an empty list of identifiers is no error here.
pub fn parse_args(args: &[String], default_grace: u64) -> (r: Result<(Vec<u32>, u64), String>)
    ensures
        r matches Ok(found) ==> parse_args_spec(texts(args@), default_grace) == Ok::<
            (Seq<u32>, u64),
            Seq<char>,
        >((found.0@, found.1)),
        r matches Err(message) ==> parse_args_spec(texts(args@), default_grace) == Err::<
            (Seq<u32>, u64),
            Seq<char>,
        >(message@),
{
    let short: Vec<char> = chars_of("-g");
    let long: Vec<char> = chars_of("--grace-seconds");
    let assigned: Vec<char> = chars_of("--grace-seconds=");
    let dash: Vec<char> = chars_of("-");
    let mut pids: Vec<u32> = Vec::new();
    let mut grace: u64 = default_grace;
    let mut i: usize = 0;
    let ghost all = texts(args@);
    while i < args.len()
        invariant
            i <= args@.len(),
            all == texts(args@),
            short@ == "-g"@,
            long@ == "--grace-seconds"@,
            assigned@ == "--grace-seconds="@,
            dash@ == "-"@,
            parse_args_spec(all, default_grace) == parse_args_from(all, i as int, pids@, grace),
        decreases args@.len() - i,
    {
        let arg: &str = args[i].as_str();
        let chars: Vec<char> = chars_of(arg);
        assert(all[i as int] == arg@);
        if same_chars(chars.as_slice(), short.as_slice()) || same_chars(
            chars.as_slice(),
            long.as_slice(),
        ) {
            i += 1;
            if i >= args.len() {
                return Err("Missing value for grace-seconds".to_owned());
            }
            assert(all[i as int] == args@[i as int]@);
            match grace_from(args[i].as_str()) {
                Ok(seconds) => {
                    grace = seconds;
                },
                Err(message) => {
                    return Err(message);
                },
            }
        } else if has_prefix(chars.as_slice(), assigned.as_slice()) {
            assert(arg@.subrange(assigned@.len() as int, arg@.len() as int) =~= arg@.skip(
                assigned@.len() as int,
            ));
            match grace_from(arg.substring_char(assigned.len(), chars.len())) {
                Ok(seconds) => {
                    grace = seconds;
                },
                Err(message) => {
                    return Err(message);
                },
            }
        } else if has_prefix(chars.as_slice(), dash.as_slice()) {
            return Err(quote("Unknown option: '", arg));
        } else {
            match pids_from(arg) {
                Ok(mut more) => {
                    pids.append(&mut more);
                },
                Err(message) => {
                    return Err(message);
                },
            }
        }
        i += 1;
    }
    Ok((pids, grace))
}

/// The text that explains the command line, for a program called `program`
/// whose grace period is `default_grace` seconds unless an option sets it.
pub open spec fn usage_spec(program: Seq<char>, default_grace: u64) -> Seq<char> {
    "Usage: "@ + program + " [options] <pid>[,pid...]\n"@ + "\n"@ + "Arguments:\n"@
        + "  pid                    Process ID(s) to kill (comma or space separated)\n"@ + "\n"@
        + "Options:\n"@ + "  -g, --grace-seconds    Grace period in seconds (default: "@
        + decimal_digits(default_grace as nat) + ")\n"@ + "\n"@ + "Examples:\n"@ + "  "@ + program
        + " 1234 5678\n"@ + "  "@ + program + " -g 10 1234 5678\n"@ + "  "@ + program
        + " --grace-seconds 30 1234,5678,9012\n"@
}

/// The text that explains the command line.
pub fn usage(program: &str, default_grace: u64) -> (text: String)
    ensures
        text@ == usage_spec(program@, default_grace),
{
    let mut text: String = "Usage: ".to_owned();
    text.append(program);
    text.append(" [options] <pid>[,pid...]\n");
    text.append("\n");
    text.append("Arguments:\n");
    text.append("  pid                    Process ID(s) to kill (comma or space separated)\n");
    text.append("\n");
    text.append("Options:\n");
    text.append("  -g, --grace-seconds    Grace period in seconds (default: ");
    push_decimal(&mut text, default_grace);
    text.append(")\n");
    text.append("\n");
    text.append("Examples:\n");
    text.append("  ");
    text.append(program);
    text.append(" 1234 5678\n");
    text.append("  ");
    text.append(program);
    text.append(" -g 10 1234 5678\n");
    text.append("  ");
    text.append(program);
    text.append(" --grace-seconds 30 1234,5678,9012\n");
    text
}

} // verus!
