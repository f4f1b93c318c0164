//! External commands the helper runs, as plain values, and the messages it
//! reports when one fails.
use vstd::prelude::*;

use crate::text::{append, append_str, chars_of, joined, string_of, string_views, trim, trimmed, views, join};

verus! {

/// A command to run: the program, its arguments, and the text to feed on
/// standard input, if any.
pub struct Invocation {
    pub program: String,
    pub args: Vec<String>,
    pub input: Option<String>,
}

/// The program, arguments and input of an invocation, as texts.
pub open spec fn invocation_is(
    inv: Invocation,
    program: Seq<char>,
    args: Seq<Seq<char>>,
    input: Option<Seq<char>>,
) -> bool {
    &&& inv.program@ == program
    &&& string_views(inv.args@) == args
    &&& crate::text::opt_view(inv.input) == input
}

/// The message for a command that ran and failed: the command line, then
/// its trimmed standard error.
pub fn run_failure(program: &str, args: &Vec<String>, stderr: &str) -> (s: String)
    ensures
        s@ == program@ + " "@ + join(string_views(args@), " "@) + ": "@ + trim(stderr@),
{
    let mut parts: Vec<Vec<char>> = Vec::new();
    let n = args.len();
    let mut i: usize = 0;
    while i < n
        invariant
            n == args.len(),
            i <= n,
            views(parts@) == string_views(args@).take(i as int),
        decreases n - i,
    {
        let ghost before = views(parts@);
        parts.push(chars_of(args[i].as_str()));
        assert(views(parts@) =~= before.push(args@[i as int]@));
        assert(string_views(args@).take(i + 1) =~= string_views(args@).take(i as int).push(
            args@[i as int]@,
        ));
        i += 1;
    }
    assert(string_views(args@).take(n as int) =~= string_views(args@));
    let mut out = chars_of(program);
    append_str(&mut out, " ");
    append(&mut out, &joined(&parts, " "));
    append_str(&mut out, ": ");
    append(&mut out, &trimmed(&chars_of(stderr)));
    string_of(&out)
}

/// The message for a command that could not be started or waited for.
pub fn spawn_failure(program: &str, detail: &str) -> (s: String)
    ensures
        s@ == program@ + ": "@ + detail@,
{
    let mut out = chars_of(program);
    append_str(&mut out, ": ");
    append_str(&mut out, detail);
    string_of(&out)
}

} // verus!
