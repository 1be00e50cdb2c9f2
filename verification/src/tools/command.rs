//! Running a shell command, once the user allows it.
use vstd::prelude::*;
use crate::json::{Json, owned};
use crate::text::{chars_of, lossy_utf8, string_of_chars, utf8_lossy};
use crate::tools::{required_str_arg, result_view, str_arg, string_arg_schema, string_arg_schema_json};

verus! {

#[derive(Debug, PartialEq)]
pub struct RunCommand;

/// Whether `c` has the Unicode property White_Space, the white space that
/// `str::trim` removes.
pub open spec fn is_white_space(c: char) -> bool {
    let u = c as u32;
    ||| 0x9 <= u <= 0xd
    ||| u == 0x20
    ||| u == 0x85
    ||| u == 0xa0
    ||| u == 0x1680
    ||| 0x2000 <= u <= 0x200a
    ||| u == 0x2028
    ||| u == 0x2029
    ||| u == 0x202f
    ||| u == 0x205f
    ||| u == 0x3000
}

/// `s` without its leading white space.
pub open spec fn trim_start(s: Seq<char>) -> Seq<char>
    decreases s.len(),
{
    if s.len() > 0 && is_white_space(s[0]) {
        trim_start(s.drop_first())
    } else {
        s
    }
}

/// `s` without its trailing white space.
pub open spec fn trim_end(s: Seq<char>) -> Seq<char>
    decreases s.len(),
{
    if s.len() > 0 && is_white_space(s.last()) {
        trim_end(s.drop_last())
    } else {
        s
    }
}

/// `s` without its leading and trailing white space.
pub open spec fn trimmed(s: Seq<char>) -> Seq<char> {
    trim_end(trim_start(s))
}

/// What `str::to_lowercase` makes of a text: its Unicode lowercase form.
pub uninterp spec fn lowercased(s: Seq<char>) -> Seq<char>;

/// Whether `c` is white space (see `is_white_space`).
fn white_space(c: char) -> (r: bool)
    ensures
        r == is_white_space(c),
{
    let u = c as u32;
    (0x9 <= u && u <= 0xd) || u == 0x20 || u == 0x85 || u == 0xa0 || u == 0x1680 || (0x2000 <= u && u
        <= 0x200a) || u == 0x2028 || u == 0x2029 || u == 0x202f || u == 0x205f || u == 0x3000
}

/// The text without its leading and trailing white space, as `str::trim`
/// gives it.
pub fn trim_text(s: &str) -> (r: String)
    ensures
        r@ == trimmed(s@),
{
    let v = chars_of(s);
    let ghost n = v@.len() as int;
    let mut lo: usize = 0;
    proof {
        assert(v@.subrange(0, n) =~= v@);
    }
    while lo < v.len() && white_space(v[lo])
        invariant
            n == v@.len(),
            lo <= n,
            trim_start(v@) == trim_start(v@.subrange(lo as int, n)),
        decreases n - lo,
    {
        proof {
            let t = v@.subrange(lo as int, n);
            assert(t[0] == v@[lo as int]);
            assert(t.drop_first() =~= v@.subrange(lo + 1, n));
        }
        lo = lo + 1;
    }
    let ghost t = v@.subrange(lo as int, n);
    proof {
        if lo < n {
            assert(t[0] == v@[lo as int]);
        }
        assert(trim_start(v@) == t);
        assert(v@.subrange(lo as int, n) =~= t);
    }
    let mut hi: usize = v.len();
    while hi > lo && white_space(v[hi - 1])
        invariant
            n == v@.len(),
            lo <= hi <= n,
            t == v@.subrange(lo as int, n),
            trim_end(t) == trim_end(v@.subrange(lo as int, hi as int)),
        decreases hi - lo,
    {
        proof {
            let u = v@.subrange(lo as int, hi as int);
            assert(u.last() == v@[hi - 1]);
            assert(u.drop_last() =~= v@.subrange(lo as int, hi - 1));
        }
        hi = hi - 1;
    }
    proof {
        let u = v@.subrange(lo as int, hi as int);
        if hi > lo {
            assert(u.last() == v@[hi - 1]);
        }
        assert(trim_end(u) == u);
    }
    string_of_chars(&v, lo, hi)
}

/// `str::to_lowercase`; the result is named `lowercased`.
#[verifier::external_body]
fn lowercase_text(s: &str) -> (r: String)
    ensures
        r@ == lowercased(s@),
{
    s.to_lowercase()
}

impl RunCommand {
    pub fn name(&self) -> (r: &'static str)
        ensures
            r@ == "run_command"@,
    {
        "run_command"
    }

    pub fn description(&self) -> (r: &'static str)
        ensures
            r@
                == "Execute a shell command on the host system. Useful for file system operations, running scripts, or gathering system information."@,
    {
        "Execute a shell command on the host system. Useful for file system operations, running scripts, or gathering system information."
    }

    pub fn input_schema(&self) -> (r: Json)
        ensures
            r.deep() == string_arg_schema(
                "command"@,
                "The command line to execute (e.g., 'ls -la', 'cat file.txt')."@,
            ),
    {
        string_arg_schema_json("command", "The command line to execute (e.g., 'ls -la', 'cat file.txt').")
    }

    /// The command line to run.
    pub fn command(&self, args: &Json) -> (r: Result<String, String>)
        ensures
            result_view(r) == str_arg(args.deep(), "command"@, "Missing 'command' argument"@),
    {
        required_str_arg(args, "command", "Missing 'command' argument")
    }

    /// The warning shown before the user is asked.
    pub fn caution(&self, command: &str) -> (r: String)
        ensures
            r@ == "\n[CAUTION] The agent wants to execute: '"@ + command@ + "'."@,
    {
        let mut r = owned("\n[CAUTION] The agent wants to execute: '");
        r.append(command);
        r.append("'.");
        r
    }

    /// The question put to the user.
    pub fn prompt(&self) -> (r: &'static str)
        ensures
            r@ == "Allow this command? [y/N]: "@,
    {
        "Allow this command? [y/N]: "
    }

    /// Whether the user's answer allows the command: the answer, trimmed and
    /// in lowercase, is "y".
    pub fn permission_granted(&self, answer: &str) -> (r: bool)
        ensures
            r == (lowercased(trimmed(answer@)) == seq!['y']),
    {
        let a = lowercase_text(trim_text(answer).as_str());
        let y = owned("y");
        proof {
            reveal_strlit("y");
            assert(y@ =~= seq!['y']);
        }
        a == y
    }

    /// The result when the user does not allow the command.
    pub fn denied(&self) -> (r: String)
        ensures
            r@ == "User denied permission to execute command."@,
    {
        owned("User denied permission to execute command.")
    }

    /// The result of a command that ran: its output where it succeeded, and
    /// otherwise its error output followed by its output.
    pub fn report(&self, success: bool, stdout: &[u8], stderr: &[u8]) -> (r: String)
        ensures
            r@ == if success {
                "Output:\n"@ + lossy_utf8(stdout@)
            } else {
                "Command failed with error:\n"@ + lossy_utf8(stderr@) + "\nStdout:\n"@ + lossy_utf8(
                    stdout@,
                )
            },
    {
        let out = utf8_lossy(stdout);
        if success {
            let mut r = owned("Output:\n");
            r.append(out.as_str());
            r
        } else {
            let err = utf8_lossy(stderr);
            let mut r = owned("Command failed with error:\n");
            r.append(err.as_str());
            r.append("\nStdout:\n");
            r.append(out.as_str());
            r
        }
    }
}

} // verus!
