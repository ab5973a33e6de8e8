//! Bash command handling: the security filter that blocks destructive
//! commands, the execution plan for a vetted command, and the formatting
//! of a finished command's output.
//!
//! The host performs the actual process launch; everything decided about
//! a command before and after it runs is here, with exact contracts.

use crate::handlers::HandlerError;
use crate::utils::format::contains_char;
use crate::utils::format::contains_str;
use crate::utils::format::dec_str;
use crate::utils::format::dec_two_places;
use crate::utils::format::is_ws_char;
use crate::utils::format::is_whitespace_char;
use crate::utils::format::round_half_even;
use crate::utils::format::round_to;
use crate::utils::format::spec_contains_char;
use crate::utils::format::spec_contains_seq;
use crate::utils::format::spec_trim;
use crate::utils::format::spec_trim_end;
use crate::utils::format::trim_end_str;
use crate::utils::format::trim_str;
use crate::utils::format::two_places;
use crate::utils::format::u64_to_string;
use vstd::prelude::*;
use vstd::string::StringExecFns;

verus! {

/// A character allowed in a path segment of the vetted removal form:
/// ASCII letters, digits, underscore, hyphen, plus and dot.
pub open spec fn spec_seg_char(c: char) -> bool {
    let u = c as u32;
    (0x30 <= u && u <= 0x39) || (0x41 <= u && u <= 0x5A) || (0x61 <= u && u <= 0x7A) || c == '_'
        || c == '-' || c == '+' || c == '.'
}

/// Runtime check for a path-segment character.
fn is_seg_char(c: char) -> (r: bool)
    ensures
        r == spec_seg_char(c),
{
    let u = c as u32;
    (0x30 <= u && u <= 0x39) || (0x41 <= u && u <= 0x5A) || (0x61 <= u && u <= 0x7A) || c == '_'
        || c == '-' || c == '+' || c == '.'
}

/// The end of the run of characters satisfying the class starting at
/// `i`: whitespace when `ws` is set, path-segment characters otherwise.
pub open spec fn spec_run_end(s: Seq<char>, ws: bool, i: int) -> int
    decreases s.len() - i,
{
    if 0 <= i < s.len() && (if ws {
        is_ws_char(s[i])
    } else {
        spec_seg_char(s[i])
    }) {
        spec_run_end(s, ws, i + 1)
    } else {
        i
    }
}

/// A run bounded on the right by the end or a character outside the
/// class is exactly what the run-end function denotes.
proof fn lemma_run_end_at(s: Seq<char>, ws: bool, i: int, j: int)
    requires
        0 <= i <= j <= s.len(),
        forall|k: int|
            i <= k < j ==> (if ws {
                is_ws_char(#[trigger] s[k])
            } else {
                spec_seg_char(#[trigger] s[k])
            }),
        j < s.len() ==> !(if ws {
            is_ws_char(s[j])
        } else {
            spec_seg_char(s[j])
        }),
    ensures
        spec_run_end(s, ws, i) == j,
    decreases j - i,
{
    if i < j {
        assert(if ws {
            is_ws_char(s[i])
        } else {
            spec_seg_char(s[i])
        });
        lemma_run_end_at(s, ws, i + 1, j);
    }
}

/// The run end never moves left and never passes the end.
proof fn lemma_run_end_bounds(s: Seq<char>, ws: bool, i: int)
    requires
        0 <= i <= s.len(),
    ensures
        i <= spec_run_end(s, ws, i) <= s.len(),
    decreases s.len() - i,
{
    if 0 <= i < s.len() && (if ws {
        is_ws_char(s[i])
    } else {
        spec_seg_char(s[i])
    }) {
        lemma_run_end_bounds(s, ws, i + 1);
    }
}

/// Whether the character at `j` belongs to the scanned class.
fn class_at(s: &str, ws: bool, j: usize) -> (r: bool)
    requires
        j < s@.len(),
    ensures
        r == (if ws {
            is_ws_char(s@[j as int])
        } else {
            spec_seg_char(s@[j as int])
        }),
{
    let c = s.get_char(j);
    if ws {
        is_whitespace_char(c)
    } else {
        is_seg_char(c)
    }
}

/// Scan to the end of the run of whitespace or path-segment characters.
fn run_end(s: &str, ws: bool, i: usize) -> (r: usize)
    requires
        i <= s@.len(),
        s@.len() <= usize::MAX,
    ensures
        r == spec_run_end(s@, ws, i as int),
        i <= r <= s@.len(),
{
    let n = s.unicode_len();
    let mut j = i;
    while j < n && class_at(s, ws, j)
        invariant
            n == s@.len(),
            i <= j <= n,
            forall|k: int|
                i <= k < j ==> (if ws {
                    is_ws_char(#[trigger] s@[k])
                } else {
                    spec_seg_char(#[trigger] s@[k])
                }),
        decreases n - j,
    {
        j += 1;
    }
    proof {
        lemma_run_end_at(s@, ws, i as int, j as int);
    }
    j
}

/// Whether, from position `i`, the text is one or more path segments
/// separated by single slashes, followed by optional whitespace and the
/// end of the string.
pub open spec fn spec_path_matches(s: Seq<char>, i: int) -> bool
    decreases s.len() - i, 1int,
{
    if !(0 <= i <= s.len()) {
        false
    } else {
        let e = spec_run_end(s, false, i);
        if e == i {
            false
        } else {
            spec_path_rest(s, e)
        }
    }
}

/// Whether, from position `i` (just after a path segment), the text
/// continues with more `/`-separated segments and then optional
/// whitespace to the end of the string.
pub open spec fn spec_path_rest(s: Seq<char>, i: int) -> bool
    decreases s.len() - i, 0int,
    via spec_path_rest_decreases
{
    if !(0 <= i <= s.len()) {
        false
    } else if i < s.len() && s[i] == '/' && spec_run_end(s, false, i + 1) > i + 1 {
        spec_path_rest(s, spec_run_end(s, false, i + 1))
    } else {
        spec_run_end(s, true, i) == s.len()
    }
}

#[via_fn]
proof fn spec_path_rest_decreases(s: Seq<char>, i: int) {
    if 0 <= i <= s.len() && i < s.len() && s[i] == '/' && spec_run_end(s, false, i + 1) > i + 1 {
        lemma_run_end_bounds(s, false, i + 1);
    }
}

/// Runtime check of [`spec_path_matches`].
fn path_matches(s: &str, i: usize) -> (r: bool)
    requires
        i <= s@.len(),
        s@.len() <= usize::MAX,
    ensures
        r == spec_path_matches(s@, i as int),
    decreases s@.len() - i, 1int,
{
    let e = run_end(s, false, i);
    if e == i {
        false
    } else {
        path_rest(s, e)
    }
}

/// Runtime check of [`spec_path_rest`].
fn path_rest(s: &str, i: usize) -> (r: bool)
    requires
        i <= s@.len(),
        s@.len() <= usize::MAX,
    ensures
        r == spec_path_rest(s@, i as int),
    decreases s@.len() - i, 0int,
{
    let n = s.unicode_len();
    if i < n && s.get_char(i) == '/' {
        let e = run_end(s, false, i + 1);
        if e > i + 1 {
            return path_rest(s, e);
        }
    }
    let w = run_end(s, true, i);
    w == n
}

/// Whether position `i` starts a vetted removal command: `rm`, spaces,
/// `-rf`, spaces, an optional `./`, and a relative path of plain
/// segments running to the end of the string. This is the only form of
/// `rm -rf` that the security filter lets through: it can touch only
/// paths under the current directory.
pub open spec fn spec_safe_rm_at(s: Seq<char>, i: int) -> bool {
    &&& 0 <= i && i + 2 <= s.len()
    &&& s[i] == 'r' && s[i + 1] == 'm'
    &&& {
        let w1 = spec_run_end(s, true, i + 2);
        &&& w1 > i + 2
        &&& w1 + 3 <= s.len()
        &&& s[w1] == '-' && s[w1 + 1] == 'r' && s[w1 + 2] == 'f'
        &&& {
            let w2 = spec_run_end(s, true, w1 + 3);
            &&& w2 > w1 + 3
            &&& ((w2 + 2 <= s.len() && s[w2] == '.' && s[w2 + 1] == '/' && spec_path_matches(
                s,
                w2 + 2,
            )) || spec_path_matches(s, w2))
        }
    }
}

/// Runtime check of [`spec_safe_rm_at`].
fn safe_rm_at(s: &str, i: usize) -> (r: bool)
    requires
        i <= s@.len(),
        s@.len() <= usize::MAX,
    ensures
        r == spec_safe_rm_at(s@, i as int),
{
    let n = s.unicode_len();
    if n - i < 2 {
        return false;
    }
    if !(s.get_char(i) == 'r' && s.get_char(i + 1) == 'm') {
        return false;
    }
    let w1 = run_end(s, true, i + 2);
    if !(w1 > i + 2 && n - w1 >= 3) {
        return false;
    }
    if !(s.get_char(w1) == '-' && s.get_char(w1 + 1) == 'r' && s.get_char(w1 + 2) == 'f') {
        return false;
    }
    let w2 = run_end(s, true, w1 + 3);
    if !(w2 > w1 + 3) {
        return false;
    }
    if n - w2 >= 2 && s.get_char(w2) == '.' && s.get_char(w2 + 1) == '/' && path_matches(
        s,
        w2 + 2,
    ) {
        return true;
    }
    path_matches(s, w2)
}

/// Whether some position of the command starts a vetted removal form.
pub open spec fn spec_safe_rm_somewhere(s: Seq<char>) -> bool {
    exists|i: int| 0 <= i <= s.len() && #[trigger] spec_safe_rm_at(s, i)
}

/// Scan the whole command for a vetted removal form.
fn safe_rm_somewhere(s: &str) -> (r: bool)
    requires
        s@.len() < usize::MAX,
    ensures
        r == spec_safe_rm_somewhere(s@),
{
    let n = s.unicode_len();
    let mut i: usize = 0;
    while i <= n
        invariant
            n == s@.len(),
            n < usize::MAX,
            i <= n + 1,
            forall|k: int| 0 <= k < i ==> !#[trigger] spec_safe_rm_at(s@, k),
        decreases n + 1 - i,
    {
        if safe_rm_at(s, i) {
            return true;
        }
        i += 1;
    }
    false
}

/// Whether the command passes the security filter: none of the
/// categorically blocked fragments occurs in it, and a command
/// containing `rm -rf` is allowed only in the vetted
/// current-directory-relative form.
pub open spec fn spec_command_safe(s: Seq<char>) -> bool {
    if spec_contains_seq(s, "rm -rf /"@) || spec_contains_seq(s, "rm -rf /*"@)
        || spec_contains_seq(s, "rm -rf ~"@) || spec_contains_seq(s, "rm -rf ~/"@)
        || spec_contains_seq(s, "mkfs"@) || spec_contains_seq(s, "> /dev/sda"@)
        || spec_contains_seq(s, "dd if=/dev/zero of=/dev/sda"@) || spec_contains_seq(
        s,
        ":(){ :|:& };:"@,
    ) || spec_contains_seq(s, "chmod -R 777 /"@) || spec_contains_seq(s, "> /dev/null; rm"@)
        || spec_contains_seq(s, "$(rm"@) || spec_contains_seq(s, "`rm"@) {
        false
    } else if spec_contains_seq(s, "rm -rf"@) {
        spec_safe_rm_somewhere(s)
    } else if spec_contains_seq(s, "mkfs"@) || spec_contains_seq(s, "dd if=/dev/zero"@)
        || spec_contains_seq(s, "chmod -R 777"@) || spec_contains_seq(s, ":(){ "@)
        || spec_contains_seq(s, "fork bomb"@) || spec_contains_seq(s, "wget"@)
        || spec_contains_seq(s, "curl"@) {
        false
    } else {
        true
    }
}

/// Checks if a command is safe to execute.
pub fn is_command_safe(command: &str) -> (r: bool)
    requires
        command@.len() < usize::MAX,
    ensures
        r == spec_command_safe(command@),
{
    if contains_str(command, "rm -rf /") || contains_str(command, "rm -rf /*") || contains_str(
        command,
        "rm -rf ~",
    ) || contains_str(command, "rm -rf ~/") || contains_str(command, "mkfs") || contains_str(
        command,
        "> /dev/sda",
    ) || contains_str(command, "dd if=/dev/zero of=/dev/sda") || contains_str(
        command,
        ":(){ :|:& };:",
    ) || contains_str(command, "chmod -R 777 /") || contains_str(command, "> /dev/null; rm")
        || contains_str(command, "$(rm") || contains_str(command, "`rm") {
        return false;
    }
    if contains_str(command, "rm -rf") {
        return safe_rm_somewhere(command);
    }
    if contains_str(command, "mkfs") || contains_str(command, "dd if=/dev/zero") || contains_str(
        command,
        "chmod -R 777",
    ) || contains_str(command, ":(){ ") || contains_str(command, "fork bomb") || contains_str(
        command,
        "wget",
    ) || contains_str(command, "curl") {
        return false;
    }
    true
}

/// What the result of POSIX-style shell word splitting is for a given
/// command line, or nothing when the line has an unmatched quote.
pub uninterp spec fn shell_split_of(s: Seq<char>) -> Option<Seq<Seq<char>>>;

/// Relies on `shell_words::split`: POSIX-style word splitting with
/// quote removal, a deterministic function of the command line that
/// fails exactly on an unmatched quote.
#[verifier::external_body]
pub(crate) fn split_shell_words(s: &str) -> (r: Option<Vec<String>>)
    ensures
        match r {
            Some(v) => shell_split_of(s@) == Some(v.deep_view()),
            None => shell_split_of(s@) is None,
        },
{
    match shell_words::split(s) {
        Ok(v) => Some(v),
        Err(_) => None,
    }
}

/// The execution plan for one vetted bash command.
#[derive(Debug)]
pub enum BashPlan {
    /// Run the whole line through a shell, because it uses glob or
    /// character-class patterns the shell must expand.
    Shell(String),
    /// Run the program and arguments directly, as split by shell word
    /// rules.
    Direct(Vec<String>),
}

/// Decide how a typed bash command is to be executed, or why it is
/// refused: a blank command and an unparsable one are errors, a command
/// that fails the security filter is refused, a command with shell
/// patterns runs through the shell, and any other command runs directly
/// with its split words.
pub fn plan_bash_command(command: &str) -> (r: Result<BashPlan, HandlerError>)
    requires
        command@.len() < usize::MAX,
    ensures
        ({
            let t = spec_trim(command@);
            &&& t.len() == 0 ==> (r matches Err(HandlerError::Bash(m)) && m@ == "Empty command"@)
            &&& t.len() > 0 && !spec_command_safe(t) ==> (r matches Err(HandlerError::Bash(m))
                && m@ == "This command is restricted for security reasons."@)
            &&& t.len() > 0 && spec_command_safe(t) && (spec_contains_char(t, '*')
                || spec_contains_char(t, '?') || spec_contains_char(t, '[')) ==> (r matches Ok(
                BashPlan::Shell(c),
            ) && c@ == t)
            &&& t.len() > 0 && spec_command_safe(t) && !(spec_contains_char(t, '*')
                || spec_contains_char(t, '?') || spec_contains_char(t, '[')) ==> match shell_split_of(
                t,
            ) {
                Some(parts) => if parts.len() == 0 {
                    r matches Err(HandlerError::Parse(m)) && m@ == "Invalid command format"@
                } else {
                    r matches Ok(BashPlan::Direct(v)) && v.deep_view() == parts
                },
                None => r matches Err(HandlerError::Parse(m)) && m@
                    == "Failed to parse command: missing closing quote"@,
            }
        }),
{
    let trimmed = trim_str(command);
    if trimmed.unicode_len() == 0 {
        return Err(HandlerError::Bash(String::from_str("Empty command")));
    }
    if !is_command_safe(trimmed) {
        return Err(
            HandlerError::Bash(
                String::from_str("This command is restricted for security reasons."),
            ),
        );
    }
    if contains_char(trimmed, '*') || contains_char(trimmed, '?') || contains_char(trimmed, '[') {
        return Ok(BashPlan::Shell(trimmed.to_owned()));
    }
    match split_shell_words(trimmed) {
        Some(parts) => {
            if parts.len() == 0 {
                Err(HandlerError::Parse(String::from_str("Invalid command format")))
            } else {
                Ok(BashPlan::Direct(parts))
            }
        },
        None => Err(
            HandlerError::Parse(
                String::from_str("Failed to parse command: missing closing quote"),
            ),
        ),
    }
}

/// The formatted report of a finished command: a compact header with the
/// elapsed seconds (two decimals), a check or cross, and the exit code;
/// then the trimmed standard output, the trimmed standard error under a
/// marker, or a no-output note when both are empty.
pub open spec fn spec_command_output(
    code: int,
    out: Seq<char>,
    err: Seq<char>,
    elapsed_ms: int,
) -> Seq<char> {
    let head = "[⏱️ "@ + dec_two_places(round_half_even(elapsed_ms, 10)) + "s | "@ + (if code == 0 {
        "✓"@
    } else {
        "✗"@
    }) + " | 📊 "@ + (if code < 0 {
        seq!['-'] + dec_str(-code)
    } else {
        dec_str(code)
    }) + "]\n"@;
    let so = out.take(spec_trim_end(out));
    let se = err.take(spec_trim_end(err));
    let out_part = if out.len() > 0 {
        so + "\n"@
    } else {
        Seq::<char>::empty()
    };
    let err_part = if err.len() > 0 {
        (if out.len() > 0 {
            "\n⚠️ STDERR:\n"@
        } else {
            "⚠️ STDERR:\n"@
        }) + se + "\n"@
    } else {
        Seq::<char>::empty()
    };
    let none_part = if out.len() == 0 && err.len() == 0 {
        "(no output)\n"@
    } else {
        Seq::<char>::empty()
    };
    head + out_part + err_part + none_part
}

/// Format command output with timing, exit status and the two streams.
pub fn format_command_output(
    return_code: i32,
    stdout: &str,
    stderr: &str,
    elapsed_ms: u64,
) -> (r: String)
    ensures
        r@ == spec_command_output(return_code as int, stdout@, stderr@, elapsed_ms as int),
{
    let mut r = String::from_str("[⏱️ ");
    proof {
        vstd::arithmetic::div_mod::lemma_div_is_ordered(elapsed_ms as int, u64::MAX as int, 10);
    }
    let secs = two_places(round_to(elapsed_ms, 10));
    r.append(secs.as_str());
    r.append("s | ");
    if return_code == 0 {
        r.append("✓");
    } else {
        r.append("✗");
    }
    r.append(" | 📊 ");
    if return_code < 0 {
        proof {
            reveal_strlit("-");
            assert("-"@ =~= seq!['-']);
        }
        r.append("-");
        let mag = u64_to_string((-(return_code as i64)) as u64);
        r.append(mag.as_str());
    } else {
        let mag = u64_to_string(return_code as u64);
        r.append(mag.as_str());
    }
    r.append("]\n");
    let ghost hdr = r@;
    if !stdout.is_empty() {
        r.append(trim_end_str(stdout));
        r.append("\n");
    }
    let ghost with_out = r@;
    if !stderr.is_empty() {
        if !stdout.is_empty() {
            r.append("\n⚠️ STDERR:\n");
        } else {
            r.append("⚠️ STDERR:\n");
        }
        r.append(trim_end_str(stderr));
        r.append("\n");
    }
    let ghost with_err = r@;
    if stdout.is_empty() && stderr.is_empty() {
        r.append("(no output)\n");
    }
    proof {
        assert(hdr =~= "[⏱️ "@ + dec_two_places(round_half_even(elapsed_ms as int, 10)) + "s | "@
            + (if return_code as int == 0 {
            "✓"@
        } else {
            "✗"@
        }) + " | 📊 "@ + (if return_code < 0 {
            seq!['-'] + dec_str(-(return_code as int))
        } else {
            dec_str(return_code as int)
        }) + "]\n"@);
        assert(with_out =~= hdr + (if stdout@.len() > 0 {
            stdout@.take(spec_trim_end(stdout@)) + "\n"@
        } else {
            Seq::<char>::empty()
        }));
        assert(with_err =~= with_out + (if stderr@.len() > 0 {
            (if stdout@.len() > 0 {
                "\n⚠️ STDERR:\n"@
            } else {
                "⚠️ STDERR:\n"@
            }) + stderr@.take(spec_trim_end(stderr@)) + "\n"@
        } else {
            Seq::<char>::empty()
        }));
        assert(r@ =~= with_err + (if stdout@.len() == 0 && stderr@.len() == 0 {
            "(no output)\n"@
        } else {
            Seq::<char>::empty()
        }));
        assert(r@ =~= spec_command_output(return_code as int, stdout@, stderr@, elapsed_ms as int));
    }
    r
}

} // verus!
