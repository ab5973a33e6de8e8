//! Bash handling of the standalone front end: the simpler security
//! filter of this mode, the split of a vetted command into words for the
//! host to run, and the formatting of the finished command's report.

use crate::utils::format::contains_str;
use crate::utils::format::dec_str;
use crate::utils::format::dec_two_places;
use crate::utils::format::round_half_even;
use crate::utils::format::round_to;
use crate::utils::format::spec_contains_seq;
use crate::utils::format::spec_trim;
use crate::utils::format::spec_trim_end;
use crate::utils::format::trim_end_str;
use crate::utils::format::trim_str;
use crate::utils::format::two_places;
use crate::utils::format::u64_to_string;
use vstd::prelude::*;
use vstd::string::StringExecFns;

verus! {

/// Whether the command trips this mode's block list: a categorically
/// restricted fragment, or one of the dangerous patterns.
pub open spec fn spec_mode_blocked(s: Seq<char>) -> Option<Seq<char>> {
    if spec_contains_seq(s, "rm -rf /"@) || spec_contains_seq(s, "rm -rf /*"@)
        || spec_contains_seq(s, "rm -rf ~"@) || spec_contains_seq(s, "rm -rf ~/"@)
        || spec_contains_seq(s, "mkfs"@) || spec_contains_seq(s, "> /dev/sda"@)
        || spec_contains_seq(s, "dd if=/dev/zero of=/dev/sda"@) || spec_contains_seq(
        s,
        ":(){ :|:& };:"@,
    ) || spec_contains_seq(s, "chmod -R 777 /"@) {
        Some("⚠️ This command is restricted for security reasons."@)
    } else if spec_contains_seq(s, "rm -rf"@) || spec_contains_seq(s, "dd if=/dev/zero"@)
        || spec_contains_seq(s, "chmod -R 777"@) || spec_contains_seq(s, ":(){ "@)
        || spec_contains_seq(s, "fork bomb"@) {
        Some(
            "⚠️ This command contains potentially dangerous operations.\nFor safety reasons, it has been blocked."@,
        )
    } else {
        None
    }
}

/// Decide how this mode runs a typed bash command: a blank command, a
/// blocked one and one that splits into no words at all come back as
/// the warning text to show; anything else comes back as the words to
/// execute (the whole line as one word when word splitting fails on an
/// unmatched quote).
pub fn plan_bash_command(command: &str) -> (r: Result<Vec<String>, String>)
    requires
        command@.len() < usize::MAX,
    ensures
        ({
            let t = spec_trim(command@);
            &&& t.len() == 0 ==> (r matches Err(m) && m@ == "⚠️ Empty command"@)
            &&& t.len() > 0 && spec_mode_blocked(t) is Some ==> (r matches Err(m) && Some(m@)
                == spec_mode_blocked(t))
            &&& t.len() > 0 && spec_mode_blocked(t) is None ==> match crate::handlers::bash::shell_split_of(
                t,
            ) {
                Some(words) => if words.len() == 0 {
                    r matches Err(m) && m@ == "⚠️ Invalid command format"@
                } else {
                    r matches Ok(parts) && parts.deep_view() == words
                },
                None => r matches Ok(parts) && parts.deep_view() == seq![t],
            }
        }),
{
    let trimmed = trim_str(command);
    if trimmed.unicode_len() == 0 {
        return Err(String::from_str("⚠️ Empty command"));
    }
    if contains_str(trimmed, "rm -rf /") || contains_str(trimmed, "rm -rf /*") || contains_str(
        trimmed,
        "rm -rf ~",
    ) || contains_str(trimmed, "rm -rf ~/") || contains_str(trimmed, "mkfs") || contains_str(
        trimmed,
        "> /dev/sda",
    ) || contains_str(trimmed, "dd if=/dev/zero of=/dev/sda") || contains_str(
        trimmed,
        ":(){ :|:& };:",
    ) || contains_str(trimmed, "chmod -R 777 /") {
        return Err(String::from_str("⚠️ This command is restricted for security reasons."));
    }
    if contains_str(trimmed, "rm -rf") || contains_str(trimmed, "dd if=/dev/zero")
        || contains_str(trimmed, "chmod -R 777") || contains_str(trimmed, ":(){ ")
        || contains_str(trimmed, "fork bomb") {
        return Err(
            String::from_str(
                "⚠️ This command contains potentially dangerous operations.\nFor safety reasons, it has been blocked.",
            ),
        );
    }
    match crate::handlers::bash::split_shell_words(trimmed) {
        Some(parts) => {
            if parts.len() == 0 {
                Err(String::from_str("⚠️ Invalid command format"))
            } else {
                Ok(parts)
            }
        },
        None => {
            let mut whole: Vec<String> = Vec::new();
            whole.push(trimmed.to_owned());
            proof {
                assert(whole.deep_view() =~= seq![spec_trim(command@)]);
            }
            Ok(whole)
        },
    }
}

/// The report of a finished command in this mode: the command, its
/// timing and return code, a separator, and the two output streams or a
/// no-output note.
pub open spec fn spec_mode_command_output(
    command: Seq<char>,
    code: int,
    out: Seq<char>,
    err: Seq<char>,
    elapsed_ms: int,
) -> Seq<char> {
    let head = "📎 Command: "@ + command + "\n⏱️ Execution time: "@ + dec_two_places(
        round_half_even(elapsed_ms, 10),
    ) + "s\n📊 Return code: "@ + (if code < 0 {
        seq!['-'] + dec_str(-code)
    } else {
        dec_str(code)
    }) + "\n"@ + SEPARATOR_LINE@ + "\n"@;
    let out_part = if out.len() > 0 {
        "📤 STDOUT:\n"@ + out.take(spec_trim_end(out)) + "\n"@
    } else {
        Seq::<char>::empty()
    };
    let err_part = if err.len() > 0 {
        (if out.len() > 0 {
            "\n"@
        } else {
            Seq::<char>::empty()
        }) + "⚠️ STDERR:\n"@ + err.take(spec_trim_end(err)) + "\n"@
    } else {
        Seq::<char>::empty()
    };
    let none_part = if out.len() == 0 && err.len() == 0 {
        "📄 No output\n"@
    } else {
        Seq::<char>::empty()
    };
    head + out_part + err_part + none_part
}

/// Format a finished command's report.
pub fn format_command_output(
    command: &str,
    return_code: i32,
    stdout: &str,
    stderr: &str,
    elapsed_ms: u64,
) -> (r: String)
    ensures
        r@ == spec_mode_command_output(
            command@,
            return_code as int,
            stdout@,
            stderr@,
            elapsed_ms as int,
        ),
{
    let mut r = String::from_str("📎 Command: ");
    r.append(command);
    r.append("\n⏱️ Execution time: ");
    proof {
        vstd::arithmetic::div_mod::lemma_div_is_ordered(elapsed_ms as int, u64::MAX as int, 10);
    }
    let secs = two_places(round_to(elapsed_ms, 10));
    r.append(secs.as_str());
    r.append("s\n📊 Return code: ");
    if return_code < 0 {
        proof {
            reveal_strlit("-");
            assert("-"@ =~= seq!['-']);
        }
        r.append("-");
        let mag = u64_to_string((-(return_code as i64)) as u64);
        r.append(mag.as_str());
    } else {
        let mag = u64_to_string(return_code as u64);
        r.append(mag.as_str());
    }
    r.append("\n");
    r.append(SEPARATOR_LINE);
    r.append("\n");
    if !stdout.is_empty() {
        r.append("📤 STDOUT:\n");
        r.append(trim_end_str(stdout));
        r.append("\n");
    }
    if !stderr.is_empty() {
        if !stdout.is_empty() {
            r.append("\n");
        }
        r.append("⚠️ STDERR:\n");
        r.append(trim_end_str(stderr));
        r.append("\n");
    }
    if stdout.is_empty() && stderr.is_empty() {
        r.append("📄 No output\n");
    }
    proof {
        assert(r@ =~= spec_mode_command_output(
            command@,
            return_code as int,
            stdout@,
            stderr@,
            elapsed_ms as int,
        ));
    }
    r
}

} // verus!

verus! {

/// The fifty-dash separator of the report.
pub const SEPARATOR_LINE: &'static str =
    "──────────────────────────────────────────────────";

} // verus!
