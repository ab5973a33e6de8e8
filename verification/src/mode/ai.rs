//! AI-mode helpers of the standalone front end: the rough token count,
//! the session cost report, and the validation of `/config` arguments.
//! Costs are carried in millionths of a dollar; the report renders them
//! with six decimal places.

use crate::ai::types::SessionStats;
use crate::utils::format::dec_str;
use crate::utils::format::eq_ignore_ascii_case;
use crate::utils::format::format_micro_dollars;
use crate::utils::format::is_ws_char;
use crate::utils::format::seg_count;
use crate::utils::format::spec_ascii_lower;
use crate::utils::format::spec_money;
use crate::utils::format::spec_token_estimate;
use crate::utils::format::u64_to_string;
use vstd::prelude::*;
use vstd::string::StringExecFns;

verus! {

/// Count tokens in a string: a rough estimate of thirteen tenths of the
/// whitespace-separated word count, rounded to the nearest integer.
pub fn count_tokens(text: &str) -> (r: usize)
    requires
        13 * text@.len() + 5 <= usize::MAX * 10,
    ensures
        r == spec_token_estimate(seg_count(text@, |c: char| is_ws_char(c))),
{
    crate::utils::format::count_words_estimate(text)
}

/// The session cost report: token counts and the cost split between
/// input and output in proportion to their token shares, all in exact
/// integer arithmetic on millionths of a dollar.
pub open spec fn spec_session_cost(stats: SessionStats) -> Seq<char> {
    let total = stats.total_prompt_tokens + stats.total_completion_tokens;
    let input_cost: int = if total > 0 {
        stats.total_cost * stats.total_prompt_tokens / total
    } else {
        0
    };
    let output_cost: int = if total > 0 {
        stats.total_cost * stats.total_completion_tokens / total
    } else {
        0
    };
    "Session statistics:\nTokens used:\n- Input: "@ + dec_str(stats.total_prompt_tokens as int)
        + " tokens\n- Output: "@ + dec_str(stats.total_completion_tokens as int)
        + " tokens\n- Total: "@ + dec_str(total) + " tokens\n\nCost breakdown:\n- Input cost: "@
        + spec_money(input_cost) + "\n- Output cost: "@ + spec_money(output_cost)
        + "\n- Total cost: "@ + spec_money(stats.total_cost as int)
}

/// Get the formatted session cost information.
pub fn get_session_cost(stats: &SessionStats) -> (r: String)
    requires
        stats.total_prompt_tokens + stats.total_completion_tokens <= usize::MAX,
    ensures
        r@ == spec_session_cost(*stats),
{
    let total: usize = stats.total_prompt_tokens + stats.total_completion_tokens;
    let (input_cost, output_cost): (u64, u64) = if total > 0 {
        proof {
            assert(stats.total_cost * stats.total_prompt_tokens <= u64::MAX * (usize::MAX as int))
                by (nonlinear_arith)
                requires
                    stats.total_cost <= u64::MAX,
                    stats.total_prompt_tokens <= usize::MAX,
            ;
            assert(stats.total_cost * stats.total_completion_tokens <= u64::MAX * (usize::MAX
                as int)) by (nonlinear_arith)
                requires
                    stats.total_cost <= u64::MAX,
                    stats.total_completion_tokens <= usize::MAX,
            ;
            assert(u64::MAX * (usize::MAX as int) <= u128::MAX) by (nonlinear_arith)
                requires
                    usize::MAX <= u64::MAX,
            ;
        }
        let ic: u128 = stats.total_cost as u128 * stats.total_prompt_tokens as u128 / total
            as u128;
        let oc: u128 = stats.total_cost as u128 * stats.total_completion_tokens as u128 / total
            as u128;
        proof {
            assert(stats.total_cost * stats.total_prompt_tokens / (total as int)
                <= stats.total_cost) by (nonlinear_arith)
                requires
                    stats.total_prompt_tokens <= total,
                    total > 0,
                    stats.total_cost >= 0,
            ;
            assert(stats.total_cost * stats.total_completion_tokens / (total as int)
                <= stats.total_cost) by (nonlinear_arith)
                requires
                    stats.total_completion_tokens <= total,
                    total > 0,
                    stats.total_cost >= 0,
            ;
        }
        (ic as u64, oc as u64)
    } else {
        (0, 0)
    };
    let mut r = String::from_str("Session statistics:\nTokens used:\n- Input: ");
    let p = u64_to_string(stats.total_prompt_tokens as u64);
    r.append(p.as_str());
    r.append(" tokens\n- Output: ");
    let c = u64_to_string(stats.total_completion_tokens as u64);
    r.append(c.as_str());
    r.append(" tokens\n- Total: ");
    let t = u64_to_string(total as u64);
    r.append(t.as_str());
    r.append(" tokens\n\nCost breakdown:\n- Input cost: ");
    let ic = format_micro_dollars(input_cost);
    r.append(ic.as_str());
    r.append("\n- Output cost: ");
    let oc = format_micro_dollars(output_cost);
    r.append(oc.as_str());
    r.append("\n- Total cost: ");
    let tc = format_micro_dollars(stats.total_cost);
    r.append(tc.as_str());
    proof {
        assert(r@ =~= spec_session_cost(*stats));
    }
    r
}

/// Get the total session cost for the status display.
pub fn get_total_cost(stats: &SessionStats) -> (r: String)
    ensures
        r@ == spec_money(stats.total_cost as int),
{
    format_micro_dollars(stats.total_cost)
}

/// Clear the conversation statistics and confirm it.
pub fn clear_history(stats: &mut SessionStats) -> (r: String)
    ensures
        final(stats).total_prompt_tokens == 0,
        final(stats).total_completion_tokens == 0,
        final(stats).total_cost == 0,
        r@ == "✅ Conversation history and statistics cleared"@,
{
    stats.total_prompt_tokens = 0;
    stats.total_completion_tokens = 0;
    stats.total_cost = 0;
    String::from_str("✅ Conversation history and statistics cleared")
}

/// Whether the character is a decimal digit.
pub open spec fn spec_digit(c: char) -> bool {
    let u = c as u32;
    0x30 <= u && u <= 0x39
}

/// The first position at or after `i` that holds no decimal digit.
pub open spec fn spec_digits_end(s: Seq<char>, i: int) -> int
    decreases s.len() - i,
{
    if 0 <= i < s.len() && spec_digit(s[i]) {
        spec_digits_end(s, i + 1)
    } else {
        i
    }
}

/// A digit run bounded on the right by the end or a non-digit is
/// exactly what the run-end function denotes.
proof fn lemma_digits_end_at(s: Seq<char>, i: int, j: int)
    requires
        0 <= i <= j <= s.len(),
        forall|k: int| i <= k < j ==> spec_digit(#[trigger] s[k]),
        j < s.len() ==> !spec_digit(s[j]),
    ensures
        spec_digits_end(s, i) == j,
    decreases j - i,
{
    if i < j {
        lemma_digits_end_at(s, i + 1, j);
    }
}

/// The numeric value of the digit span `[from, to)`.
pub open spec fn spec_digits_val(s: Seq<char>, from: int, to: int) -> int
    decreases to - from,
{
    if to <= from {
        0
    } else {
        spec_digits_val(s, from, to - 1) * 10 + (s[to - 1] as u32 - 0x30)
    }
}

/// The number of leading `0` characters of a digit string.
pub open spec fn spec_leading_zeros(d: Seq<char>) -> int
    decreases d.len(),
{
    if d.len() == 0 {
        0
    } else if d[0] == '0' {
        1 + spec_leading_zeros(d.drop_first())
    } else {
        0
    }
}

/// A zero prefix bounded by a nonzero character or the end pins down
/// the leading-zero count.
proof fn lemma_leading_zeros_at(d: Seq<char>, z: int)
    requires
        0 <= z <= d.len(),
        forall|p: int| 0 <= p < z ==> #[trigger] d[p] == '0',
        z < d.len() ==> d[z] != '0',
    ensures
        spec_leading_zeros(d) == z,
    decreases d.len(),
{
    if d.len() > 0 && z > 0 {
        lemma_leading_zeros_at(d.drop_first(), z - 1);
    }
}

/// Whether, from position `i`, the string ends or carries a well-formed
/// exponent part: `e` or `E`, an optional sign, and one or more digits
/// running to the end.
pub open spec fn spec_exp_wf(s: Seq<char>, i: int) -> bool {
    i == s.len() || {
        &&& 0 <= i < s.len() && (s[i] == 'e' || s[i] == 'E')
        &&& {
            let d0: int = if i + 1 < s.len() && (s[i + 1] == '+' || s[i + 1] == '-') {
                i + 2
            } else {
                i + 1
            };
            d0 < s.len() && spec_digits_end(s, d0) == s.len()
        }
    }
}

/// The signed value of the exponent part starting at `i`; zero when the
/// string ends there.
pub open spec fn spec_exp_val(s: Seq<char>, i: int) -> int {
    if i == s.len() {
        0
    } else {
        let negk = i + 1 < s.len() && s[i + 1] == '-';
        let d0: int = if i + 1 < s.len() && (s[i + 1] == '+' || s[i + 1] == '-') {
            i + 2
        } else {
            i + 1
        };
        if negk {
            -spec_digits_val(s, d0, s.len() as int)
        } else {
            spec_digits_val(s, d0, s.len() as int)
        }
    }
}

/// Whether the string is a decimal number — an optional sign, digits
/// with at most one dot and at least one digit, and an optional
/// exponent — whose written value lies in `[0, 1]`: a negative sign is
/// allowed only on a value of zero, and the magnitude condition is
/// decided positionally from the significant digits and the decimal
/// exponent. The value is compared exactly as written; the infinity
/// and not-a-number words, never in range, are simply not in the
/// grammar.
pub open spec fn spec_valid_temperature(s: Seq<char>) -> bool {
    let ms: int = if s.len() > 0 && (s[0] == '+' || s[0] == '-') {
        1
    } else {
        0
    };
    let neg = s.len() > 0 && s[0] == '-';
    let int_end = spec_digits_end(s, ms);
    let frac_start: int = if int_end < s.len() && s[int_end] == '.' {
        int_end + 1
    } else {
        int_end
    };
    let frac_end = spec_digits_end(s, frac_start);
    let digits = s.subrange(ms, int_end) + s.subrange(frac_start, frac_end);
    let ilen = int_end - ms;
    let lead = spec_leading_zeros(digits);
    let nonzero = lead < digits.len();
    let m = ilen - lead + spec_exp_val(s, frac_end);
    &&& digits.len() > 0
    &&& spec_exp_wf(s, frac_end)
    &&& (!nonzero || (!neg && spec_magnitude_le_one(digits, m)))
}

/// Whether a nonzero digit string with decimal exponent `m` — the
/// position of its first significant digit relative to the decimal
/// point — reads as a value of at most one: either the value starts
/// below the ones place, or it is exactly a one followed by zeros.
pub open spec fn spec_magnitude_le_one(digits: Seq<char>, m: int) -> bool {
    let lead = spec_leading_zeros(digits);
    m <= 0 || (m == 1 && digits[lead] == '1' && (forall|p: int|
        lead < p < digits.len() ==> #[trigger] digits[p] == '0'))
}

/// An exponent magnitude beyond this cap cannot matter: the decimal
/// point of a value in range can shift at most one place per written
/// character, and no argument has this many characters.
pub const EXP_CAP: u128 = 100_000_000_000_000_000_000;

/// Check that a `/config temperature` argument is a decimal in `[0, 1]`.
#[verifier::rlimit(50)]
fn is_valid_temperature(value: &str) -> (r: bool)
    ensures
        r == spec_valid_temperature(value@),
{
    let n = value.unicode_len();
    if n == 0 {
        return false;
    }
    let c0 = value.get_char(0);
    let ms: usize = if c0 == '+' || c0 == '-' {
        1
    } else {
        0
    };
    let neg = c0 == '-';
    // the integer-part digit run
    let mut int_end: usize = ms;
    while int_end < n && is_digit_char(value.get_char(int_end))
        invariant
            n == value@.len(),
            ms <= int_end <= n,
            forall|k: int| ms <= k < int_end ==> spec_digit(#[trigger] value@[k]),
        decreases n - int_end,
    {
        int_end += 1;
    }
    proof {
        lemma_digits_end_at(value@, ms as int, int_end as int);
    }
    // the fraction-part digit run, after an optional dot
    let frac_start: usize = if int_end < n && value.get_char(int_end) == '.' {
        int_end + 1
    } else {
        int_end
    };
    let mut frac_end: usize = frac_start;
    while frac_end < n && is_digit_char(value.get_char(frac_end))
        invariant
            n == value@.len(),
            frac_start <= frac_end <= n,
            forall|k: int| frac_start <= k < frac_end ==> spec_digit(#[trigger] value@[k]),
        decreases n - frac_end,
    {
        frac_end += 1;
    }
    proof {
        lemma_digits_end_at(value@, frac_start as int, frac_end as int);
    }
    let ilen: usize = int_end - ms;
    let flen: usize = frac_end - frac_start;
    if ilen == 0 && flen == 0 {
        return false;
    }
    // the optional exponent: sign flag and value, capped once it can no
    // longer matter
    let mut k_neg = false;
    let mut kc: u128 = 0;
    let mut k_over = false;
    if frac_end < n {
        let ce = value.get_char(frac_end);
        if !(ce == 'e' || ce == 'E') {
            return false;
        }
        let mut d0 = frac_end + 1;
        if d0 < n {
            let cs = value.get_char(d0);
            if cs == '+' || cs == '-' {
                k_neg = cs == '-';
                d0 = d0 + 1;
            }
        }
        if d0 >= n {
            return false;
        }
        let ghost d0g = d0 as int;
        let mut i = d0;
        while i < n
            invariant
                n == value@.len(),
                n > 0,
                ms == (if value@[0] == '+' || value@[0] == '-' {
                    1int
                } else {
                    0int
                }),
                spec_digits_end(value@, ms as int) == int_end,
                ms <= int_end <= n,
                frac_start == (if int_end < n && value@[int_end as int] == '.' {
                    int_end + 1int
                } else {
                    int_end as int
                }),
                spec_digits_end(value@, frac_start as int) == frac_end,
                frac_start <= frac_end < n,
                int_end - ms + (frac_end - frac_start) > 0,
                value@[frac_end as int] == 'e' || value@[frac_end as int] == 'E',
                d0g == (if frac_end + 1 < n && (value@[frac_end as int + 1] == '+'
                    || value@[frac_end as int + 1] == '-') {
                    frac_end + 2int
                } else {
                    frac_end + 1int
                }),
                d0g == d0,
                d0 <= i <= n,
                forall|k: int| d0 <= k < i ==> spec_digit(#[trigger] value@[k]),
                !k_over ==> kc == spec_digits_val(value@, d0g, i as int) && kc <= EXP_CAP,
                k_over ==> spec_digits_val(value@, d0g, i as int) > EXP_CAP,
            decreases n - i,
        {
            let c = value.get_char(i);
            if !is_digit_char(c) {
                proof {
                    lemma_digits_end_at(value@, d0g, i as int);
                }
                return false;
            }
            let d = (c as u32 - 0x30) as u128;
            proof {
                lemma_digits_val_nonneg(value@, d0g, i as int);
            }
            if k_over {
                proof {
                    assert(spec_digits_val(value@, d0g, i + 1) == spec_digits_val(
                        value@,
                        d0g,
                        i as int,
                    ) * 10 + (value@[i as int] as u32 - 0x30));
                }
            } else {
                let next = kc * 10 + d;
                if next > EXP_CAP {
                    k_over = true;
                } else {
                    kc = next;
                }
            }
            i += 1;
        }
        proof {
            lemma_digits_end_at(value@, d0g, n as int);
        }
    }
    // scan the mantissa digits: leading zeros, the first significant
    // digit, and whether everything after it is zero
    let dlen: usize = ilen + flen;
    let ghost dg = value@.subrange(ms as int, int_end as int) + value@.subrange(
        frac_start as int,
        frac_end as int,
    );
    let mut lead: usize = 0;
    let mut seen_sig = false;
    let mut first_sig: char = '0';
    let mut rest_zero = true;
    let mut p: usize = 0;
    while p < dlen
        invariant
            n == value@.len(),
            ms + ilen == int_end <= n,
            frac_start + flen == frac_end <= n,
            dlen == ilen + flen,
            dg.len() == dlen,
            dg == value@.subrange(ms as int, int_end as int) + value@.subrange(
                frac_start as int,
                frac_end as int,
            ),
            p <= dlen,
            !seen_sig ==> lead == p && rest_zero && (forall|q: int|
                0 <= q < p ==> #[trigger] dg[q] == '0'),
            seen_sig ==> lead < p && (forall|q: int| 0 <= q < lead ==> #[trigger] dg[q] == '0')
                && dg[lead as int] != '0' && first_sig == dg[lead as int],
            seen_sig ==> rest_zero == (forall|q: int|
                lead < q < p ==> #[trigger] dg[q] == '0'),
        decreases dlen - p,
    {
        let c = if p < ilen {
            value.get_char(ms + p)
        } else {
            value.get_char(frac_start + (p - ilen))
        };
        proof {
            assert(dg[p as int] == c);
        }
        if !seen_sig {
            if c == '0' {
                lead += 1;
            } else {
                seen_sig = true;
                first_sig = c;
            }
        } else {
            proof {
                if c != '0' {
                    assert(!(forall|q: int| lead < q < p + 1 ==> #[trigger] dg[q] == '0')) by {
                        assert(lead < p);
                        assert(dg[p as int] != '0');
                    }
                } else if rest_zero {
                    assert(forall|q: int| lead < q < p + 1 ==> #[trigger] dg[q] == '0') by {
                        assert(dg[p as int] == '0');
                    }
                } else {
                    assert(exists|q: int| lead < q < p && #[trigger] dg[q] != '0');
                    let q0 = choose|q: int| lead < q < p && #[trigger] dg[q] != '0';
                    assert(!(forall|q: int| lead < q < p + 1 ==> #[trigger] dg[q] == '0')) by {
                        assert(lead < q0 < p + 1 && dg[q0] != '0');
                    }
                }
            }
            if c != '0' {
                rest_zero = false;
            }
        }
        p += 1;
    }
    proof {
        if seen_sig {
            lemma_leading_zeros_at(dg, lead as int);
        } else {
            lemma_leading_zeros_at(dg, dlen as int);
        }
    }
    if !seen_sig {
        // every digit is zero: the value is zero whatever the sign or
        // exponent
        return true;
    }
    if neg {
        return false;
    }
    // decide the decimal magnitude: m <= 0 means the value is below
    // one, m == 1 leaves exactly the `1.000...` forms
    if k_over {
        if k_neg {
            proof {
                assert(ilen - lead + spec_exp_val(value@, frac_end as int) <= 0) by {
                    assert(spec_exp_val(value@, frac_end as int) < -(EXP_CAP as int));
                    assert(ilen <= n <= usize::MAX < EXP_CAP);
                }
            }
            return true;
        }
        proof {
            assert(ilen - lead + spec_exp_val(value@, frac_end as int) > 1) by {
                assert(spec_exp_val(value@, frac_end as int) > EXP_CAP);
                assert(lead <= dlen <= n <= usize::MAX < EXP_CAP);
            }
        }
        return false;
    }
    let il: i128 = ilen as i128;
    let ld: i128 = lead as i128;
    let ks: i128 = if k_neg {
        -(kc as i128)
    } else {
        kc as i128
    };
    let m: i128 = il - ld + ks;
    proof {
        assert(ks == spec_exp_val(value@, frac_end as int));
        assert(m == ilen - lead + spec_exp_val(value@, frac_end as int));
    }
    if m <= 0 {
        return true;
    }
    if m == 1 && first_sig == '1' && rest_zero {
        return true;
    }
    proof {
        let sv = value@;
        let s_ms: int = if sv.len() > 0 && (sv[0] == '+' || sv[0] == '-') {
            1
        } else {
            0
        };
        assert(s_ms == ms as int);
        let s_int_end = spec_digits_end(sv, s_ms);
        assert(s_int_end == int_end as int);
        let s_frac_start: int = if s_int_end < sv.len() && sv[s_int_end] == '.' {
            s_int_end + 1
        } else {
            s_int_end
        };
        assert(s_frac_start == frac_start as int);
        let s_frac_end = spec_digits_end(sv, s_frac_start);
        assert(s_frac_end == frac_end as int);
        let s_digits = sv.subrange(s_ms, s_int_end) + sv.subrange(s_frac_start, s_frac_end);
        assert(s_digits == dg);
        assert(spec_leading_zeros(s_digits) == lead as int);
        assert(spec_exp_val(sv, s_frac_end) == ks as int);
        assert(s_digits[lead as int] == first_sig);
        assert(rest_zero == (forall|q: int|
            lead < q < s_digits.len() ==> #[trigger] s_digits[q] == '0'));
        let s_lead = spec_leading_zeros(s_digits);
        let s_m = (s_int_end - s_ms) - s_lead + spec_exp_val(sv, s_frac_end);
        assert(s_m == m as int);
        assert(s_m > 0);
        assert(s_lead < s_digits.len());
        assert(!spec_magnitude_le_one(s_digits, s_m)) by {
            if s_m == 1 {
                assert(s_digits[s_lead] == first_sig);
                if first_sig == '1' {
                    assert(!rest_zero);
                }
            }
        }
        assert(!spec_valid_temperature(sv));
    }
    false
}

/// A span of digit characters has a non-negative value.
proof fn lemma_digits_val_nonneg(s: Seq<char>, from: int, to: int)
    requires
        forall|k: int| from <= k < to ==> spec_digit(#[trigger] s[k]),
    ensures
        spec_digits_val(s, from, to) >= 0,
    decreases to - from,
{
    if to > from {
        lemma_digits_val_nonneg(s, from, to - 1);
    }
}

/// Runtime check for a decimal digit.
fn is_digit_char(c: char) -> (r: bool)
    ensures
        r == spec_digit(c),
{
    let u = c as u32;
    0x30 <= u && u <= 0x39
}

/// The reply of the AI configuration helper, exact for every argument
/// list: the option summary with no arguments, confirmations or usage
/// notes for the model, provider and temperature keys, and a warning
/// for anything else. Confirmations echo the argument as it was
/// written.
pub open spec fn spec_ai_config_reply(args: Seq<Seq<char>>) -> Seq<char> {
    if args.len() == 0 {
        AI_CONFIG_OPTIONS@
    } else {
        let key = spec_ascii_lower(args[0]);
        let value: Seq<char> = if args.len() > 1 {
            args[1]
        } else {
            Seq::empty()
        };
        if key == "model"@ {
            if value.len() == 0 {
                "⚠️ Model name required. Usage: /config model MODEL_NAME"@
            } else {
                "✅ Model set to: "@ + value
            }
        } else if key == "provider"@ {
            if value.len() == 0 {
                "⚠️ Provider name required. Usage: /config provider PROVIDER_NAME"@
            } else if value == "ollama"@ {
                "✅ Provider set to: ollama"@
            } else {
                "⚠️ Unknown provider: "@ + value + ". Currently supported: ollama"@
            }
        } else if key == "temperature"@ {
            if spec_valid_temperature(value) {
                "✅ Temperature set to: "@ + value
            } else {
                "⚠️ Temperature must be between 0.0 and 1.0"@
            }
        } else {
            "⚠️ Unknown configuration key: "@ + args[0]
        }
    }
}

/// Handle an AI configuration command.
pub fn handle_ai_config(args: &Vec<String>) -> (r: String)
    ensures
        r@ == spec_ai_config_reply(args.deep_view()),
{
    proof {
        reveal_strlit("model");
        reveal_strlit("provider");
        reveal_strlit("temperature");
        reveal_strlit("ollama");
        assert(spec_ascii_lower("model"@) =~= "model"@);
        assert(spec_ascii_lower("provider"@) =~= "provider"@);
        assert(spec_ascii_lower("temperature"@) =~= "temperature"@);
        assert("model"@.len() == 5 && "model"@[0] == 'm');
        assert("provider"@.len() == 8 && "provider"@[0] == 'p');
        assert("temperature"@.len() == 11 && "temperature"@[0] == 't');
        assert forall|i: int| 0 <= i < args@.len() implies args.deep_view()[i] == #[trigger] args@[i]@ by {
            assert(args.deep_view()[i] == args@[i].deep_view());
        }
    }
    if args.len() == 0 {
        return String::from_str(AI_CONFIG_OPTIONS);
    }
    let empty = String::new();
    let value: &String = if args.len() > 1 {
        &args[1]
    } else {
        &empty
    };
    if eq_ignore_ascii_case(args[0].as_str(), "model") {
        if value.as_str().is_empty() {
            return String::from_str("⚠️ Model name required. Usage: /config model MODEL_NAME");
        }
        let mut r = String::from_str("✅ Model set to: ");
        r.append(value.as_str());
        return r;
    }
    if eq_ignore_ascii_case(args[0].as_str(), "provider") {
        if value.as_str().is_empty() {
            return String::from_str(
                "⚠️ Provider name required. Usage: /config provider PROVIDER_NAME",
            );
        }
        if crate::utils::format::str_eq(value.as_str(), "ollama") {
            return String::from_str("✅ Provider set to: ollama");
        }
        let mut r = String::from_str("⚠️ Unknown provider: ");
        r.append(value.as_str());
        r.append(". Currently supported: ollama");
        return r;
    }
    if eq_ignore_ascii_case(args[0].as_str(), "temperature") {
        if is_valid_temperature(value.as_str()) {
            let mut r = String::from_str("✅ Temperature set to: ");
            r.append(value.as_str());
            return r;
        }
        return String::from_str("⚠️ Temperature must be between 0.0 and 1.0");
    }
    let mut r = String::from_str("⚠️ Unknown configuration key: ");
    r.append(args[0].as_str());
    r
}

} // verus!

verus! {

/// The summary of AI configuration options.
pub const AI_CONFIG_OPTIONS: &'static str =
    "📝 AI Configuration Options:\n- /config model [model_name]: Set the AI model\n- /config provider [provider_name]: Set AI provider\n- /config temperature [0.0-1.0]: Set response creativity\n\nCurrent settings are stored in ~/.llm-chainfuse/config.yaml";

} // verus!
