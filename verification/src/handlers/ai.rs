//! AI output post-processing: the grammar that splits a model's reply
//! into plain text and fenced `bash` code blocks. The host executes the
//! extracted commands and interleaves their reports; which spans are
//! text and which are commands is decided here, with an exact contract.

use vstd::prelude::*;
use vstd::string::StringExecFns;

verus! {

/// One span of a model reply: either plain text or the body of one
/// fenced `bash` block.
#[derive(Debug)]
pub enum OutputSegment {
    /// Plain text, kept verbatim.
    Text(String),
    /// The body of one ```bash fence, without the fence markers.
    Bash(String),
}

impl OutputSegment {
    /// The span as a tagged character sequence: the flag marks a bash
    /// block.
    pub open spec fn view_pair(self) -> (bool, Seq<char>) {
        match self {
            OutputSegment::Text(t) => (false, t@),
            OutputSegment::Bash(b) => (true, b@),
        }
    }
}

/// The spans of a segment list as tagged character sequences.
pub open spec fn spec_segment_views(v: Seq<OutputSegment>) -> Seq<(bool, Seq<char>)> {
    v.map_values(|s: OutputSegment| s.view_pair())
}

/// Whether `pat` occurs at position `i` of `s`.
pub open spec fn spec_match_at(s: Seq<char>, pat: Seq<char>, i: int) -> bool {
    0 <= i && i + pat.len() <= s.len() && s.subrange(i, i + pat.len()) == pat
}

/// The first position at or after `i` where `pat` occurs, or -1.
pub open spec fn spec_find_from(s: Seq<char>, pat: Seq<char>, i: int) -> int
    decreases s.len() - i,
{
    if !(0 <= i) || i + pat.len() > s.len() || pat.len() == 0 {
        -1
    } else if spec_match_at(s, pat, i) {
        i
    } else {
        spec_find_from(s, pat, i + 1)
    }
}

/// A found position lies between the start of the search and the last
/// place the pattern fits.
proof fn lemma_find_from_bounds(s: Seq<char>, pat: Seq<char>, i: int)
    requires
        0 <= i,
    ensures
        spec_find_from(s, pat, i) == -1 || (i <= spec_find_from(s, pat, i) && spec_find_from(
            s,
            pat,
            i,
        ) + pat.len() <= s.len()),
    decreases s.len() - i,
{
    if i + pat.len() <= s.len() && pat.len() > 0 && !spec_match_at(s, pat, i) {
        lemma_find_from_bounds(s, pat, i + 1);
    }
}

/// The spans of the reply from position `i` on: everything up to the
/// next ```bash fence is text, the fence body up to the earliest
/// closing fence is a bash span, and a fence that never closes is
/// treated as text.
pub open spec fn spec_split_output(s: Seq<char>, i: int) -> Seq<(bool, Seq<char>)>
    decreases s.len() - i,
    via spec_split_output_decreases
{
    if !(0 <= i <= s.len()) {
        Seq::empty()
    } else {
        let b = spec_find_from(s, "```bash\n"@, i);
        if b == -1 {
            if i < s.len() {
                seq![(false, s.subrange(i, s.len() as int))]
            } else {
                Seq::empty()
            }
        } else {
            let body = b + 8;
            let e = spec_find_from(s, "\n```"@, body);
            if e == -1 {
                if i < s.len() {
                    seq![(false, s.subrange(i, s.len() as int))]
                } else {
                    Seq::empty()
                }
            } else {
                let before: Seq<(bool, Seq<char>)> = if b > i {
                    seq![(false, s.subrange(i, b))]
                } else {
                    Seq::empty()
                };
                before + seq![(true, s.subrange(body, e))] + spec_split_output(s, e + 4)
            }
        }
    }
}

#[via_fn]
proof fn spec_split_output_decreases(s: Seq<char>, i: int) {
    if 0 <= i <= s.len() {
        reveal_strlit("```bash\n");
        reveal_strlit("\n```");
        let b = spec_find_from(s, "```bash\n"@, i);
        if b != -1 {
            lemma_find_from_bounds(s, "```bash\n"@, i);
            let e = spec_find_from(s, "\n```"@, b + 8);
            if e != -1 {
                lemma_find_from_bounds(s, "\n```"@, b + 8);
            }
        }
    }
}

/// Find the first occurrence of `pat` at or after `from`.
fn find_from(s: &str, pat: &str, from: usize) -> (r: Option<usize>)
    requires
        from <= s@.len(),
        s@.len() < usize::MAX,
        pat@.len() >= 1,
    ensures
        match r {
            Some(j) => spec_find_from(s@, pat@, from as int) == j && from <= j && j + pat@.len()
                <= s@.len(),
            None => spec_find_from(s@, pat@, from as int) == -1,
        },
{
    let n = s.unicode_len();
    let m = pat.unicode_len();
    if m > n || from > n - m {
        proof {
            lemma_find_stops(s@, pat@, from as int, from as int);
        }
        return None;
    }
    let mut i: usize = from;
    while i <= n - m
        invariant
            n == s@.len(),
            m == pat@.len(),
            1 <= m <= n,
            from <= i <= n - m + 1,
            forall|k: int| from <= k < i ==> !spec_match_at(s@, pat@, k),
        decreases n - i,
    {
        let mut j: usize = 0;
        let mut matched = true;
        while j < m
            invariant
                n == s@.len(),
                m == pat@.len(),
                m <= n,
                i <= n - m,
                j <= m,
                matched ==> forall|l: int| 0 <= l < j ==> s@[i + l] == pat@[l],
                !matched ==> !spec_match_at(s@, pat@, i as int),
            decreases m - j,
        {
            if s.get_char(i + j) != pat.get_char(j) {
                proof {
                    assert(s@.subrange(i as int, i + m)[j as int] != pat@[j as int]);
                }
                matched = false;
                j = m;
            } else {
                j += 1;
            }
        }
        if matched {
            proof {
                assert(s@.subrange(i as int, i + m) =~= pat@);
                lemma_find_lands(s@, pat@, from as int, i as int);
            }
            return Some(i);
        }
        i += 1;
    }
    proof {
        lemma_find_stops(s@, pat@, from as int, i as int);
    }
    None
}

/// A scan that matched nowhere up to a point past the last fit finds
/// nothing.
proof fn lemma_find_stops(s: Seq<char>, pat: Seq<char>, from: int, i: int)
    requires
        0 <= from <= i,
        pat.len() > 0,
        forall|k: int| from <= k < i ==> !spec_match_at(s, pat, k),
        i + pat.len() > s.len() || pat.len() > s.len(),
    ensures
        spec_find_from(s, pat, from) == -1,
    decreases i - from,
{
    if from + pat.len() <= s.len() {
        assert(!spec_match_at(s, pat, from));
        lemma_find_stops(s, pat, from + 1, if from < i {
            i
        } else {
            from + 1
        });
    }
}

/// A scan that matched nowhere before `i` and matches at `i` is the
/// first occurrence.
proof fn lemma_find_lands(s: Seq<char>, pat: Seq<char>, from: int, i: int)
    requires
        0 <= from <= i,
        pat.len() > 0,
        forall|k: int| from <= k < i ==> !spec_match_at(s, pat, k),
        spec_match_at(s, pat, i),
    ensures
        spec_find_from(s, pat, from) == i,
    decreases i - from,
{
    if from < i {
        assert(!spec_match_at(s, pat, from));
        lemma_find_lands(s, pat, from + 1, i);
    }
}

/// Split a model reply into its plain-text spans and fenced `bash`
/// block bodies, in order.
pub fn split_llm_output(output: &str) -> (r: Vec<OutputSegment>)
    requires
        output@.len() < usize::MAX,
    ensures
        spec_segment_views(r@) == spec_split_output(output@, 0),
{
    proof {
        reveal_strlit("```bash\n");
        reveal_strlit("\n```");
        assert("```bash\n"@.len() == 8);
        assert("\n```"@.len() == 4);
    }
    let n = output.unicode_len();
    let mut out: Vec<OutputSegment> = Vec::new();
    let mut i: usize = 0;
    while i <= n
        invariant
            n == output@.len(),
            n < usize::MAX,
            i <= n + 1,
            "```bash\n"@.len() == 8,
            "\n```"@.len() == 4,
            spec_segment_views(out@) + spec_split_output(output@, i as int) == spec_split_output(
                output@,
                0,
            ) || i > n,
            i > n ==> spec_segment_views(out@) == spec_split_output(output@, 0),
        decreases n + 1 - i,
    {
        let ghost seen = out@;
        match find_from(output, "```bash\n", i) {
            None => {
                if i < n {
                    let text = output.substring_char(i, n);
                    let seg = OutputSegment::Text(String::from_str(text));
                    let ghost segg = seg;
                    out.push(seg);
                    proof {
                        lemma_views_push(seen, segg);
                        assert(segg.view_pair() == (false, output@.subrange(i as int, n as int)));
                        assert(spec_segment_views(out@) =~= spec_split_output(output@, 0));
                    }
                } else {
                    proof {
                        assert(spec_split_output(output@, i as int) =~= Seq::<(
                            bool,
                            Seq<char>,
                        )>::empty());
                        assert(spec_segment_views(out@) =~= spec_split_output(output@, 0));
                    }
                }
                i = n + 1;
            },
            Some(b) => {
                match find_from(output, "\n```", b + 8) {
                    None => {
                        if i < n {
                            let text = output.substring_char(i, n);
                            let seg = OutputSegment::Text(String::from_str(text));
                            let ghost segg = seg;
                            out.push(seg);
                            proof {
                                lemma_views_push(seen, segg);
                                assert(segg.view_pair() == (false, output@.subrange(
                                    i as int,
                                    n as int,
                                )));
                                assert(spec_segment_views(out@) =~= spec_split_output(output@, 0));
                            }
                        } else {
                            proof {
                                assert(spec_segment_views(out@) =~= spec_split_output(output@, 0));
                            }
                        }
                        i = n + 1;
                    },
                    Some(e) => {
                        if b > i {
                            let text = output.substring_char(i, b);
                            let seg = OutputSegment::Text(String::from_str(text));
                            let ghost segg = seg;
                            out.push(seg);
                            proof {
                                lemma_views_push(seen, segg);
                                assert(segg.view_pair() == (false, output@.subrange(
                                    i as int,
                                    b as int,
                                )));
                            }
                        }
                        let ghost seen2 = out@;
                        let body = output.substring_char(b + 8, e);
                        let seg = OutputSegment::Bash(String::from_str(body));
                        let ghost segg = seg;
                        out.push(seg);
                        proof {
                            lemma_views_push(seen2, segg);
                            assert(segg.view_pair() == (true, output@.subrange(
                                b as int + 8,
                                e as int,
                            )));
                            assert(spec_segment_views(out@) + spec_split_output(
                                output@,
                                e as int + 4,
                            ) =~= spec_split_output(output@, 0));
                        }
                        i = e + 4;
                    },
                }
            },
        }
    }
    out
}

/// Pushing a segment extends the tagged views by its pair.
proof fn lemma_views_push(before: Seq<OutputSegment>, elem: OutputSegment)
    ensures
        spec_segment_views(before.push(elem)) == spec_segment_views(before).push(
            elem.view_pair(),
        ),
{
    assert(spec_segment_views(before.push(elem)) =~= spec_segment_views(before).push(
        elem.view_pair(),
    ));
}

} // verus!
