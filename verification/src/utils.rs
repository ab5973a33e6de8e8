//! Utility modules of the client: background-task tracking, text
//! formatting and logging.

pub mod format;
pub mod logging;
pub mod tasks;

pub use format::count_tokens;
pub use format::format_duration;
pub use format::format_number;
pub use format::human_readable_size;
pub use format::truncate_string;

pub use tasks::Task;
pub use tasks::TaskId;
pub use tasks::TaskManager;
pub use tasks::TaskType;

use vstd::prelude::*;
use vstd::string::StringExecFns;

verus! {

/// The length of the path with its trailing slashes removed.
pub open spec fn spec_no_trailing_slashes(s: Seq<char>) -> int
    decreases s.len(),
{
    if s.len() == 0 {
        0
    } else if s.last() == '/' {
        spec_no_trailing_slashes(s.drop_last())
    } else {
        s.len() as int
    }
}

/// The index of the last slash of the string, or -1 when there is none.
pub open spec fn spec_last_slash(s: Seq<char>) -> int
    decreases s.len(),
{
    if s.len() == 0 {
        -1
    } else if s.last() == '/' {
        s.len() - 1
    } else {
        spec_last_slash(s.drop_last())
    }
}

/// A suffix of non-slashes bounded on the left pins down the last
/// slash.
proof fn lemma_last_slash_at(s: Seq<char>, j: int)
    requires
        -1 <= j < s.len(),
        forall|k: int| j < k < s.len() ==> s[k] != '/',
        j >= 0 ==> s[j] == '/',
    ensures
        spec_last_slash(s) == j,
    decreases s.len(),
{
    if s.len() > 0 {
        if j == s.len() - 1 {
        } else {
            assert(s.last() != '/');
            lemma_last_slash_at(s.drop_last(), j);
        }
    }
}

/// A suffix of slashes bounded on the left pins down the trailing-slash
/// strip point.
proof fn lemma_no_trailing_at(s: Seq<char>, e: int)
    requires
        0 <= e <= s.len(),
        forall|k: int| e <= k < s.len() ==> s[k] == '/',
        e > 0 ==> s[e - 1] != '/',
    ensures
        spec_no_trailing_slashes(s) == e,
    decreases s.len(),
{
    if s.len() > 0 {
        if e == s.len() {
            assert(s.last() != '/');
        } else {
            assert(s.last() == '/');
            lemma_no_trailing_at(s.drop_last(), e);
        }
    }
}

/// The final component of a slash-separated path, as the standard
/// library's file-name rule reads it: trailing slashes are ignored,
/// trailing current-directory (`.`) components are skipped, and a path
/// whose last remaining component is a parent reference (`..`) — or
/// that has no component left at all — has no name.
pub open spec fn spec_dir_name(s: Seq<char>) -> Seq<char>
    decreases s.len(),
    via spec_dir_name_decreases
{
    let e = spec_no_trailing_slashes(s);
    let core = s.take(e);
    let b = spec_last_slash(core) + 1;
    let name = core.skip(b);
    if core.len() == 0 {
        Seq::empty()
    } else if name == "."@ {
        spec_dir_name(s.take(b))
    } else if name == ".."@ {
        Seq::empty()
    } else {
        name
    }
}

#[via_fn]
proof fn spec_dir_name_decreases(s: Seq<char>) {
    reveal_strlit(".");
    lemma_no_trailing_bounds(s);
    let e = spec_no_trailing_slashes(s);
    let core = s.take(e);
    lemma_last_slash_bounds(core);
    let b = spec_last_slash(core) + 1;
    let name = core.skip(b);
    assert(core.len() == e);
    assert(0 <= b <= e);
    if core.len() > 0 && name == "."@ {
        assert(name.len() == 1);
        assert(e - b == 1);
        assert(s.take(b).len() == b);
        assert(0 <= s.take(b).len() < s.len());
    }
}

/// The trailing-slash strip point lies within the string.
proof fn lemma_no_trailing_bounds(s: Seq<char>)
    ensures
        0 <= spec_no_trailing_slashes(s) <= s.len(),
    decreases s.len(),
{
    if s.len() > 0 && s.last() == '/' {
        lemma_no_trailing_bounds(s.drop_last());
    }
}

/// The last slash, when any, lies within the string.
proof fn lemma_last_slash_bounds(s: Seq<char>)
    ensures
        -1 <= spec_last_slash(s) < s.len(),
    decreases s.len(),
{
    if s.len() > 0 && s.last() != '/' {
        lemma_last_slash_bounds(s.drop_last());
    }
}

/// Get the directory name from a path: its final component, or the
/// empty string when the path has none.
#[verifier::rlimit(30)]
pub fn get_dir_name(path: &str) -> (r: String)
    ensures
        r@ == spec_dir_name(path@),
{
    proof {
        assert(path@.take(path@.len() as int) =~= path@);
    }
    let n = path.unicode_len();
    let mut end: usize = n;
    loop
        invariant
            n == path@.len(),
            end <= n,
            spec_dir_name(path@.take(end as int)) == spec_dir_name(path@),
        decreases end,
    {
        let mut e = end;
        while e > 0 && path.get_char(e - 1) == '/'
            invariant
                n == path@.len(),
                e <= end <= n,
                forall|k: int| e <= k < end ==> path@[k] == '/',
            decreases e,
        {
            e -= 1;
        }
        let mut b = e;
        while b > 0 && path.get_char(b - 1) != '/'
            invariant
                n == path@.len(),
                b <= e <= n,
                forall|k: int| b <= k < e ==> path@[k] != '/',
            decreases b,
        {
            b -= 1;
        }
        let ghost t = path@.take(end as int);
        let ghost core = t.take(e as int);
        proof {
            reveal_strlit(".");
            reveal_strlit("..");
            assert forall|k: int| e <= k < t.len() implies t[k] == '/' by {
                assert(t[k] == path@[k]);
            }
            assert(e > 0 ==> t[e - 1] != '/') by {
                if e > 0 {
                    assert(t[e - 1] == path@[e - 1]);
                }
            }
            lemma_no_trailing_at(t, e as int);
            assert(core =~= path@.take(e as int));
            assert forall|k: int| b <= k < core.len() implies core[k] != '/' by {
                assert(core[k] == path@[k]);
            }
            assert(b > 0 ==> core[b - 1] == '/') by {
                if b > 0 {
                    assert(core[b - 1] == path@[b - 1]);
                }
            }
            lemma_last_slash_at(core, b as int - 1);
        }
        if e == b {
            proof {
                assert(core.len() == 0);
                assert(spec_dir_name(t) =~= Seq::<char>::empty());
            }
            return String::new();
        }
        let ghost name_seq = core.skip(b as int);
        proof {
            assert(name_seq =~= path@.subrange(b as int, e as int));
        }
        if e - b == 1 && path.get_char(b) == '.' {
            proof {
                assert(name_seq =~= "."@);
                assert(spec_dir_name(t) == spec_dir_name(t.take(b as int)));
                assert(t.take(b as int) =~= path@.take(b as int));
            }
            end = b;
        } else {
            let name = path.substring_char(b, e);
            proof {
                assert(name@ =~= name_seq);
                assert(!(name_seq == "."@)) by {
                    if name_seq == "."@ {
                        assert(name_seq.len() == 1 && name_seq[0] == '.');
                        assert(path@[b as int] == '.');
                    }
                }
            }
            let is_parent = e - b == 2 && path.get_char(b) == '.' && path.get_char(b + 1) == '.';
            proof {
                assert(".."@.len() == 2 && ".."@[0] == '.' && ".."@[1] == '.');
                if is_parent {
                    assert(name_seq =~= ".."@);
                } else {
                    if name_seq == ".."@ {
                        assert(name_seq.len() == 2 && name_seq[0] == '.' && name_seq[1] == '.');
                        assert(path@[b as int] == '.' && path@[b as int + 1] == '.');
                        assert(is_parent);
                    }
                }
            }
            if is_parent {
                return String::new();
            } else {
                return String::from_str(name);
            }
        }
    }
}

} // verus!
