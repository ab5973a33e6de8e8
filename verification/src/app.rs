//! Application-level state that the host event loop reconciles: the
//! command history, the classification of typed input into a mode, and
//! the periodic-cleanup timer rule.

use crate::handlers::CommandMode;
use crate::utils::format::is_blank;
use crate::utils::format::spec_blank;
use crate::utils::format::spec_trim;
use crate::utils::format::trim_str;
use std::collections::VecDeque;
use vstd::prelude::*;

verus! {

/// Command history: a bounded queue of past commands and the cursor used
/// when navigating it.
#[derive(Debug)]
pub struct History {
    /// Past commands, oldest first.
    pub commands: VecDeque<String>,
    /// The navigation cursor; equal to the length when not navigating.
    pub position: usize,
    /// The bound on the number of retained commands.
    pub max_size: usize,
}

impl Default for History {
    /// An empty history retaining up to one hundred commands.
    fn default() -> (r: Self)
        ensures
            r.commands@ == Seq::<String>::empty(),
            r.position == 0,
            r.max_size == 100,
            r.wf(),
    {
        History { commands: VecDeque::with_capacity(100), position: 0, max_size: 100 }
    }
}

impl History {
    /// The history never holds more commands than its bound allows.
    pub open spec fn wf(self) -> bool {
        self.commands@.len() <= self.max_size && self.max_size > 0
    }

    /// Add a command to the history: a blank command is ignored;
    /// otherwise the command goes to the back, the oldest entry leaves
    /// when the bound is reached, and the cursor moves past the end.
    pub fn add(&mut self, command: String)
        requires
            old(self).wf(),
        ensures
            spec_blank(command@) ==> *final(self) == *old(self),
            !spec_blank(command@) ==> final(self).commands@ == (if old(self).commands@.len()
                >= old(self).max_size {
                old(self).commands@.drop_first()
            } else {
                old(self).commands@
            }).push(command),
            !spec_blank(command@) ==> final(self).position == final(self).commands@.len(),
            final(self).max_size == old(self).max_size,
            final(self).wf(),
    {
        if !is_blank(command.as_str()) {
            if self.commands.len() >= self.max_size {
                self.commands.pop_front();
            }
            self.commands.push_back(command);
            self.position = self.commands.len();
        }
    }

    /// Step the cursor one entry back in time and hand out the command
    /// the input line should show. With no history, or with the cursor
    /// already at the oldest entry, nothing changes; a cursor past the
    /// end steps back without handing out a command.
    pub fn navigate_up(&mut self) -> (r: Option<String>)
        ensures
            final(self).commands@ == old(self).commands@,
            final(self).max_size == old(self).max_size,
            old(self).commands@.len() == 0 || old(self).position == 0 ==> *final(self) == *old(self) && r is None,
            old(self).commands@.len() > 0 && old(self).position > 0 ==> final(self).position
                == old(self).position - 1,
            old(self).commands@.len() > 0 && 0 < old(self).position
                <= old(self).commands@.len() ==> r == Some(
                old(self).commands@[old(self).position - 1],
            ),
            old(self).commands@.len() > 0 && old(self).position > old(self).commands@.len() ==> r
                is None,
    {
        if self.commands.len() == 0 {
            return None;
        }
        if self.position > 0 {
            self.position = self.position - 1;
            if self.position < self.commands.len() {
                return Some(self.commands[self.position].clone());
            }
        }
        None
    }

    /// Step the cursor one entry forward and hand out the command the
    /// input line should show; stepping past the newest entry moves the
    /// cursor to the end and hands out an empty line. A cursor already
    /// past the end changes nothing.
    pub fn navigate_down(&mut self) -> (r: Option<String>)
        ensures
            final(self).commands@ == old(self).commands@,
            final(self).max_size == old(self).max_size,
            old(self).commands@.len() == 0 ==> *final(self) == *old(self) && r is None,
            old(self).commands@.len() > 0 && old(self).position + 1 < old(self).commands@.len()
                ==> final(self).position == old(self).position + 1 && r == Some(
                old(self).commands@[old(self).position + 1],
            ),
            old(self).commands@.len() > 0 && old(self).position + 1 == old(self).commands@.len()
                ==> final(self).position == old(self).commands@.len() && (r matches Some(cleared)
                && cleared@ == Seq::<char>::empty()),
            old(self).commands@.len() > 0 && old(self).position >= old(self).commands@.len() ==> *final(self) == *old(self) && r is None,
    {
        if self.commands.len() == 0 {
            return None;
        }
        if self.position < self.commands.len() - 1 {
            self.position = self.position + 1;
            return Some(self.commands[self.position].clone());
        }
        if self.position == self.commands.len() - 1 {
            self.position = self.commands.len();
            return Some(String::new());
        }
        None
    }
}

/// Classify a typed command into its mode and strip the mode prefix: a
/// leading `!` selects Bash mode, a leading `/` selects Command mode,
/// anything else is a prompt for the AI. The prefix and surrounding
/// whitespace are removed.
pub fn detect_mode(command: &str) -> (r: (CommandMode, String))
    ensures
        ({
            let t = spec_trim(command@);
            &&& (t.len() > 0 && t[0] == '!') ==> r.0 == CommandMode::Bash && r.1@ == spec_trim(
                t.drop_first(),
            )
            &&& (t.len() > 0 && t[0] == '/') ==> r.0 == CommandMode::Command && r.1@ == spec_trim(
                t.drop_first(),
            )
            &&& (t.len() == 0 || (t[0] != '!' && t[0] != '/')) ==> r.0 == CommandMode::AI && r.1@
                == t
        }),
{
    let trimmed = trim_str(command);
    let n = trimmed.unicode_len();
    if n > 0 {
        let c = trimmed.get_char(0);
        if c == '!' {
            let rest = trimmed.substring_char(1, n);
            proof {
                assert(rest@ =~= spec_trim(command@).drop_first());
            }
            let stripped = trim_str(rest);
            return (CommandMode::Bash, stripped.to_owned());
        }
        if c == '/' {
            let rest = trimmed.substring_char(1, n);
            proof {
                assert(rest@ =~= spec_trim(command@).drop_first());
            }
            let stripped = trim_str(rest);
            return (CommandMode::Command, stripped.to_owned());
        }
    }
    (CommandMode::AI, trimmed.to_owned())
}

/// Whether the periodic task-registry sweep is due: more than sixty
/// whole seconds have passed since the last sweep; with no sweep
/// recorded yet, it is not due.
pub fn should_perform_cleanup(last_cleanup_ms: Option<u64>, now_ms: u64) -> (r: bool)
    ensures
        r == match last_cleanup_ms {
            Some(t) => (if now_ms >= t {
                now_ms - t
            } else {
                0
            }) / 1000 > 60,
            None => false,
        },
{
    match last_cleanup_ms {
        Some(t) => {
            let elapsed = if now_ms >= t {
                now_ms - t
            } else {
                0
            };
            elapsed / 1000 > 60
        },
        None => false,
    }
}

} // verus!
