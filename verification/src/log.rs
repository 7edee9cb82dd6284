//! The game log: an append-at-front list of messages in which a repeat
//! of the newest message only bumps its counter.

use vstd::prelude::*;
use vstd::string::StringExecFns;

use crate::text::{dec_str, u64_to_string};

verus! {

/// One log line and how many times in a row it was reported.
pub struct LogEntry {
    pub message: String,
    pub count: usize,
}

/// The log.  `entries[0]` is the newest line; `display_index` is where
/// the UI's scrollback currently points.
pub struct GameLog {
    pub entries: Vec<LogEntry>,
    pub display_index: i32,
}

/// Abstract view of a log: newest first, each message with its repeat
/// count.
pub open spec fn log_view(log: GameLog) -> Seq<(Seq<char>, int)> {
    Seq::new(log.entries@.len(), |i: int| (log.entries@[i].message@, log.entries@[i].count as int))
}

/// What reporting one message does to the abstract log: bumps the
/// newest entry's counter when the message repeats it (and the counter
/// has room), else puts a fresh entry at the front.
pub open spec fn log_add(v: Seq<(Seq<char>, int)>, m: Seq<char>) -> Seq<(Seq<char>, int)> {
    if v.len() > 0 && v[0].0 == m && v[0].1 < usize::MAX {
        v.update(0, (m, v[0].1 + 1))
    } else {
        seq![(m, 1int)] + v
    }
}

/// The rendering of an entry: the message alone when reported once, else
/// the message with its repeat counter appended.
pub open spec fn formatted_entry(message: Seq<char>, count: int) -> Seq<char> {
    if count == 1 {
        message
    } else {
        message + " (x"@ + dec_str(count) + ")"@
    }
}

impl GameLog {
    /// A log whose single entry is the given message.
    pub fn new_with_first_log(first_log: &str) -> (log: GameLog)
        ensures
            log.entries@.len() == 1,
            log.entries@[0].message@ == first_log@,
            log.entries@[0].count == 1,
            log.display_index == 0,
    {
        let mut entries: Vec<LogEntry> = Vec::new();
        entries.push(LogEntry { message: String::from_str(first_log), count: 1 });
        GameLog { entries, display_index: 0 }
    }

    /// Reports a message: bumps the newest entry's counter when the
    /// message repeats it, else puts a fresh entry at the front.  (A
    /// counter already at the machine maximum starts a fresh entry
    /// instead of overflowing.)
    pub fn add(&mut self, log: String)
        ensures
            final(self).display_index == old(self).display_index,
            log_view(*final(self)) == log_add(log_view(*old(self)), log@),
    {
        let repeats: bool = if self.entries.len() > 0 {
            self.entries[0].message == log
        } else {
            false
        };
        if repeats && self.entries[0].count < usize::MAX {
            let c = self.entries[0].count;
            self.entries[0].count = c + 1;
            proof {
                assert(log_view(*self) =~= log_add(log_view(*old(self)), log@));
            }
        } else {
            self.add_new_entry(log);
            proof {
                assert(log_view(*self) =~= log_add(log_view(*old(self)), log@));
            }
        }
    }

    /// Puts a fresh entry with count 1 at the front.
    pub fn add_new_entry(&mut self, message: String)
        ensures
            final(self).display_index == old(self).display_index,
            final(self).entries@.len() == old(self).entries@.len() + 1,
            final(self).entries@[0].message == message,
            final(self).entries@[0].count == 1,
            forall|k: int|
                1 <= k < final(self).entries@.len() ==> final(self).entries@[k] == old(
                    self,
                ).entries@[k - 1],
    {
        self.entries.insert(0, LogEntry { message, count: 1 });
    }

    /// Moves the scrollback pointer by `delta`, clamped to the entry
    /// range (to -1 when the log is empty, as the clamp formula gives).
    pub fn move_index(&mut self, delta: i32)
        requires
            i32::MIN <= old(self).display_index + delta <= i32::MAX,
            old(self).entries@.len() <= i32::MAX,
        ensures
            final(self).entries == old(self).entries,
            final(self).display_index == {
                let raised = if old(self).display_index + delta < 0 {
                    0int
                } else {
                    old(self).display_index + delta
                };
                if raised > old(self).entries@.len() - 1 {
                    old(self).entries@.len() - 1
                } else {
                    raised
                }
            },
    {
        let limit = self.entries.len() as i32 - 1;
        let mut target = self.display_index + delta;
        if target < 0 {
            target = 0;
        }
        if target > limit {
            target = limit;
        }
        self.display_index = target;
    }
}

impl LogEntry {
    /// The entry as shown: the message, with `" (xN)"` appended when it
    /// repeated N > 1 times.
    pub fn get_formatted_message(&self) -> (r: String)
        ensures
            r@ == formatted_entry(self.message@, self.count as int),
    {
        if self.count == 1 {
            self.message.clone()
        } else {
            proof {
                reveal_strlit(" (x");
                reveal_strlit(")");
            }
            let mut r = self.message.clone();
            r.append(" (x");
            let c = u64_to_string(self.count as u64);
            r.append(c.as_str());
            r.append(")");
            proof {
                assert(r@ =~= formatted_entry(self.message@, self.count as int));
            }
            r
        }
    }
}

} // verus!
