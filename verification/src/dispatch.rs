//! The command dispatcher: turning an inbound addressed message into a
//! rerun-and-focus decision on one slot.

use vstd::prelude::*;
use vstd::string::StrSliceExecFns;

use crate::slots::{PaneId, PaneToRun, State};
use crate::text::{all_digits, digit_val, digits_value, is_digit, lemma_digits_value_prefix};

verus! {

/// The message name with every literal `F` removed, order kept.
pub open spec fn strip_marker(s: Seq<char>) -> Seq<char>
    decreases s.len(),
{
    if s.len() == 0 {
        s
    } else if s.last() == 'F' {
        strip_marker(s.drop_last())
    } else {
        strip_marker(s.drop_last()).push(s.last())
    }
}

/// What a message name parses to: strip every `F`, then read the rest as a
/// decimal number.  `None` where the rest is empty, holds a non-digit, or
/// does not fit in `usize`.
pub open spec fn parsed_index(name: Seq<char>) -> Option<nat> {
    let t = strip_marker(name);
    if t.len() > 0 && all_digits(t) && digits_value(t) <= usize::MAX as nat {
        Some(digits_value(t))
    } else {
        None
    }
}

/// The terminal pane a trigger on slot `idx` reruns: the slot must exist,
/// be resolved, and be resolved to a terminal pane (plugin panes are not
/// rerun by this path).
pub open spec fn rerun_target(slots: Seq<PaneToRun>, idx: nat) -> Option<u32> {
    if idx < slots.len() {
        match slots[idx as int].pane_id {
            Some(PaneId::Terminal(tid)) => Some(tid),
            Some(PaneId::Plugin(_)) => None,
            None => None,
        }
    } else {
        None
    }
}

/// What the dispatcher does with an inbound message: broadcast messages and
/// unparsable names are ignored; a parsed value maps to a slot index by
/// saturating subtraction of one.
pub open spec fn pipe_action(slots: Seq<PaneToRun>, name: Seq<char>, is_private: bool) -> Option<
    u32,
> {
    if !is_private {
        None
    } else {
        match parsed_index(name) {
            Some(v) => rerun_target(slots, if v == 0 { 0 } else { (v - 1) as nat }),
            None => None,
        }
    }
}

proof fn lemma_strip_marker_step(s: Seq<char>, i: int)
    requires
        0 <= i < s.len(),
    ensures
        strip_marker(s.subrange(0, i + 1)) == if s[i] == 'F' {
            strip_marker(s.subrange(0, i))
        } else {
            strip_marker(s.subrange(0, i)).push(s[i])
        },
{
    let p = s.subrange(0, i + 1);
    assert(p.drop_last() =~= s.subrange(0, i));
    assert(p.last() == s[i]);
}

proof fn lemma_strip_marker_concat(a: Seq<char>, b: Seq<char>)
    ensures
        strip_marker(a + b) == strip_marker(a) + strip_marker(b),
    decreases b.len(),
{
    if b.len() == 0 {
        assert(a + b =~= a);
        assert(b =~= Seq::<char>::empty());
        assert(strip_marker(a) + strip_marker(b) =~= strip_marker(a));
    } else {
        lemma_strip_marker_concat(a, b.drop_last());
        assert((a + b).drop_last() =~= a + b.drop_last());
        assert((a + b).last() == b.last());
        if b.last() != 'F' {
            assert(strip_marker(a) + strip_marker(b.drop_last()).push(b.last()) =~= (strip_marker(
                a,
            ) + strip_marker(b.drop_last())).push(b.last()));
        }
    }
}

/// Reads a decimal value out of a message name: strips every `F`, then
/// parses the remaining characters as a non-negative integer.
pub fn parse_message_index(name: &str) -> (r: Option<usize>)
    ensures
        r == match parsed_index(name@) {
            Some(v) => Some(v as usize),
            None => None::<usize>,
        },
{
    let len = name.unicode_len();
    let mut i: usize = 0;
    let mut v: usize = 0;
    let mut any_digit = false;
    proof {
        assert(name@.subrange(0, 0) =~= Seq::<char>::empty());
    }
    while i < len
        invariant
            i <= len,
            len == name@.len(),
            any_digit == (strip_marker(name@.subrange(0, i as int)).len() > 0),
            all_digits(strip_marker(name@.subrange(0, i as int))),
            v as nat == digits_value(strip_marker(name@.subrange(0, i as int))),
        decreases len - i,
    {
        let c = name.get_char(i);
        let ghost t_old = strip_marker(name@.subrange(0, i as int));
        proof {
            lemma_strip_marker_step(name@, i as int);
        }
        if c != 'F' {
            let ghost t_new = t_old.push(c);
            proof {
                assert(name@.subrange(0, i as int + 1) + name@.subrange(i as int + 1, len as int)
                    =~= name@);
                lemma_strip_marker_concat(
                    name@.subrange(0, i as int + 1),
                    name@.subrange(i as int + 1, len as int),
                );
                assert(t_new.drop_last() =~= t_old);
                assert(digits_value(t_new) == digits_value(t_old) * 10 + digit_val(c));
            }
            let ghost t_all = strip_marker(name@);
            let code = c as u32;
            if code < '0' as u32 || code > '9' as u32 {
                proof {
                    assert(t_all[t_new.len() - 1] == c);
                    assert(!is_digit(c));
                    assert(!all_digits(t_all));
                }
                return None;
            }
            let d = (code - '0' as u32) as usize;
            let next = match v.checked_mul(10) {
                Some(m) => m.checked_add(d),
                None => None,
            };
            match next {
                Some(m) => {
                    v = m;
                },
                None => {
                    proof {
                        assert(digits_value(t_new) > usize::MAX as nat);
                        assert(t_new =~= t_all.subrange(0, t_new.len() as int));
                        lemma_digits_value_prefix(t_all, t_new.len() as int);
                    }
                    return None;
                },
            }
            any_digit = true;
        }
        i += 1;
    }
    proof {
        assert(name@.subrange(0, len as int) =~= name@);
    }
    if any_digit {
        Some(v)
    } else {
        None
    }
}

impl State {
    /// Looks slot `command_index` up and names the terminal pane to rerun
    /// and focus, if that slot is resolved to a terminal pane.
    pub fn rerun_and_focus_command_index(&self, command_index: usize) -> (r: Option<u32>)
        ensures
            r == rerun_target(self.panes_to_run@, command_index as nat),
    {
        if command_index < self.panes_to_run.len() {
            match self.panes_to_run[command_index].pane_id {
                Some(PaneId::Terminal(tid)) => Some(tid),
                Some(PaneId::Plugin(_)) => None,
                None => None,
            }
        } else {
            None
        }
    }

    /// Handles one inbound addressed message and names the terminal pane to
    /// rerun and focus, if any.  Broadcast messages, unparsable names,
    /// absent slots, unresolved slots and plugin-kind slots all yield
    /// `None`: the message is ignored.
    pub fn handle_pipe_message(&self, name: &str, is_private: bool) -> (r: Option<u32>)
        ensures
            r == pipe_action(self.panes_to_run@, name@, is_private),
    {
        if !is_private {
            return None;
        }
        match parse_message_index(name) {
            Some(v) => self.rerun_and_focus_command_index(v.saturating_sub(1)),
            None => None,
        }
    }
}

} // verus!

