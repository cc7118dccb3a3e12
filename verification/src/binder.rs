//! The shortcut binder: the shared-keybinds text block that binds one
//! function key per slot.

use vstd::prelude::*;
use vstd::string::StringExecFns;

use crate::slots::State;
use crate::text::{dec_repr, push_decimal};

verus! {

/// How many slots participate in shortcut binding: every slot, up to the
/// twelve function keys available.
pub open spec fn bound_count(n: nat) -> nat {
    if n > 12 {
        12
    } else {
        n
    }
}

/// The binding for key number `k`: key F`k` sends this plugin instance a
/// private message named F`k`.
pub open spec fn bind_entry(k: nat, plugin_id: u32) -> Seq<char> {
    "        bind \"F"@ + dec_repr(k) + "\" {\n            MessagePluginId "@ + dec_repr(
        plugin_id as nat,
    ) + " {\n                name \"F"@ + dec_repr(k) + "\"\n            }\n        }\n"@
}

/// The bindings for key numbers 1 through `k`, in order.
pub open spec fn bind_entries(k: nat, plugin_id: u32) -> Seq<char>
    decreases k,
{
    if k == 0 {
        Seq::empty()
    } else {
        bind_entries((k - 1) as nat, plugin_id) + bind_entry(k, plugin_id)
    }
}

pub open spec fn keybinds_header() -> Seq<char> {
    "keybinds {\n    shared {\n"@
}

pub open spec fn keybinds_footer() -> Seq<char> {
    "    }\n}\n"@
}

/// The whole shared-keybinds block for `k` bound slots.
pub open spec fn keybinds_block(k: nat, plugin_id: u32) -> Seq<char> {
    keybinds_header() + bind_entries(k, plugin_id) + keybinds_footer()
}

/// No matter how many slots beyond twelve the registry holds, the block
/// binds exactly the first twelve.
pub proof fn lemma_bindings_capped(n: nat, plugin_id: u32)
    requires
        n > 12,
    ensures
        bound_count(n) == 12,
        keybinds_block(bound_count(n), plugin_id) == keybinds_block(12, plugin_id),
{
}

/// An empty registry yields the block with no bindings in it: header and
/// footer alone.
pub proof fn lemma_empty_registry_empty_bindings(plugin_id: u32)
    ensures
        keybinds_block(bound_count(0), plugin_id) == keybinds_header() + keybinds_footer(),
{
    assert(keybinds_header() + bind_entries(0, plugin_id) + keybinds_footer() =~= keybinds_header()
        + keybinds_footer());
}

/// The text block handed to the host's reconfiguration mechanism, and
/// whether slots had to be left unbound for want of function keys.
pub struct KeybindsConfig {
    pub text: String,
    pub truncated: bool,
}

impl State {
    /// Builds the shared-keybinds block for the current slot table: one
    /// binding per slot index present, keys F1 through at most F12,
    /// regardless of resolution state.  `None` while this plugin's own id
    /// is unknown, since each binding addresses that id.  `truncated` says
    /// that slots beyond the twelfth were left unbound, for the caller to
    /// log.
    pub fn bind_keys(&self) -> (r: Option<KeybindsConfig>)
        ensures
            r is Some <==> self.own_plugin_id is Some,
            r matches Some(cfg) ==> self.own_plugin_id matches Some(pid) && cfg.text@
                == keybinds_block(bound_count(self.panes_to_run@.len() as nat), pid)
                && cfg.truncated == (self.panes_to_run@.len() > 12),
    {
        match self.own_plugin_id {
            None => None,
            Some(plugin_id) => {
                let n = self.panes_to_run.len();
                let bound: usize = if n > 12 {
                    12
                } else {
                    n
                };
                let mut text = String::new();
                text.append("keybinds {\n    shared {\n");
                let mut k: usize = 1;
                while k <= bound
                    invariant
                        1 <= k <= bound + 1,
                        bound <= 12,
                        text@ == keybinds_header() + bind_entries((k - 1) as nat, plugin_id),
                    decreases bound + 1 - k,
                {
                    let ghost before = text@;
                    text.append("        bind \"F");
                    push_decimal(&mut text, k as u64);
                    text.append("\" {\n            MessagePluginId ");
                    push_decimal(&mut text, plugin_id as u64);
                    text.append(" {\n                name \"F");
                    push_decimal(&mut text, k as u64);
                    text.append("\"\n            }\n        }\n");
                    proof {
                        assert(text@ =~= before + bind_entry(k as nat, plugin_id));
                        assert(text@ =~= keybinds_header() + bind_entries(k as nat, plugin_id));
                    }
                    k += 1;
                }
                text.append("    }\n}\n");
                proof {
                    assert(bound as nat == bound_count(self.panes_to_run@.len() as nat));
                    assert(text@ =~= keybinds_block(bound as nat, plugin_id));
                }
                Some(KeybindsConfig { text, truncated: n > 12 })
            },
        }
    }
}

} // verus!
