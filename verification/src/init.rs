//! Device initializer decisions: when an enumeration attempt is good
//! enough to act on, and the mode-switch handshake the selected output
//! port must receive before the hardware accepts color commands.
//!
//! The platform may report a port list before per-port names resolve, so
//! enumeration is retried a bounded number of times; the first attempt
//! where any port (either direction) yields a readable name is accepted,
//! else the last attempt's list is used.

use vstd::prelude::*;

verus! {

/// How many enumeration attempts are made while waiting for port
/// metadata to settle.
pub const ENUMERATION_ATTEMPTS: u32 = 3;

/// Pause between enumeration attempts after the first, in milliseconds.
pub const ENUMERATION_PAUSE_MS: u64 = 500;

/// Settle delay after the mode-switch send, in milliseconds: the
/// hardware's internal mode switch is not instantaneous.
pub const MODE_SWITCH_SETTLE_MS: u64 = 100;

/// Delay before re-entering a connection attempt after a failure, in
/// seconds.
pub const RETRY_DELAY_SECS: u64 = 2;

/// Some candidate of the list has a readable name.
pub open spec fn any_readable(names: Seq<Option<Seq<char>>>) -> bool {
    exists|i: int| 0 <= i < names.len() && names[i] is Some
}

fn any_name_readable(names: &Vec<Option<String>>) -> (r: bool)
    ensures
        r == any_readable(names.deep_view()),
{
    let ghost dv = names.deep_view();
    let mut i: usize = 0;
    while i < names.len()
        invariant
            dv == names.deep_view(),
            dv.len() == names.len(),
            i <= names.len(),
            forall|k: int| 0 <= k < i ==> dv[k] is None,
        decreases names.len() - i,
    {
        proof {
            assert(dv[i as int] == names@[i as int].deep_view());
        }
        if names[i].is_some() {
            return true;
        }
        i = i + 1;
    }
    false
}

/// Whether an enumeration attempt is accepted: at least one port of
/// either direction yields a readable name. An attempt that fails this
/// is retried, up to the bounded number of attempts.
pub fn attempt_has_readable_name(
    in_names: &Vec<Option<String>>,
    out_names: &Vec<Option<String>>,
) -> (r: bool)
    ensures
        r == (any_readable(in_names.deep_view()) || any_readable(out_names.deep_view())),
{
    any_name_readable(in_names) || any_name_readable(out_names)
}

/// The vendor System-Exclusive sequence that switches the controller
/// into its addressable mode.
pub open spec fn mode_switch_bytes() -> Seq<u8> {
    seq![0xF0u8, 0x00u8, 0x20u8, 0x29u8, 0x02u8, 0x0Du8, 0x0Eu8, 0x01u8, 0xF7u8]
}

/// The mode-switch handshake message, sent once per session on the
/// selected output port, before any color command.
pub fn mode_switch_message() -> (r: Vec<u8>)
    ensures
        r@ == mode_switch_bytes(),
{
    let mut r: Vec<u8> = Vec::new();
    r.push(0xF0);
    r.push(0x00);
    r.push(0x20);
    r.push(0x29);
    r.push(0x02);
    r.push(0x0D);
    r.push(0x0E);
    r.push(0x01);
    r.push(0xF7);
    proof {
        assert(r@ =~= mode_switch_bytes());
    }
    r
}

} // verus!
