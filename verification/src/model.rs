//! The pieces of the persisted application state that carry no
//! platform-specific payload: the network output settings and the
//! defaults used when a stored state omits a field.

use vstd::prelude::*;

verus! {

/// Network output settings for the pixel data the application emits.
pub struct NetworkConfig {
    pub use_multicast: bool,
    pub unicast_ip: String,
    pub universe: u16,
}

impl Default for NetworkConfig {
    /// Multicast on, a placeholder unicast address, universe 1.
    fn default() -> (r: Self)
        ensures
            r.use_multicast == true,
            r.unicast_ip@ == "192.168.1.50"@,
            r.universe == 1,
    {
        NetworkConfig {
            use_multicast: true,
            unicast_ip: "192.168.1.50".to_owned(),
            universe: 1,
        }
    }
}

/// Category given to a scene stored without one.
pub fn default_category() -> (r: String)
    ensures
        r@ == "Uncategorized"@,
{
    "Uncategorized".to_owned()
}

/// Color channel order given to a strip stored without one.
pub fn default_color_order() -> (r: String)
    ensures
        r@ == "RGB"@,
{
    "RGB".to_owned()
}

/// Whether the controller bridge runs when a stored state does not say.
pub fn default_midi_enabled() -> (r: bool)
    ensures
        r == true,
{
    true
}

} // verus!
