//! The names under which the embedded images are stored.

use vstd::prelude::*;

verus! {

/// The store of named image assets.
pub struct Assets;

impl Assets {
    /// Name of the contact-list icon.
    pub const WX_CONTACT: &'static str = "微信联系人.png";

    /// Name of the captured screen image.
    pub const SCREEN: &'static str = "screen.png";
}

} // verus!
