//! How much of a flow could be observed, from the sources that saw it.

use vstd::prelude::*;

use crate::shared::FlowVisibility;

verus! {

/// Decrypted content (from the decryption proxy or from the key log) makes a flow `Fully`
/// visible; otherwise a captured packet makes it `Meta`, an attribution alone `Attrib`, and
/// nothing `Unknown`.
pub open spec fn visibility_of(capture: bool, attribution: bool, decryption: bool, keylog: bool) -> FlowVisibility {
    if decryption || keylog {
        FlowVisibility::Fully
    } else if capture {
        FlowVisibility::Meta
    } else if attribution {
        FlowVisibility::Attrib
    } else {
        FlowVisibility::Unknown
    }
}

pub fn determine_visibility(capture: bool, attribution: bool, decryption: bool, keylog: bool) -> (v:
    FlowVisibility)
    ensures
        v == visibility_of(capture, attribution, decryption, keylog),
{
    if decryption || keylog {
        FlowVisibility::Fully
    } else if capture {
        FlowVisibility::Meta
    } else if attribution {
        FlowVisibility::Attrib
    } else {
        FlowVisibility::Unknown
    }
}

} // verus!
