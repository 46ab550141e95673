//! Moderation response data.

use vstd::prelude::*;

verus! {

/// One value for each content-policy category of a moderation result.
#[derive(Debug, Clone)]
pub struct Categories<T> {
    pub hate: T,
    pub hate_threatening: T,
    pub self_harm: T,
    pub sexual: T,
    pub sexual_minors: T,
    pub violence: T,
    pub violence_graphic: T,
}

} // verus!
