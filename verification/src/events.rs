//! Events that the integration sends to the rest of the application.

use crate::tracking::space::XrOrigin;
use crate::XrMode;
use vstd::prelude::*;

verus! {

/// A session was negotiated and bound, and its frame loop is armed.
#[derive(Clone, Copy, Debug, PartialEq, Eq, Hash, Structural)]
pub struct WebXrSessionInitialized {
    pub mode: XrMode,
    pub origin: XrOrigin,
}

} // verus!
