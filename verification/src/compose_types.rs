//! The parts of a normalized compose configuration that are looked at.

use vstd::prelude::*;
use crate::text_map::TextMap;

verus! {

/// A compose configuration: its services by name.
pub struct Compose {
    pub services: TextMap<Option<Service>>,
}

/// A service of a compose configuration.
pub struct Service {
    /// The image that the service runs
    pub image: Option<String>,
    /// The labels of the service's containers
    pub labels: Option<TextMap<String>>,
    /// The profiles that the service belongs to
    pub profiles: Option<Vec<String>>,
}

} // verus!
