//! Reply data that is plain values, and the format tags of response types.

use vstd::prelude::*;

verus! {

/// One language the service can answer in.
#[derive(Debug, Clone)]
pub struct Language {
    pub native_name: String,
    pub code: String,
    pub name: String,
}

/// The reply of an available-languages request.
#[derive(Debug, Clone)]
pub struct AvailableLanguages {
    pub languages: Vec<Language>,
}

/// An address response type names the wire format the service must be
/// asked for, `json` or `geojson`.
pub trait FormattedAddress {
    fn format() -> &'static str;
}

/// A grid-section response type names the wire format the service must be
/// asked for, `json` or `geojson`.
pub trait FormattedGridSection {
    fn format() -> &'static str;
}

} // verus!
