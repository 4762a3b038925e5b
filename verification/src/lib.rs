//! Recognition of three-word addresses ("3wa") in free text.
//!
//! A three-word address is three word-groups joined by two dot-like
//! separator characters, such as `filled.count.soap` or `///filled.count.soap`.
//! This crate holds the pure text-recognition engine: deciding whether a
//! string has the 3wa shape (`is_possible_3wa`), whether it is a near miss
//! written with the wrong separators (`did_you_mean`), extracting every
//! 3wa-shaped substring from free text (`find_possible_3wa`), and the
//! decision logic that combines the shape check with the reply of a remote
//! suggestion lookup (`decide_valid_3wa`). The HTTP transport that performs
//! the lookup lives outside this crate and hands replies in as plain values.

pub mod alphabet;
pub mod error;
pub mod options;
pub mod recognizer;
pub mod response;
pub mod shape;
pub mod validation;

pub use alphabet::is_separator;
pub use alphabet::is_word_char;
pub use error::Error;
pub use error::classify_transport_error;
pub use options::ConvertToCoordinates;
pub use options::check_polygon_bounds;
pub use recognizer::did_you_mean;
pub use recognizer::find_possible_3wa;
pub use recognizer::is_possible_3wa;
pub use response::AvailableLanguages;
pub use response::FormattedAddress;
pub use response::FormattedGridSection;
pub use response::Language;
pub use validation::LookupReply;
pub use validation::confirm_reply;
pub use validation::decide_valid_3wa;
