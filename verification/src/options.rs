//! Request options that are plain data: the convert-to-coordinates
//! builder and the bounds rule for clipping polygons.
//!
//! Building query-parameter maps is plumbing around the engine, but the
//! values themselves are plain strings, so the builders are verified here.
//! Options that carry coordinates stay with the transport.

use std::collections::HashMap;

use vstd::prelude::*;

use crate::error::Error;

verus! {

/// Options of a convert-to-coordinates request: the words of the address
/// to look up, and an optional locale.
#[derive(Debug, Clone)]
pub struct ConvertToCoordinates {
    pub locale: Option<String>,
    pub words: Option<String>,
}

impl ConvertToCoordinates {
    /// Starts a request for the given address words, with no locale.
    pub fn new(words: &str) -> (r: Self)
        ensures
            r.locale is None,
            r.words matches Some(w) && w@ == words@,
    {
        ConvertToCoordinates { locale: None, words: Some(words.to_owned()) }
    }

    /// Sets the locale, keeping the words.
    pub fn locale(self, locale: &str) -> (r: Self)
        ensures
            r.words == self.words,
            r.locale matches Some(l) && l@ == locale@,
    {
        ConvertToCoordinates { locale: Some(locale.to_owned()), words: self.words }
    }

    /// The request parameters as key-value pairs: `locale` first when set,
    /// then `words` when set.
    pub fn query_pairs(&self) -> (r: Vec<(String, String)>)
        ensures
            r@.len() == (if self.locale is Some {
                1int
            } else {
                0int
            }) + (if self.words is Some {
                1int
            } else {
                0int
            }),
            self.locale matches Some(l) ==> r@[0].0@ == "locale"@ && r@[0].1@ == l@,
            self.words matches Some(w) ==> {
                let idx = if self.locale is Some {
                    1int
                } else {
                    0int
                };
                r@[idx].0@ == "words"@ && r@[idx].1@ == w@
            },
    {
        let mut r: Vec<(String, String)> = Vec::new();
        if let Some(locale) = &self.locale {
            r.push(("locale".to_owned(), locale.clone()));
        }
        if let Some(words) = &self.words {
            r.push(("words".to_owned(), words.clone()));
        }
        r
    }

    /// The request parameters as a hash map, as the transport sends them.
    ///
    /// vstd gives string-keyed hash maps no content model, so the exact
    /// statement of which pairs are produced lives on [`Self::query_pairs`],
    /// which this function inserts one by one; these options are always
    /// well-formed, so the result is always `Ok`.
    pub fn to_hash_map(&self) -> (r: Result<HashMap<String, String>, Error>)
        ensures
            r is Ok,
    {
        let mut map: HashMap<String, String> = HashMap::new();
        let pairs = self.query_pairs();
        for pair in pairs.into_iter() {
            map.insert(pair.0, pair.1);
        }
        Ok(map)
    }
}

/// The rule for a clipping polygon: the service accepts a ring of 4 to 25
/// points whose first and last coordinates coincide. The caller hands in
/// the point count and whether the ring is closed; the coordinates
/// themselves never enter the library.
pub fn check_polygon_bounds(n_points: usize, closed: bool) -> (r: Result<(), Error>)
    ensures
        r is Ok <==> (4 <= n_points <= 25 && closed),
        n_points < 4 ==> (r matches Err(Error::InvalidParameter(m)) && m@
            == "A polygon must have at least 4 coordinates."@),
        n_points > 25 ==> (r matches Err(Error::InvalidParameter(m)) && m@
            == "A polygon must have no more than 25 coordinates."@),
        4 <= n_points <= 25 && !closed ==> (r matches Err(Error::InvalidParameter(m)) && m@
            == "The first and last coordinates must be the same to form a closed polygon."@),
{
    if n_points < 4 {
        return Err(Error::InvalidParameter("A polygon must have at least 4 coordinates.".to_owned()));
    }
    if n_points > 25 {
        return Err(
            Error::InvalidParameter("A polygon must have no more than 25 coordinates.".to_owned()),
        );
    }
    if !closed {
        return Err(
            Error::InvalidParameter(
                "The first and last coordinates must be the same to form a closed polygon.".to_owned(),
            ),
        );
    }
    Ok(())
}

} // verus!
