//! Space identifiers: the broadcast scopes. A space is named by a UUID; the
//! engine keeps it in its canonical hyphenated text form and compares spaces
//! by that text.

use vstd::prelude::*;

verus! {

/// What canonicalising a UUID text yields: `None` on text that is not a UUID
/// in any accepted form, the canonical lowercase hyphenated rendering
/// otherwise.
pub uninterp spec fn uuid_canon_of(s: Seq<char>) -> Option<Seq<char>>;

/// Relies on `uuid::Uuid::parse_str` and `Uuid::hyphenated`: parsing succeeds
/// exactly on the textual UUID forms the crate accepts, and the hyphenated
/// rendering is the canonical 36-character lowercase form, a function of the
/// input alone.
#[verifier::external_body]
fn uuid_canonical(s: &str) -> (r: Option<String>)
    ensures
        match r {
            Some(c) => uuid_canon_of(s@) == Some(c@) && c@.len() == 36,
            None => uuid_canon_of(s@) is None,
        },
{
    match uuid::Uuid::parse_str(s) {
        Ok(u) => Some(u.hyphenated().to_string()),
        Err(_) => None,
    }
}

/// A broadcast scope, held as the canonical text of its UUID. A session
/// belongs to exactly one space for its whole lifetime.
#[derive(Debug)]
pub struct SpaceId {
    text: String,
}

impl View for SpaceId {
    type V = Seq<char>;

    closed spec fn view(&self) -> Seq<char> {
        self.text@
    }
}

impl Clone for SpaceId {
    fn clone(&self) -> (r: Self)
        ensures
            r@ == self@,
    {
        SpaceId { text: self.text.clone() }
    }
}

impl SpaceId {
    /// Parses a space identifier out of the handshake text; two texts naming
    /// the same UUID yield equal `SpaceId` values.
    pub fn parse(s: &str) -> (r: Option<SpaceId>)
        ensures
            match r {
                Some(sp) => uuid_canon_of(s@) == Some(sp@),
                None => uuid_canon_of(s@) is None,
            },
    {
        match uuid_canonical(s) {
            Some(text) => Some(SpaceId { text }),
            None => None,
        }
    }

    /// Whether two sessions share a broadcast scope.
    pub fn same(&self, other: &SpaceId) -> (r: bool)
        ensures
            r == (self@ == other@),
    {
        self.text == other.text
    }

    /// The canonical text of the space's UUID.
    pub fn as_text(&self) -> (r: &str)
        ensures
            r@ == self@,
    {
        self.text.as_str()
    }
}

} // verus!
