//! Projection of search hits into the form handed to clients.
use vstd::prelude::*;

use crate::facet::{from_facet_value, path_of};
use crate::text::{join_separated, separated};

verus! {

/// The most documents a search returns.
pub const SEARCH_LIMIT: usize = 10;

/// A search hit as handed to clients.
pub struct Response {
    /// File title.
    pub title: String,
    /// Where the file can be found.
    pub location: Vec<String>,
    /// The content that was indexed from the file.
    pub body: String,
}

/// A document as read back from the index: every stored value of its title,
/// location (encoded facets) and body fields.
pub struct StoredDocument {
    pub titles: Vec<String>,
    pub locations: Vec<String>,
    pub bodies: Vec<String>,
}

/// Projects a stored document: its titles and its bodies each joined with
/// single spaces, its locations decoded into paths.
pub fn project(doc: &StoredDocument) -> (r: Response)
    ensures
        r.title@ == separated(doc.titles.deep_view()),
        r.location.deep_view() == doc.locations.deep_view().map_values(|f: Seq<char>| path_of(f)),
        r.body@ == separated(doc.bodies.deep_view()),
{
    let mut location: Vec<String> = Vec::new();
    let mut i: usize = 0;
    while i < doc.locations.len()
        invariant
            i <= doc.locations.len(),
            location.deep_view() == doc.locations.deep_view().take(i as int).map_values(
                |f: Seq<char>| path_of(f),
            ),
        decreases doc.locations.len() - i,
    {
        let ghost before = location.deep_view();
        location.push(from_facet_value(doc.locations[i].as_str()));
        assert(location.deep_view() =~= before.push(path_of(doc.locations[i as int]@)));
        assert(location.deep_view() =~= doc.locations.deep_view().take(i + 1).map_values(
            |f: Seq<char>| path_of(f),
        ));
        i = i + 1;
    }
    assert(doc.locations.deep_view().take(doc.locations.len() as int) =~= doc.locations.deep_view());
    Response { title: join_separated(&doc.titles), location, body: join_separated(&doc.bodies) }
}

} // verus!
