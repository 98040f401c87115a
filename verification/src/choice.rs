//! The selectable candidates surfaced to a user after a search, and the
//! atomic downloadable units they expand into.

use vstd::prelude::*;

verus! {

/// The four kinds of candidate a search can surface.
#[derive(Clone, Copy, PartialEq, Eq, Structural, Debug)]
pub enum ChoiceKind {
    Track,
    Album,
    Artist,
    Podcast,
}

/// One selectable candidate. The identifier is opaque: the core never
/// interprets it beyond routing by `kind`.
#[derive(Debug)]
pub struct Choice {
    pub kind: ChoiceKind,
    pub id: String,
}

impl Clone for Choice {
    fn clone(&self) -> (r: Self)
        ensures
            r == *self,
    {
        Choice { kind: self.kind, id: self.id.clone() }
    }
}

/// Whether a downloadable unit refers to a catalog track or to a podcast
/// episode. Job construction downstream branches on this origin.
#[derive(Clone, Copy, PartialEq, Eq, Structural, Debug)]
pub enum UnitOrigin {
    TrackRef,
    EpisodeRef,
}

/// The atomic item one execution job processes: a single playable track
/// or episode.
#[derive(Debug)]
pub struct DownloadableUnit {
    pub id: String,
    pub origin: UnitOrigin,
}

impl Clone for DownloadableUnit {
    fn clone(&self) -> (r: Self)
        ensures
            r == *self,
    {
        DownloadableUnit { id: self.id.clone(), origin: self.origin }
    }
}

} // verus!
