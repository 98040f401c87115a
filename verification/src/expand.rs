//! Expansion of one choice into a flat, ordered list of downloadable
//! units: paginated traversal of album track listings and artist album
//! listings, and the bulk episode fetch of a podcast feed.

use vstd::prelude::*;

use crate::batch::views_of;
use crate::catalog::{AlbumTrack, ArtistAlbum, Episode};
use crate::choice::{DownloadableUnit, UnitOrigin};
use crate::digits::{i64_string, spec_idigits};

verus! {

/// Page size of album-track and artist-album listings; a page shorter
/// than this ends the traversal.
pub const PAGE_LIMIT: usize = 50;

/// The most episodes fetched for one podcast feed, in a single bulk
/// call.
pub const EPISODE_FETCH_MAX: usize = 1000;

/// One paginated listing traversal in progress: the items collected so
/// far, the offset the next page request must carry, and whether a short
/// page has ended the traversal.
pub struct PageWalk<T> {
    collected: Vec<T>,
    offset: usize,
    done: bool,
}

impl<T> PageWalk<T> {
    /// The items collected so far, in page order.
    pub closed spec fn collected_seq(self) -> Seq<T> {
        self.collected@
    }

    /// The offset the next page request carries.
    pub closed spec fn spec_offset(self) -> int {
        self.offset as int
    }

    /// Whether a short page has ended the traversal.
    pub closed spec fn is_done(self) -> bool {
        self.done
    }

    /// A traversal that has requested nothing yet.
    pub fn new() -> (w: Self)
        ensures
            w.collected_seq() == Seq::<T>::empty(),
            w.spec_offset() == 0,
            !w.is_done(),
    {
        PageWalk { collected: Vec::new(), offset: 0, done: false }
    }

    /// The offset to request the next page at.
    pub fn next_offset(&self) -> (o: usize)
        ensures
            o as int == self.spec_offset(),
    {
        self.offset
    }

    /// Whether the traversal has ended.
    pub fn is_finished(&self) -> (b: bool)
        ensures
            b == self.is_done(),
    {
        self.done
    }

    /// Folds one returned page into the traversal: its items are
    /// appended in order, a short page ends the traversal, and a full
    /// page advances the offset by one page size.
    pub fn absorb(&mut self, page: Vec<T>)
        requires
            !old(self).is_done(),
            old(self).spec_offset() + PAGE_LIMIT <= usize::MAX,
        ensures
            final(self).collected_seq() == old(self).collected_seq() + page@,
            final(self).is_done() <==> page@.len() < PAGE_LIMIT,
            final(self).spec_offset() == if page@.len() < PAGE_LIMIT {
                old(self).spec_offset()
            } else {
                old(self).spec_offset() + PAGE_LIMIT
            },
    {
        let mut page = page;
        let short = page.len() < PAGE_LIMIT;
        self.collected.append(&mut page);
        if short {
            self.done = true;
        } else {
            self.offset += PAGE_LIMIT;
        }
    }

    /// Hands out everything the traversal collected.
    pub fn into_collected(self) -> (r: Vec<T>)
        ensures
            r@ == self.collected_seq(),
    {
        self.collected
    }
}

/// How many pages a traversal requests when the gateway would return
/// these pages in order: up to and including the first short page, or
/// all of them when none is short.
pub open spec fn spec_pages_taken<T>(pages: Seq<Seq<T>>) -> int
    decreases pages.len(),
{
    if pages.len() == 0 {
        0
    } else if pages[0].len() < PAGE_LIMIT {
        1
    } else {
        1 + spec_pages_taken(pages.drop_first())
    }
}

/// What a traversal collects from these pages: the concatenation, in
/// order, of every page up to and including the first short one.
pub open spec fn spec_collect_pages<T>(pages: Seq<Seq<T>>) -> Seq<T>
    decreases pages.len(),
{
    if pages.len() == 0 {
        Seq::empty()
    } else if pages[0].len() < PAGE_LIMIT {
        pages[0]
    } else {
        pages[0] + spec_collect_pages(pages.drop_first())
    }
}

/// Runs one complete paginated traversal against pages already in hand,
/// as a fake gateway would return them: collects every page up to and
/// including the first short one and reports how many pages were
/// requested, never touching a page past the first short one.
pub fn collect_pages<T>(pages: Vec<Vec<T>>) -> (r: (Vec<T>, usize))
    requires
        (pages@.len() + 1) * (PAGE_LIMIT as int) <= usize::MAX as int,
    ensures
        r.0@ == spec_collect_pages(views_of(pages@)),
        r.1 as int == spec_pages_taken(views_of(pages@)),
        r.1 <= pages@.len(),
{
    let ghost all = views_of(pages@);
    let mut rest = pages;
    let mut walk: PageWalk<T> = PageWalk::new();
    let mut taken: usize = 0;
    proof {
        assert(all.skip(0) =~= all);
    }
    while rest.len() > 0 && !walk.is_finished()
        invariant
            taken <= all.len(),
            (all.len() + 1) * (PAGE_LIMIT as int) <= usize::MAX as int,
            views_of(rest@) =~= all.skip(taken as int),
            rest@.len() == all.len() - taken,
            walk.spec_offset() <= taken * (PAGE_LIMIT as int),
            !walk.is_done() ==> walk.collected_seq() + spec_collect_pages(all.skip(taken as int))
                == spec_collect_pages(all) && taken + spec_pages_taken(all.skip(taken as int))
                == spec_pages_taken(all),
            walk.is_done() ==> walk.collected_seq() == spec_collect_pages(all) && taken as int
                == spec_pages_taken(all),
        decreases rest@.len(),
    {
        let ghost tail = all.skip(taken as int);
        let page = rest.remove(0);
        proof {
            assert(tail.len() > 0);
            assert(views_of(rest@) =~= tail.drop_first());
            assert(page@ == tail[0]);
            assert(tail.drop_first() =~= all.skip(taken + 1 as int));
            if page@.len() < PAGE_LIMIT {
                assert(spec_collect_pages(tail) == tail[0]);
                assert(spec_pages_taken(tail) == 1);
            } else {
                assert(spec_collect_pages(tail) == tail[0] + spec_collect_pages(
                    tail.drop_first(),
                ));
                assert(spec_pages_taken(tail) == 1 + spec_pages_taken(tail.drop_first()));
            }
        }
        walk.absorb(page);
        taken += 1;
    }
    proof {
        if !walk.is_done() {
            assert(rest@.len() == 0);
            assert(all.skip(taken as int) =~= Seq::<Seq<T>>::empty());
            assert(spec_collect_pages(all.skip(taken as int)) == Seq::<T>::empty());
            assert(walk.collected_seq() + Seq::<T>::empty() =~= walk.collected_seq());
        }
    }
    let collected = walk.into_collected();
    (collected, taken)
}


proof fn lemma_pages_taken_at_least_one<T>(pages: Seq<Seq<T>>)
    ensures
        spec_pages_taken(pages) >= 0,
        pages.len() > 0 ==> spec_pages_taken(pages) >= 1,
    decreases pages.len(),
{
    if pages.len() > 0 && pages[0].len() >= PAGE_LIMIT as int {
        lemma_pages_taken_at_least_one(pages.drop_first());
    }
}

/// A traversal requests between zero and all pages, every requested page
/// but the last is full, the traversal ends early only on a short page,
/// and what it collects is exactly the concatenation of the requested
/// pages in order.
pub proof fn lemma_pagination_stops_at_first_short_page<T>(pages: Seq<Seq<T>>)
    ensures
        0 <= spec_pages_taken(pages) <= pages.len(),
        forall|j: int|
            0 <= j < spec_pages_taken(pages) - 1 ==> (#[trigger] pages[j]).len()
                >= PAGE_LIMIT as int,
        spec_pages_taken(pages) < pages.len() ==> pages[spec_pages_taken(pages) - 1].len()
            < PAGE_LIMIT as int,
        spec_collect_pages(pages) == pages.take(spec_pages_taken(pages)).flatten(),
    decreases pages.len(),
{
    let t = spec_pages_taken(pages);
    if pages.len() == 0 {
        assert(pages.take(0) =~= Seq::<Seq<T>>::empty());
        assert(spec_collect_pages(pages) =~= pages.take(0).flatten());
    } else if pages[0].len() < PAGE_LIMIT as int {
        assert(t == 1);
        assert(pages.take(1) =~= seq![pages[0]]);
        seq![pages[0]].lemma_flatten_one_element();
        assert(spec_collect_pages(pages) =~= pages.take(1).flatten());
    } else {
        let rest = pages.drop_first();
        lemma_pagination_stops_at_first_short_page(rest);
        let tr = spec_pages_taken(rest);
        assert(t == 1 + tr);
        assert forall|j: int| 0 <= j < t - 1 implies (#[trigger] pages[j]).len()
            >= PAGE_LIMIT as int by {
            if j > 0 {
                assert(pages[j] == rest[j - 1]);
            }
        }
        if t < pages.len() {
            assert(tr < rest.len());
            lemma_pages_taken_at_least_one(rest);
            assert(spec_pages_taken(rest) >= 1);
            assert(rest[tr - 1] == pages[tr]);
            assert(pages[t - 1] == rest[tr - 1]);
        }
        let taken_seq = pages.take(t);
        assert(taken_seq.drop_first() =~= rest.take(tr));
        assert(taken_seq[0] == pages[0]);
        assert(taken_seq.flatten() == pages[0] + rest.take(tr).flatten());
        assert(spec_collect_pages(pages) == pages[0] + spec_collect_pages(rest));
    }
}

/// The unit a track listing entry becomes.
pub open spec fn track_unit(t: AlbumTrack) -> DownloadableUnit {
    DownloadableUnit { id: t.id, origin: UnitOrigin::TrackRef }
}

/// A track choice expands to the single unit carrying its own
/// identifier.
pub fn expand_track(choice_id: &String) -> (us: Vec<DownloadableUnit>)
    ensures
        us@.len() == 1,
        us@[0].id@ == choice_id@,
        us@[0].origin == UnitOrigin::TrackRef,
{
    let mut us: Vec<DownloadableUnit> = Vec::new();
    us.push(DownloadableUnit { id: choice_id.clone(), origin: UnitOrigin::TrackRef });
    us
}

/// Each entry of an album's track listing becomes one unit, in listing
/// order.
pub fn units_of_album_tracks(tracks: &Vec<AlbumTrack>) -> (us: Vec<DownloadableUnit>)
    ensures
        us@ == tracks@.map_values(|t: AlbumTrack| track_unit(t)),
{
    let mut us: Vec<DownloadableUnit> = Vec::new();
    let mut i: usize = 0;
    while i < tracks.len()
        invariant
            i <= tracks@.len(),
            us@ == tracks@.take(i as int).map_values(|t: AlbumTrack| track_unit(t)),
        decreases tracks@.len() - i,
    {
        us.push(DownloadableUnit { id: tracks[i].id.clone(), origin: UnitOrigin::TrackRef });
        proof {
            assert(us@ =~= tracks@.take(i + 1 as int).map_values(|t: AlbumTrack| track_unit(t)));
        }
        i += 1;
    }
    proof {
        assert(tracks@.take(tracks@.len() as int) =~= tracks@);
    }
    us
}

/// The album identifiers of an artist's album listing, in listing order.
pub fn album_ids_of_listing(albums: &Vec<ArtistAlbum>) -> (ids: Vec<String>)
    ensures
        ids@.map_values(|s: String| s@) == albums@.map_values(|a: ArtistAlbum| a.id@),
{
    let mut ids: Vec<String> = Vec::new();
    let mut i: usize = 0;
    while i < albums.len()
        invariant
            i <= albums@.len(),
            ids@.len() == i,
            forall|j: int| 0 <= j < i ==> (#[trigger] ids@[j])@ == albums@[j].id@,
        decreases albums@.len() - i,
    {
        ids.push(albums[i].id.clone());
        i += 1;
    }
    proof {
        assert(ids@.map_values(|s: String| s@) =~= albums@.map_values(|a: ArtistAlbum| a.id@));
    }
    ids
}

/// Each fetched episode becomes one unit carrying the episode's
/// identifier, in provider order; podcast units reference episodes, not
/// tracks.
pub fn units_of_episodes(episodes: &Vec<Episode>) -> (us: Vec<DownloadableUnit>)
    ensures
        us@.len() == episodes@.len(),
        forall|i: int|
            0 <= i < episodes@.len() ==> (#[trigger] us@[i]).id@ == spec_idigits(
                episodes@[i].id as int,
            ) && us@[i].origin == UnitOrigin::EpisodeRef,
{
    let mut us: Vec<DownloadableUnit> = Vec::new();
    let mut i: usize = 0;
    while i < episodes.len()
        invariant
            i <= episodes@.len(),
            us@.len() == i,
            forall|j: int|
                0 <= j < i ==> (#[trigger] us@[j]).id@ == spec_idigits(episodes@[j].id as int)
                    && us@[j].origin == UnitOrigin::EpisodeRef,
        decreases episodes@.len() - i,
    {
        let id = i64_string(episodes[i].id);
        us.push(DownloadableUnit { id, origin: UnitOrigin::EpisodeRef });
        i += 1;
    }
    us
}

} // verus!
