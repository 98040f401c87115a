//! Grouping of downloadable units into fixed-size batches, and the joined
//! identifier string a batch is submitted under.

use vstd::prelude::*;

use crate::choice::DownloadableUnit;

verus! {

/// Batch size used when an album expansion is dispatched and no size is
/// configured.
pub const DEFAULT_ALBUM_WORKER_SIZE: usize = 5;

/// Batch size used when an artist expansion is dispatched and no size is
/// configured.
pub const DEFAULT_ARTIST_WORKER_SIZE: usize = 4;

/// The sequence of views of a vector of vectors.
pub open spec fn views_of<T>(v: Seq<Vec<T>>) -> Seq<Seq<T>> {
    v.map_values(|x: Vec<T>| x@)
}

/// The chunks of `s` of `size` elements each, in order; the last chunk may
/// be shorter, and an empty sequence has no chunks.
pub open spec fn spec_chunks<T>(s: Seq<T>, size: int) -> Seq<Seq<T>>
    recommends
        size >= 1,
    decreases s.len() when size >= 1
{
    if s.len() == 0 {
        Seq::empty()
    } else if s.len() <= size {
        seq![s]
    } else {
        seq![s.take(size)] + spec_chunks(s.skip(size), size)
    }
}

/// Concatenating all chunks of a sequence, in order, gives back the
/// sequence itself.
pub proof fn lemma_chunks_concat<T>(s: Seq<T>, size: int)
    requires
        size >= 1,
    ensures
        spec_chunks(s, size).flatten() == s,
    decreases s.len(),
{
    if s.len() == 0 {
        assert(spec_chunks(s, size).flatten() =~= s);
    } else if s.len() <= size {
        seq![s].lemma_flatten_one_element();
        assert(spec_chunks(s, size).flatten() =~= s);
    } else {
        lemma_chunks_concat(s.skip(size), size);
        let rest = spec_chunks(s.skip(size), size);
        let whole = seq![s.take(size)] + rest;
        assert(whole.drop_first() =~= rest);
        assert(whole.first() == s.take(size));
        assert(whole.flatten() == s.take(size) + rest.flatten());
        assert(s.take(size) + s.skip(size) =~= s);
    }
}

/// Every chunk except possibly the last has exactly `size` elements; the
/// last has between one and `size`; and only an empty sequence has no
/// chunks.
pub proof fn lemma_chunks_sizes<T>(s: Seq<T>, size: int)
    requires
        size >= 1,
    ensures
        forall|i: int|
            0 <= i < spec_chunks(s, size).len() - 1 ==> (#[trigger] spec_chunks(s, size)[i]).len()
                == size,
        spec_chunks(s, size).len() > 0 ==> 1 <= spec_chunks(s, size).last().len() <= size,
        s.len() == 0 <==> spec_chunks(s, size).len() == 0,
    decreases s.len(),
{
    if s.len() > size {
        lemma_chunks_sizes(s.skip(size), size);
        let rest = spec_chunks(s.skip(size), size);
        let whole = spec_chunks(s, size);
        assert(whole == seq![s.take(size)] + rest);
        assert forall|i: int| 0 <= i < whole.len() - 1 implies (#[trigger] whole[i]).len()
            == size by {
            if i > 0 {
                assert(whole[i] == rest[i - 1]);
            }
        }
        assert(whole.last() == rest.last());
    }
}

/// Splits `units` into batches of at most `size` units, preserving order:
/// the concatenation of the batches equals the input, every batch except
/// possibly the last holds exactly `size` units, and no units means no
/// batches.
pub fn batch(units: &Vec<DownloadableUnit>, size: usize) -> (batches: Vec<Vec<DownloadableUnit>>)
    requires
        size >= 1,
    ensures
        views_of(batches@) == spec_chunks(units@, size as int),
{
    let n: usize = units.len();
    let mut batches: Vec<Vec<DownloadableUnit>> = Vec::new();
    let mut i: usize = 0;
    proof {
        assert(units@.skip(0) =~= units@);
        assert(views_of(batches@) + spec_chunks(units@.skip(0), size as int) =~= spec_chunks(
            units@,
            size as int,
        ));
    }
    while i < n
        invariant
            size >= 1,
            i <= n == units@.len(),
            views_of(batches@) + spec_chunks(units@.skip(i as int), size as int) == spec_chunks(
                units@,
                size as int,
            ),
        decreases n - i,
    {
        let take: usize = if size < n - i {
            size
        } else {
            n - i
        };
        let mut b: Vec<DownloadableUnit> = Vec::new();
        let mut j: usize = 0;
        while j < take
            invariant
                i + take <= n == units@.len(),
                j <= take,
                b@ == units@.subrange(i as int, i + j as int),
            decreases take - j,
        {
            b.push(units[i + j].clone());
            proof {
                assert(b@ =~= units@.subrange(i as int, i + j + 1 as int));
            }
            j += 1;
        }
        proof {
            let tail = units@.skip(i as int);
            assert(b@ =~= tail.take(take as int));
            if n - i <= size {
                assert(tail.len() <= size as int);
                assert(b@ =~= tail);
                assert(units@.skip(i + take as int) =~= Seq::<DownloadableUnit>::empty());
                assert(spec_chunks(tail, size as int) =~= seq![b@] + spec_chunks(
                    units@.skip(i + take as int),
                    size as int,
                ));
            } else {
                assert(tail.skip(size as int) =~= units@.skip(i + take as int));
                assert(spec_chunks(tail, size as int) == seq![b@] + spec_chunks(
                    units@.skip(i + take as int),
                    size as int,
                ));
            }
            assert(views_of(batches@.push(b)) =~= views_of(batches@).push(b@));
            assert(views_of(batches@).push(b@) + spec_chunks(
                units@.skip(i + take as int),
                size as int,
            ) =~= views_of(batches@) + spec_chunks(units@.skip(i as int), size as int));
        }
        batches.push(b);
        i += take;
    }
    proof {
        assert(units@.skip(n as int) =~= Seq::<DownloadableUnit>::empty());
        assert(views_of(batches@) + spec_chunks(units@.skip(n as int), size as int) =~= views_of(
            batches@,
        ));
    }
    batches
}

/// The unit identifiers of a batch joined with a comma between each pair,
/// as carried by one execution job.
pub open spec fn spec_join_ids(units: Seq<DownloadableUnit>) -> Seq<char>
    decreases units.len(),
{
    if units.len() == 0 {
        Seq::empty()
    } else if units.len() == 1 {
        units[0].id@
    } else {
        spec_join_ids(units.drop_last()) + seq![','] + units.last().id@
    }
}

/// Joins the identifiers of a batch's units with commas.
pub fn join_ids(units: &Vec<DownloadableUnit>) -> (r: String)
    ensures
        r@ == spec_join_ids(units@),
{
    let mut r = String::new();
    let mut i: usize = 0;
    proof {
        reveal_strlit(",");
        assert(","@ =~= seq![',']);
    }
    while i < units.len()
        invariant
            i <= units@.len(),
            r@ == spec_join_ids(units@.take(i as int)),
            ","@ == seq![','],
        decreases units@.len() - i,
    {
        if i > 0 {
            r.append(",");
        }
        r.append(units[i].id.as_str());
        proof {
            let prev = units@.take(i as int);
            let cur = units@.take(i + 1 as int);
            assert(cur.drop_last() =~= prev);
            assert(cur.last() == units@[i as int]);
            if i == 0 {
                assert(r@ =~= spec_join_ids(cur));
            } else {
                assert(r@ =~= spec_join_ids(cur));
            }
        }
        i += 1;
    }
    proof {
        assert(units@.take(units@.len() as int) =~= units@);
    }
    r
}

} // verus!
