//! Resolution of a download request: consume the session, pair each
//! supplied index with its group by position, and keep the choices the
//! valid indices select. Out-of-range indices are skipped, not fatal.

use vstd::prelude::*;

use crate::choice::Choice;
use crate::session::{Groups, SessionStore};

verus! {

/// Why a download request was refused.
#[derive(Clone, Copy, PartialEq, Eq, Structural, Debug)]
pub enum DownloadError {
    /// The session identifier is absent or was already consumed.
    SessionNotFound,
}

impl DownloadError {
    /// The caller-presentable rendering of this error.
    pub fn message(&self) -> (m: String)
        ensures
            m@ == "Session not found"@,
    {
        String::from_str("Session not found")
    }
}

/// The choices the (index, group) pairs select: pairs are formed by
/// position, a pair whose index is out of range for its group
/// contributes nothing, and unpaired indices or groups are ignored.
pub open spec fn spec_resolve(groups: Seq<Vec<Choice>>, indices: Seq<usize>) -> Seq<Choice>
    decreases indices.len(),
{
    if indices.len() == 0 || groups.len() == 0 {
        Seq::empty()
    } else {
        let head: Seq<Choice> = if (indices[0] as int) < groups[0]@.len() {
            seq![groups[0]@[indices[0] as int]]
        } else {
            Seq::empty()
        };
        head + spec_resolve(groups.drop_first(), indices.drop_first())
    }
}

/// Pairs each index with its group by position and collects the chosen
/// choices, in pair order, skipping out-of-range indices.
pub fn resolve_choices(groups: &Vec<Vec<Choice>>, indices: &Vec<usize>) -> (r: Vec<Choice>)
    ensures
        r@ == spec_resolve(groups@, indices@),
{
    let mut r: Vec<Choice> = Vec::new();
    let n: usize = if groups.len() < indices.len() {
        groups.len()
    } else {
        indices.len()
    };
    let mut k: usize = 0;
    proof {
        assert(groups@.skip(0) =~= groups@);
        assert(indices@.skip(0) =~= indices@);
    }
    while k < n
        invariant
            k <= n,
            n == if groups@.len() < indices@.len() {
                groups@.len()
            } else {
                indices@.len()
            },
            r@ + spec_resolve(groups@.skip(k as int), indices@.skip(k as int)) == spec_resolve(
                groups@,
                indices@,
            ),
        decreases n - k,
    {
        let ghost gs = groups@.skip(k as int);
        let ghost is = indices@.skip(k as int);
        proof {
            assert(gs[0] == groups@[k as int]);
            assert(is[0] == indices@[k as int]);
            assert(gs.drop_first() =~= groups@.skip(k + 1 as int));
            assert(is.drop_first() =~= indices@.skip(k + 1 as int));
        }
        let idx: usize = indices[k];
        if idx < groups[k].len() {
            r.push(groups[k][idx].clone());
            proof {
                assert(spec_resolve(gs, is) == seq![groups@[k as int]@[idx as int]]
                    + spec_resolve(gs.drop_first(), is.drop_first()));
                assert(r@ + spec_resolve(
                    groups@.skip(k + 1 as int),
                    indices@.skip(k + 1 as int),
                ) =~= spec_resolve(groups@, indices@));
            }
        } else {
            proof {
                assert(spec_resolve(gs, is) == Seq::<Choice>::empty() + spec_resolve(
                    gs.drop_first(),
                    is.drop_first(),
                ));
                assert(Seq::<Choice>::empty() + spec_resolve(
                    gs.drop_first(),
                    is.drop_first(),
                ) =~= spec_resolve(gs.drop_first(), is.drop_first()));
                assert(r@ + spec_resolve(
                    groups@.skip(k + 1 as int),
                    indices@.skip(k + 1 as int),
                ) =~= spec_resolve(groups@, indices@));
            }
        }
        k += 1;
    }
    proof {
        let gs = groups@.skip(k as int);
        let is = indices@.skip(k as int);
        assert(gs.len() == 0 || is.len() == 0);
        assert(spec_resolve(gs, is) == Seq::<Choice>::empty());
        assert(r@ + spec_resolve(gs, is) =~= r@);
    }
    r
}

/// Resolves one download request against the session registry: consumes
/// the session exactly once and returns the choices its groups and the
/// supplied indices select, or reports that the session is absent or
/// already consumed, in which case nothing changes and no work starts.
pub fn begin_download(store: &mut SessionStore, session_id: &String, indices: &Vec<usize>) -> (r:
    Result<Vec<Choice>, DownloadError>)
    requires
        old(store).wf(),
    ensures
        final(store).wf(),
        final(store).lookup(session_id@) is None,
        forall|id2: Seq<char>|
            id2 != session_id@ ==> final(store).lookup(id2) == old(store).lookup(id2),
        old(store).lookup(session_id@) matches Some(g) ==> r matches Ok(cs) && cs@ == spec_resolve(
            g@,
            indices@,
        ),
        old(store).lookup(session_id@) is None ==> r == Err::<Vec<Choice>, DownloadError>(
            DownloadError::SessionNotFound,
        ) && *final(store) == *old(store),
{
    let taken: Option<Groups> = store.take(session_id);
    match taken {
        Some(groups) => Ok(resolve_choices(&groups, indices)),
        None => Err(DownloadError::SessionNotFound),
    }
}

} // verus!
