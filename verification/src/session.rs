//! The process-wide registry mapping an opaque session identifier to the
//! nested selection choices a prior search produced. A session is
//! readable exactly once: `take` removes the entry it returns, so a
//! second read of the same identifier fails like one that never existed.

use vstd::prelude::*;

use crate::choice::Choice;
use crate::ids::fresh_uuid;

verus! {

/// The groups of one session: one ordered choice list per input title
/// line.
pub type Groups = Vec<Vec<Choice>>;

/// The registry of pending sessions. Access is serialized outside this
/// crate by one exclusive lock; the operations here are the O(1)-ish
/// critical sections that lock protects.
pub struct SessionStore {
    entries: Vec<(String, Groups)>,
}

/// The groups stored under the first entry whose identifier is `id`, if
/// any.
pub closed spec fn seq_lookup(s: Seq<(String, Groups)>, id: Seq<char>) -> Option<Groups>
    decreases s.len(),
{
    if s.len() == 0 {
        None
    } else if s[0].0@ == id {
        Some(s[0].1)
    } else {
        seq_lookup(s.drop_first(), id)
    }
}

impl SessionStore {
    /// No two entries share an identifier.
    pub closed spec fn wf(self) -> bool {
        forall|i: int, j: int|
            0 <= i < j < self.entries@.len() ==> (#[trigger] self.entries@[i]).0@ != (
            #[trigger] self.entries@[j]).0@
    }

    /// The groups stored under `id`, if any.
    pub closed spec fn lookup(self, id: Seq<char>) -> Option<Groups> {
        seq_lookup(self.entries@, id)
    }

    /// Whether a session with this identifier is pending.
    pub open spec fn contains_id(self, id: Seq<char>) -> bool {
        self.lookup(id) is Some
    }

    /// An empty registry: no identifier is pending.
    pub fn new() -> (s: Self)
        ensures
            s.wf(),
            forall|id: Seq<char>| s.lookup(id) == None::<Groups>,
    {
        let s = SessionStore { entries: Vec::new() };
        proof {
            assert forall|id: Seq<char>| s.lookup(id) == None::<Groups> by {
                assert(s.entries@.len() == 0);
            }
        }
        s
    }

    /// Stores `groups` under `id`, replacing any entry that identifier
    /// already had; every other identifier keeps its groups.
    pub fn insert(&mut self, id: String, groups: Groups)
        requires
            old(self).wf(),
        ensures
            final(self).wf(),
            final(self).lookup(id@) == Some(groups),
            forall|id2: Seq<char>|
                id2 != id@ ==> final(self).lookup(id2) == old(self).lookup(id2),
    {
        let ghost pre = self.entries@;
        let mut i: usize = 0;
        let mut found: bool = false;
        while i < self.entries.len() && !found
            invariant
                old(self).wf(),
                self.entries@ == pre,
                i <= pre.len(),
                !found ==> forall|j: int| 0 <= j < i ==> (#[trigger] pre[j]).0@ != id@,
                found ==> i < pre.len() && pre[i as int].0@ == id@,
            decreases pre.len() - i + (if found { 0int } else { 1int }),
        {
            if self.entries[i].0 == id {
                found = true;
            } else {
                i += 1;
            }
        }
        if found {
            let _ = self.entries.remove(i);
            proof {
                lemma_remove_keeps_wf(pre, i as int);
                assert forall|k: int| 0 <= k < self.entries@.len() implies (
                #[trigger] self.entries@[k]).0@ != id@ by {
                    if k < i {
                        assert(self.entries@[k] == pre[k]);
                    } else {
                        assert(self.entries@[k] == pre[k + 1]);
                    }
                }
            }
        } else {
            proof {
                assert forall|k: int| 0 <= k < self.entries@.len() implies (
                #[trigger] self.entries@[k]).0@ != id@ by {}
            }
        }
        let ghost mid = self.entries@;
        proof {
            lemma_no_key_lookup_none(mid, id@);
        }
        self.entries.push((id, groups));
        proof {
            lemma_push_lookup(mid, (id, groups), id@);
            assert forall|id2: Seq<char>| id2 != id@ implies self.lookup(id2) == seq_lookup(
                mid,
                id2,
            ) by {
                lemma_push_lookup(mid, (id, groups), id2);
            }
            if found {
                assert forall|id2: Seq<char>| id2 != id@ implies seq_lookup(mid, id2)
                    == seq_lookup(pre, id2) by {
                    lemma_remove_other_key(pre, i as int, id2);
                }
            }
            assert forall|a: int, b: int|
                0 <= a < b < self.entries@.len() implies (#[trigger] self.entries@[a]).0@ != (
            #[trigger] self.entries@[b]).0@ by {
                if b == self.entries@.len() - 1 {
                    assert(self.entries@[a] == mid[a]);
                    assert(self.entries@[b].0@ == id@);
                }
            }
        }
    }

    /// Removes and returns the groups stored under `id`: the atomic
    /// remove-and-return that enforces single use. Returns `None`, and
    /// changes nothing, when the identifier is absent or already
    /// consumed.
    pub fn take(&mut self, id: &String) -> (r: Option<Groups>)
        requires
            old(self).wf(),
        ensures
            take_post(*old(self), *final(self), id@, r),
    {
        let ghost pre = self.entries@;
        let mut i: usize = 0;
        while i < self.entries.len()
            invariant
                old(self).wf(),
                *self == *old(self),
                self.entries@ == pre,
                i <= pre.len(),
                forall|j: int| 0 <= j < i ==> (#[trigger] pre[j]).0@ != id@,
            decreases pre.len() - i,
        {
            if self.entries[i].0 == *id {
                proof {
                    lemma_prefix_no_key_lookup(pre, i as int, id@);
                    assert(pre.skip(i as int)[0] == pre[i as int]);
                }
                let entry = self.entries.remove(i);
                proof {
                    lemma_remove_keeps_wf(pre, i as int);
                    assert(old(self).wf());
                    assert forall|k: int| 0 <= k < self.entries@.len() implies (
                    #[trigger] self.entries@[k]).0@ != id@ by {
                        if k < i {
                            assert(self.entries@[k] == pre[k]);
                        } else {
                            assert(self.entries@[k] == pre[k + 1]);
                        }
                    }
                    lemma_no_key_lookup_none(self.entries@, id@);
                    assert forall|id2: Seq<char>| id2 != id@ implies self.lookup(id2)
                        == seq_lookup(pre, id2) by {
                        lemma_remove_other_key(pre, i as int, id2);
                    }
                }
                return Some(entry.1);
            }
            i += 1;
        }
        proof {
            lemma_no_key_lookup_none(pre, id@);
        }
        None
    }

    /// Builds the choices of a fresh session: stores `groups` under a
    /// newly generated random identifier and returns that identifier.
    pub fn create(&mut self, groups: Groups) -> (id: String)
        requires
            old(self).wf(),
        ensures
            final(self).wf(),
            id@.len() == 36,
            final(self).lookup(id@) == Some(groups),
            forall|id2: Seq<char>|
                id2 != id@ ==> final(self).lookup(id2) == old(self).lookup(id2),
    {
        let id = fresh_uuid();
        self.insert(id.clone(), groups);
        id
    }
}

/// What `take` guarantees: the result is exactly what the identifier
/// held, the identifier holds nothing afterwards, every other identifier
/// is untouched, and an absent identifier changes nothing.
pub open spec fn take_post(
    pre: SessionStore,
    post: SessionStore,
    id: Seq<char>,
    r: Option<Groups>,
) -> bool {
    &&& post.wf()
    &&& r == pre.lookup(id)
    &&& post.lookup(id) == None::<Groups>
    &&& forall|id2: Seq<char>| id2 != id ==> post.lookup(id2) == pre.lookup(id2)
    &&& (pre.lookup(id) is None ==> post == pre)
}

/// A session is readable exactly once: of two consecutive `take` calls on
/// the same identifier, the first returns the stored groups and the
/// second finds nothing.
pub proof fn lemma_session_single_use(
    s0: SessionStore,
    s1: SessionStore,
    s2: SessionStore,
    id: Seq<char>,
    r1: Option<Groups>,
    r2: Option<Groups>,
)
    requires
        s0.contains_id(id),
        take_post(s0, s1, id, r1),
        take_post(s1, s2, id, r2),
    ensures
        r1 == s0.lookup(id),
        r1 is Some,
        r2 is None,
{
}

proof fn lemma_no_key_lookup_none(s: Seq<(String, Groups)>, id: Seq<char>)
    requires
        forall|k: int| 0 <= k < s.len() ==> (#[trigger] s[k]).0@ != id,
    ensures
        seq_lookup(s, id) == None::<Groups>,
    decreases s.len(),
{
    if s.len() > 0 {
        assert(s[0].0@ != id);
        assert forall|k: int| 0 <= k < s.drop_first().len() implies (
        #[trigger] s.drop_first()[k]).0@ != id by {
            assert(s.drop_first()[k] == s[k + 1]);
        }
        lemma_no_key_lookup_none(s.drop_first(), id);
    }
}

/// When the first `i` entries do not carry `id`, the lookup is decided by
/// the rest.
proof fn lemma_prefix_no_key_lookup(s: Seq<(String, Groups)>, i: int, id: Seq<char>)
    requires
        0 <= i <= s.len(),
        forall|j: int| 0 <= j < i ==> (#[trigger] s[j]).0@ != id,
    ensures
        seq_lookup(s, id) == seq_lookup(s.skip(i), id),
    decreases i,
{
    if i > 0 {
        assert(s[0].0@ != id);
        assert forall|j: int| 0 <= j < i - 1 implies (#[trigger] s.drop_first()[j]).0@
            != id by {
            assert(s.drop_first()[j] == s[j + 1]);
        }
        lemma_prefix_no_key_lookup(s.drop_first(), i - 1, id);
        assert(s.drop_first().skip(i - 1) =~= s.skip(i));
    } else {
        assert(s.skip(0) =~= s);
    }
}

/// Removing an entry whose key is not `id` leaves the lookup of `id`
/// unchanged.
proof fn lemma_remove_other_key(s: Seq<(String, Groups)>, i: int, id: Seq<char>)
    requires
        0 <= i < s.len(),
        s[i].0@ != id,
    ensures
        seq_lookup(s.remove(i), id) == seq_lookup(s, id),
    decreases s.len(),
{
    if i == 0 {
        assert(s.remove(0) =~= s.drop_first());
    } else {
        assert(s.remove(i)[0] == s[0]);
        if s[0].0@ == id {
        } else {
            lemma_remove_other_key(s.drop_first(), i - 1, id);
            assert(s.drop_first().remove(i - 1) =~= s.remove(i).drop_first());
        }
    }
}

/// Removing an entry keeps the keys pairwise distinct.
proof fn lemma_remove_keeps_wf(s: Seq<(String, Groups)>, i: int)
    requires
        0 <= i < s.len(),
        forall|a: int, b: int|
            0 <= a < b < s.len() ==> (#[trigger] s[a]).0@ != (#[trigger] s[b]).0@,
    ensures
        forall|a: int, b: int|
            0 <= a < b < s.remove(i).len() ==> (#[trigger] s.remove(i)[a]).0@ != (
            #[trigger] s.remove(i)[b]).0@,
{
    assert forall|a: int, b: int|
        0 <= a < b < s.remove(i).len() implies (#[trigger] s.remove(i)[a]).0@ != (
    #[trigger] s.remove(i)[b]).0@ by {
        let a0 = if a < i {
            a
        } else {
            a + 1
        };
        let b0 = if b < i {
            b
        } else {
            b + 1
        };
        assert(s.remove(i)[a] == s[a0]);
        assert(s.remove(i)[b] == s[b0]);
    }
}

/// Appending an entry decides lookups: the appended key finds its value
/// where the key was absent; every lookup that already succeeded is
/// unchanged, and one that failed now succeeds only for the appended key.
proof fn lemma_push_lookup(s: Seq<(String, Groups)>, e: (String, Groups), id: Seq<char>)
    ensures
        seq_lookup(s.push(e), id) == (if seq_lookup(s, id) is Some {
            seq_lookup(s, id)
        } else if e.0@ == id {
            Some(e.1)
        } else {
            None
        }),
    decreases s.len(),
{
    if s.len() == 0 {
        assert(s.push(e)[0] == e);
        assert(s.push(e).drop_first() =~= Seq::<(String, Groups)>::empty());
        assert(seq_lookup(s.push(e).drop_first(), id) == None::<Groups>);
    } else {
        assert(s.push(e)[0] == s[0]);
        if s[0].0@ == id {
            assert(seq_lookup(s.push(e), id) == Some(s.push(e)[0].1));
            assert(seq_lookup(s, id) == Some(s[0].1));
        } else {
            lemma_push_lookup(s.drop_first(), e, id);
            assert(s.drop_first().push(e) =~= s.push(e).drop_first());
            assert(seq_lookup(s.push(e), id) == seq_lookup(s.push(e).drop_first(), id));
            assert(seq_lookup(s, id) == seq_lookup(s.drop_first(), id));
        }
    }
}

} // verus!
