//! Pending settlements.
//!
//! A phase-one request submits work to the external computation network and
//! returns at once; the result is applied later by an independently triggered
//! callback carrying the caller-chosen transfer correlation id. This registry
//! records every submitted settlement under that id, so that a callback can
//! be applied at most once and a settlement that never receives its callback
//! stays visibly `Requested` forever.

use vstd::prelude::*;

verus! {

/// The lifecycle of one submitted settlement. A settlement whose callback
/// never arrives simply remains `Requested`: there is no timeout and no
/// cancellation path.
#[derive(Clone, Copy, Debug, PartialEq, Eq, Structural)]
pub enum SettlementStatus {
    Requested,
    Fulfilled,
}

/// True when some entry carries `id`.
pub open spec fn has_id(s: Seq<(u32, SettlementStatus)>, id: u32) -> bool {
    exists|i: int| 0 <= i < s.len() && s[i].0 == id
}

/// True when some entry carries `id` with status `status`.
pub open spec fn id_has_status(
    s: Seq<(u32, SettlementStatus)>,
    id: u32,
    status: SettlementStatus,
) -> bool {
    exists|i: int| 0 <= i < s.len() && s[i].0 == id && s[i].1 == status
}

/// The relation between a registry before and after a fulfilment attempt for
/// `id`: when a `Requested` entry for `id` exists, exactly that entry turns
/// `Fulfilled` and the attempt counts as applied; otherwise nothing changes.
pub open spec fn fulfill_transition(
    pre: Seq<(u32, SettlementStatus)>,
    post: Seq<(u32, SettlementStatus)>,
    id: u32,
    applied: bool,
) -> bool {
    &&& (applied <==> id_has_status(pre, id, SettlementStatus::Requested))
    &&& (applied ==> exists|i: int|
        0 <= i < pre.len() && pre[i].0 == id && pre[i].1 == SettlementStatus::Requested && post
            =~= pre.update(i, (id, SettlementStatus::Fulfilled)))
    &&& (!applied ==> post == pre)
}

/// The registry of submitted settlements, keyed by transfer correlation id.
pub struct SettlementRegistry {
    pub entries: Vec<(u32, SettlementStatus)>,
}

impl SettlementRegistry {
    /// No two entries carry the same correlation id.
    pub open spec fn well_formed(self) -> bool {
        forall|i: int, j: int|
            0 <= i < j < self.entries@.len() ==> self.entries@[i].0 != self.entries@[j].0
    }

    /// An empty registry.
    pub fn new() -> (r: Self)
        ensures
            r.entries@.len() == 0,
            r.well_formed(),
    {
        SettlementRegistry { entries: Vec::new() }
    }

    /// First entry position carrying `id`, if any.
    fn find_entry(&self, id: u32) -> (r: Option<usize>)
        ensures
            r matches Some(i) ==> 0 <= i < self.entries@.len() && self.entries@[i as int].0 == id,
            r is None ==> !has_id(self.entries@, id),
    {
        let n = self.entries.len();
        let mut i: usize = 0;
        while i < n
            invariant
                0 <= i <= n,
                n == self.entries@.len(),
                forall|j: int| 0 <= j < i ==> self.entries@[j].0 != id,
            decreases n - i,
        {
            if self.entries[i].0 == id {
                return Some(i);
            }
            i = i + 1;
        }
        None
    }

    /// The status recorded for `id`, if any.
    pub fn status_of(&self, id: u32) -> (r: Option<SettlementStatus>)
        requires
            self.well_formed(),
        ensures
            r is None <==> !has_id(self.entries@, id),
            r matches Some(s) ==> id_has_status(self.entries@, id, s),
    {
        match self.find_entry(id) {
            Some(i) => Some(self.entries[i].1),
            None => None,
        }
    }

    /// Records a fresh settlement for `id` as `Requested`. The caller chooses
    /// the id and its uniqueness among pending settlements is the transfer
    /// collaborator's to enforce; an id already present is left exactly as it
    /// is.
    pub fn register(&mut self, id: u32)
        requires
            old(self).well_formed(),
        ensures
            final(self).well_formed(),
            !has_id(old(self).entries@, id) ==> final(self).entries@ =~= old(
                self,
            ).entries@.push((id, SettlementStatus::Requested)),
            has_id(old(self).entries@, id) ==> final(self).entries@ == old(self).entries@,
    {
        if self.find_entry(id).is_none() {
            self.entries.push((id, SettlementStatus::Requested));
        }
    }

    /// Marks the settlement for `id` as `Fulfilled` and reports whether this
    /// attempt was the one that applied it: true exactly when a `Requested`
    /// entry for `id` was present. A second attempt for the same id, or an
    /// attempt for an id never registered, changes nothing and reports false.
    pub fn try_fulfill(&mut self, id: u32) -> (r: bool)
        requires
            old(self).well_formed(),
        ensures
            final(self).well_formed(),
            fulfill_transition(old(self).entries@, final(self).entries@, id, r),
            r ==> id_has_status(final(self).entries@, id, SettlementStatus::Fulfilled),
    {
        match self.find_entry(id) {
            Some(i) => {
                if self.entries[i].1 == SettlementStatus::Requested {
                    self.entries[i] = (id, SettlementStatus::Fulfilled);
                    proof {
                        let pre = old(self).entries@;
                        let post = self.entries@;
                        assert(post =~= pre.update(i as int, (id, SettlementStatus::Fulfilled)));
                        assert(id_has_status(pre, id, SettlementStatus::Requested));
                        assert(post[i as int].1 == SettlementStatus::Fulfilled);
                    }
                    true
                } else {
                    proof {
                        lemma_unique_id_status(self.entries@, id, i as int);
                    }
                    false
                }
            },
            None => false,
        }
    }
}

/// In a registry with unique ids, the one entry holding `id` fixes the only
/// status `id` can be seen with.
proof fn lemma_unique_id_status(s: Seq<(u32, SettlementStatus)>, id: u32, i: int)
    requires
        forall|p: int, q: int| 0 <= p < q < s.len() ==> s[p].0 != s[q].0,
        0 <= i < s.len(),
        s[i].0 == id,
    ensures
        forall|status: SettlementStatus|
            id_has_status(s, id, status) ==> status == s[i].1,
{
    assert forall|status: SettlementStatus| id_has_status(s, id, status) implies status
        == s[i].1 by {
        let j = choose|j: int| 0 <= j < s.len() && s[j].0 == id && s[j].1 == status;
        if j < i {
            assert(s[j].0 != s[i].0);
        } else if i < j {
            assert(s[i].0 != s[j].0);
        }
    }
}

/// Law: a fulfilment is applied at most once per correlation id. Whatever the
/// registry held, once an attempt for `id` has been applied, any further
/// attempt for the same id applies nothing and leaves the registry unchanged.
pub proof fn lemma_settlement_applied_at_most_once(
    pre: Seq<(u32, SettlementStatus)>,
    mid: Seq<(u32, SettlementStatus)>,
    post: Seq<(u32, SettlementStatus)>,
    id: u32,
    applied_first: bool,
    applied_second: bool,
)
    requires
        forall|p: int, q: int| 0 <= p < q < pre.len() ==> pre[p].0 != pre[q].0,
        fulfill_transition(pre, mid, id, applied_first),
        fulfill_transition(mid, post, id, applied_second),
        applied_first,
    ensures
        !applied_second,
        post == mid,
{
    let i = choose|i: int|
        0 <= i < pre.len() && pre[i].0 == id && pre[i].1 == SettlementStatus::Requested && mid
            =~= pre.update(i, (id, SettlementStatus::Fulfilled));
    assert(forall|p: int, q: int| 0 <= p < q < mid.len() ==> mid[p].0 == pre[p].0 && mid[q].0
        == pre[q].0);
    lemma_unique_id_status(mid, id, i);
    assert(mid[i].1 == SettlementStatus::Fulfilled);
    assert(!id_has_status(mid, id, SettlementStatus::Requested));
}

} // verus!
