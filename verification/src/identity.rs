//! The source of component identities.

use vstd::prelude::*;

verus! {

/// A counter that hands out identities in increasing order and never twice.
/// Every identity below `usize::MAX` can be issued once; then the source is
/// exhausted, and nothing may ask it for more.
#[derive(Debug)]
pub struct IdSource {
    next: usize,
}

impl IdSource {
    /// How many identities have been issued; also the next one to be issued.
    pub closed spec fn issued(&self) -> nat {
        self.next as nat
    }

    /// Whether the source can still issue `n` identities.
    pub open spec fn has_room(&self, n: nat) -> bool {
        self.issued() + n <= usize::MAX
    }

    /// Whether the source has no identity left to issue.
    pub open spec fn exhausted(&self) -> bool {
        !self.has_room(1)
    }

    /// Whether `later` can be a state of this source at a later time.
    pub open spec fn precedes(&self, later: &IdSource) -> bool {
        self.issued() <= later.issued()
    }

    /// Whether asking this source for an identity gives `id` and leaves
    /// `after`.
    pub open spec fn issues(&self, id: usize, after: &IdSource) -> bool {
        &&& !self.exhausted()
        &&& id == self.issued()
        &&& after.issued() == self.issued() + 1
    }

    /// Every source has room for nothing more.
    pub proof fn lemma_has_room_for_none(&self)
        ensures
            self.has_room(0),
    {
    }

    /// A source that has issued nothing yet.
    pub fn new() -> (ids: IdSource)
        ensures
            ids.issued() == 0,
    {
        IdSource { next: 0 }
    }

    /// Gives up the next `n` identities: none of them will ever be issued.
    pub fn skip(&mut self, n: usize)
        requires
            old(self).has_room(n as nat),
        ensures
            final(self).issued() == old(self).issued() + n,
    {
        self.next = self.next + n;
    }

    /// Whether the source has no identity left to issue.
    pub fn is_exhausted(&self) -> (r: bool)
        ensures
            r == self.exhausted(),
    {
        self.next == usize::MAX
    }

    /// The number of identities issued so far.
    pub fn count(&self) -> (r: usize)
        ensures
            r == self.issued(),
    {
        self.next
    }

    /// How many identities the source can still issue.
    pub fn remaining(&self) -> (r: usize)
        ensures
            self.issued() + r == usize::MAX,
            forall|n: nat| n <= r <==> #[trigger] self.has_room(n),
    {
        usize::MAX - self.next
    }

    /// Issues the next identity. A source that is exhausted has none.
    pub fn issue(&mut self) -> (id: usize)
        requires
            !old(self).exhausted(),
        ensures
            old(self).issues(id, final(self)),
    {
        let id = self.next;
        self.next = self.next + 1;
        id
    }
}

/// An identity that was issued is never issued again: whatever is issued
/// later is larger.
pub proof fn lemma_identities_never_repeat(
    first: IdSource,
    first_id: usize,
    between: IdSource,
    second: IdSource,
    second_id: usize,
    last: IdSource,
)
    requires
        first.issues(first_id, &between),
        between.precedes(&second),
        second.issues(second_id, &last),
    ensures
        first_id < second_id,
        first_id != second_id,
{
}

} // verus!
