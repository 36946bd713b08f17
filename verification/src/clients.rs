//! Bookkeeping of the engine server's clients: how many may connect, and the
//! identifier each new client gets.

use vstd::prelude::*;

verus! {

/// Number of clients a server accepts unless configured otherwise.
pub const DEFAULT_MAX_CLIENTS: usize = 4;

/// The connected clients' identifiers, the identifier the next client gets, and
/// the most clients allowed.
#[derive(Debug, Clone)]
pub struct ClientRegistry {
    pub client_ids: Vec<usize>,
    pub next_client_id: usize,
    pub max_clients: usize,
}

/// The identifiers are in increasing order and all below `next`: so none occurs
/// twice and `next` is fresh.
pub open spec fn ids_issued_in_order(ids: Seq<usize>, next: usize) -> bool {
    &&& forall|i: int, j: int| 0 <= i < j < ids.len() ==> ids[i] < ids[j]
    &&& forall|i: int| 0 <= i < ids.len() ==> ids[i] < next
}

impl ClientRegistry {
    /// No client yet; the first one gets identifier 1.
    pub fn new(max_clients: usize) -> (r: Self)
        ensures
            r.client_ids@.len() == 0,
            r.next_client_id == 1,
            r.max_clients == max_clients,
            ids_issued_in_order(r.client_ids@, r.next_client_id),
    {
        ClientRegistry { client_ids: Vec::new(), next_client_id: 1, max_clients }
    }

    /// Whether another client may connect.
    pub fn has_room(&self) -> (r: bool)
        ensures
            r == (self.client_ids@.len() < self.max_clients),
    {
        self.client_ids.len() < self.max_clients
    }

    /// Registers a new client and returns its identifier: the next identifier,
    /// which then advances by one. There must be room for the client.
    pub fn connect(&mut self) -> (id: usize)
        requires
            old(self).client_ids@.len() < old(self).max_clients,
            old(self).next_client_id < usize::MAX,
        ensures
            id == old(self).next_client_id,
            final(self).next_client_id == id + 1,
            final(self).client_ids@ == old(self).client_ids@.push(id),
            final(self).max_clients == old(self).max_clients,
            ids_issued_in_order(old(self).client_ids@, old(self).next_client_id) ==> ids_issued_in_order(
                final(self).client_ids@,
                final(self).next_client_id,
            ),
    {
        let id = self.next_client_id;
        self.next_client_id = id + 1;
        self.client_ids.push(id);
        id
    }
}

/// Identifiers issued in order are all different.
pub proof fn law_client_ids_distinct(ids: Seq<usize>, next: usize)
    requires
        ids_issued_in_order(ids, next),
    ensures
        forall|i: int, j: int| 0 <= i < ids.len() && 0 <= j < ids.len() && i != j ==> ids[i] != ids[j],
{
    assert forall|i: int, j: int| 0 <= i < ids.len() && 0 <= j < ids.len() && i != j implies ids[i] != ids[j] by {
        if i < j {
            assert(ids[i] < ids[j]);
        } else {
            assert(ids[j] < ids[i]);
        }
    }
}

} // verus!
