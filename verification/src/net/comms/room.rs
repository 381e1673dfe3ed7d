//! A group of clients, each present once, found by identifier.

use vstd::prelude::*;
use crate::ident::uuid_eq;
use super::ClientId;
use super::client::Client;

verus! {

/// No identifier occurs twice among `clients`.
pub open spec fn ids_distinct<T: Send, R: Send>(clients: Seq<Client<T, R>>) -> bool {
    forall|i: int, j: int|
        0 <= i < j < clients.len() ==> (#[trigger] clients[i]).spec_id() != (#[trigger] clients[j]).spec_id()
}

/// `clients` as a map from identifier to client (for an identifier that
/// occurs more than once, one of its clients).
pub open spec fn clients_map<T: Send, R: Send>(clients: Seq<Client<T, R>>) -> Map<ClientId, Client<T, R>> {
    Map::new(
        |id: ClientId| exists|i: int| 0 <= i < clients.len() && (#[trigger] clients[i]).spec_id() == id,
        |id: ClientId| clients[choose|i: int| 0 <= i < clients.len() && (#[trigger] clients[i]).spec_id() == id],
    )
}

proof fn lemma_member<T: Send, R: Send>(clients: Seq<Client<T, R>>, k: int)
    requires
        ids_distinct(clients),
        0 <= k < clients.len(),
    ensures
        clients_map(clients).dom().contains(clients[k].spec_id()),
        clients_map(clients)[clients[k].spec_id()] == clients[k],
{
    let id = clients[k].spec_id();
    assert(exists|i: int| 0 <= i < clients.len() && (#[trigger] clients[i]).spec_id() == id);
    let j = choose|i: int| 0 <= i < clients.len() && (#[trigger] clients[i]).spec_id() == id;
    assert(j == k);
}

/// A group of clients with pairwise different identifiers.
#[verifier::reject_recursive_types(T)]
#[verifier::reject_recursive_types(R)]
pub struct Room<T, R> where T: Send + 'static, R: Send + 'static {
    clients: Vec<Client<T, R>>,
}

impl<T, R> Room<T, R> where T: Send + 'static, R: Send + 'static {
    #[verifier::type_invariant]
    closed spec fn wf(&self) -> bool {
        ids_distinct(self.clients@)
    }

    /// The clients in the room, by identifier.
    pub closed spec fn members(&self) -> Map<ClientId, Client<T, R>> {
        clients_map(self.clients@)
    }

    /// The identifiers of the clients in the room.
    pub open spec fn ids(&self) -> Set<ClientId> {
        self.members().dom()
    }

    /// An empty room.
    pub fn new() -> (room: Room<T, R>)
        ensures
            room.members() == Map::<ClientId, Client<T, R>>::empty(),
            room.ids() == Set::<ClientId>::empty(),
    {
        let room = Room { clients: Vec::new() };
        assert(room.members() =~= Map::<ClientId, Client<T, R>>::empty());
        room
    }

    /// The identifiers of the clients in the room, each once.
    pub fn client_ids(&self) -> (ids: Vec<ClientId>)
        ensures
            ids@.to_set() == self.ids(),
            ids@.no_duplicates(),
    {
        proof {
            use_type_invariant(self);
        }
        let mut ids: Vec<ClientId> = Vec::new();
        let mut i: usize = 0;
        while i < self.clients.len()
            invariant
                i <= self.clients@.len(),
                ids@.len() == i,
                forall|k: int| 0 <= k < i ==> #[trigger] ids@[k] == self.clients@[k].spec_id(),
            decreases self.clients.len() - i,
        {
            ids.push(self.clients[i].id());
            i = i + 1;
        }
        assert(ids@.to_set() =~= self.ids()) by {
            assert forall|id: ClientId| #[trigger] self.ids().contains(id) implies ids@.to_set().contains(id) by {
                let k = choose|k: int| 0 <= k < self.clients@.len() && (#[trigger] self.clients@[k]).spec_id() == id;
                assert(ids@[k] == id);
            }
            assert forall|id: ClientId| #[trigger] ids@.to_set().contains(id) implies self.ids().contains(id) by {
                let k = choose|k: int| 0 <= k < ids@.len() && ids@[k] == id;
                assert(self.clients@[k].spec_id() == id);
            }
        }
        assert(ids@.no_duplicates()) by {
            assert forall|a: int, b: int| 0 <= a < ids@.len() && 0 <= b < ids@.len() && a != b
                implies ids@[a] != ids@[b] by {
                if a < b {
                    assert(self.clients@[a].spec_id() != self.clients@[b].spec_id());
                } else {
                    assert(self.clients@[b].spec_id() != self.clients@[a].spec_id());
                }
            }
        }
        ids
    }

    /// Where the client with identifier `id` is in the room, if it is there.
    fn position(&self, id: &ClientId) -> (p: Option<usize>)
        ensures
            match p {
                Some(i) => i < self.clients@.len() && self.clients@[i as int].spec_id() == *id,
                None => !self.ids().contains(*id),
            },
    {
        let mut i: usize = 0;
        while i < self.clients.len()
            invariant
                i <= self.clients@.len(),
                forall|k: int| 0 <= k < i ==> (#[trigger] self.clients@[k]).spec_id() != *id,
            decreases self.clients.len() - i,
        {
            let cid = self.clients[i].id();
            if uuid_eq(&cid, id) {
                return Some(i);
            }
            i = i + 1;
        }
        None
    }

    /// Whether a client with identifier `id` is in the room.
    pub fn contains(&self, id: &ClientId) -> (b: bool)
        ensures
            b == self.ids().contains(*id),
    {
        match self.position(id) {
            Some(_) => true,
            None => false,
        }
    }

    /// The client in the room with identifier `id`, if there is one.
    pub fn get(&self, id: &ClientId) -> (c: Option<&Client<T, R>>)
        ensures
            c is Some <==> self.ids().contains(*id),
            c matches Some(client) ==> *client == self.members()[*id] && client.spec_id() == *id,
    {
        proof {
            use_type_invariant(self);
        }
        match self.position(id) {
            Some(i) => {
                proof {
                    lemma_member(self.clients@, i as int);
                }
                Some(&self.clients[i])
            },
            None => None,
        }
    }

    /// Takes the client with identifier `id` out of the room, if it is there.
    pub fn remove(&mut self, id: &ClientId) -> (c: Option<Client<T, R>>)
        ensures
            c is Some <==> old(self).ids().contains(*id),
            c matches Some(client) ==> client == old(self).members()[*id],
            final(self).members() == old(self).members().remove(*id),
            final(self).ids() == old(self).ids().remove(*id),
    {
        proof {
            use_type_invariant(&*self);
        }
        match self.position(id) {
            None => {
                assert(self.members().remove(*id) =~= self.members());
                None
            },
            Some(i) => {
                let ghost old_clients = self.clients@;
                proof {
                    lemma_member(old_clients, i as int);
                }
                let mut clients: Vec<Client<T, R>> = Vec::new();
                std::mem::swap(&mut clients, &mut self.clients);
                let client = clients.remove(i);
                proof {
                    let n = old_clients.len() as int;
                    assert(clients@ == old_clients.remove(i as int));
                    assert forall|a: int, b: int| 0 <= a < b < clients@.len() implies
                        (#[trigger] clients@[a]).spec_id() != (#[trigger] clients@[b]).spec_id() by {
                        let a0 = if a < i { a } else { a + 1 };
                        let b0 = if b < i { b } else { b + 1 };
                        assert(clients@[a] == old_clients[a0]);
                        assert(clients@[b] == old_clients[b0]);
                    }
                    let m0 = clients_map(old_clients);
                    let m1 = clients_map(clients@);
                    assert forall|x: ClientId| #[trigger] m1.dom().contains(x) <==> m0.remove(*id).dom().contains(x) by {
                        if m1.dom().contains(x) {
                            let k = choose|k: int| 0 <= k < clients@.len() && (#[trigger] clients@[k]).spec_id() == x;
                            let k0 = if k < i { k } else { k + 1 };
                            assert(clients@[k] == old_clients[k0]);
                            assert(old_clients[k0].spec_id() != old_clients[i as int].spec_id());
                        }
                        if m0.remove(*id).dom().contains(x) {
                            let k = choose|k: int| 0 <= k < old_clients.len() && (#[trigger] old_clients[k]).spec_id() == x;
                            assert(k != i);
                            let k1 = if k < i { k } else { k - 1 };
                            assert(clients@[k1] == old_clients[k]);
                        }
                    }
                    assert forall|x: ClientId| #[trigger] m1.dom().contains(x) implies m1[x] == m0.remove(*id)[x] by {
                        let k = choose|k: int| 0 <= k < clients@.len() && (#[trigger] clients@[k]).spec_id() == x;
                        let k0 = if k < i { k } else { k + 1 };
                        assert(clients@[k] == old_clients[k0]);
                        lemma_member(clients@, k);
                        lemma_member(old_clients, k0);
                    }
                    assert(m1 =~= m0.remove(*id));
                }
                self.clients = clients;
                Some(client)
            },
        }
    }

    /// Takes every client out of the room.
    pub fn take_all(&mut self) -> (all: Vec<Client<T, R>>)
        ensures
            clients_map(all@) == old(self).members(),
            ids_distinct(all@),
            final(self).members() == Map::<ClientId, Client<T, R>>::empty(),
            final(self).ids() == Set::<ClientId>::empty(),
    {
        proof {
            use_type_invariant(&*self);
        }
        let mut all: Vec<Client<T, R>> = Vec::new();
        std::mem::swap(&mut all, &mut self.clients);
        assert(self.members() =~= Map::<ClientId, Client<T, R>>::empty());
        all
    }

    /// Puts `client` in the room unless a client with its identifier is
    /// already there, which then stays; says whether it did.
    pub fn insert(&mut self, client: Client<T, R>) -> (inserted: bool)
        ensures
            inserted == !old(self).ids().contains(client.spec_id()),
            inserted ==> final(self).members() == old(self).members().insert(client.spec_id(), client),
            !inserted ==> final(self).members() == old(self).members(),
            final(self).ids() == old(self).ids().insert(client.spec_id()),
    {
        proof {
            use_type_invariant(&*self);
        }
        let id = client.id();
        if self.contains(&id) {
            assert(self.ids().insert(id) =~= self.ids());
            return false;
        }
        let ghost old_clients = self.clients@;
        let ghost c = client;
        let mut clients: Vec<Client<T, R>> = Vec::new();
        std::mem::swap(&mut clients, &mut self.clients);
        clients.push(client);
        proof {
            let n = old_clients.len() as int;
            assert(clients@ == old_clients.push(c));
            assert forall|i: int, j: int| 0 <= i < j < clients@.len() implies
                (#[trigger] clients@[i]).spec_id() != (#[trigger] clients@[j]).spec_id() by {
                assert(clients@[i] == old_clients[i]);
                if j == n {
                    lemma_member(old_clients, i);
                } else {
                    assert(clients@[j] == old_clients[j]);
                }
            }
            let m0 = clients_map(old_clients);
            let m1 = clients_map(clients@);
            assert forall|x: ClientId| #[trigger] m1.dom().contains(x) <==> m0.insert(id, c).dom().contains(x) by {
                if m0.dom().contains(x) {
                    let k = choose|k: int| 0 <= k < old_clients.len() && (#[trigger] old_clients[k]).spec_id() == x;
                    assert(clients@[k] == old_clients[k]);
                }
                if x == id {
                    assert(clients@[n].spec_id() == id);
                }
                if m1.dom().contains(x) {
                    let k = choose|k: int| 0 <= k < clients@.len() && (#[trigger] clients@[k]).spec_id() == x;
                    if k < n {
                        assert(clients@[k] == old_clients[k]);
                    }
                }
            }
            assert forall|x: ClientId| #[trigger] m1.dom().contains(x) implies m1[x] == m0.insert(id, c)[x] by {
                let k = choose|k: int| 0 <= k < clients@.len() && (#[trigger] clients@[k]).spec_id() == x;
                lemma_member(clients@, k);
                if k < n {
                    assert(clients@[k] == old_clients[k]);
                    lemma_member(old_clients, k);
                }
            }
            assert(m1 =~= m0.insert(id, c));
        }
        self.clients = clients;
        true
    }
}

impl<T, R> Default for Room<T, R> where T: Send + 'static, R: Send + 'static {
    /// An empty room.
    fn default() -> (room: Room<T, R>)
        ensures
            room.members() == Map::<ClientId, Client<T, R>>::empty(),
            room.ids() == Set::<ClientId>::empty(),
    {
        Room::new()
    }
}

} // verus!
