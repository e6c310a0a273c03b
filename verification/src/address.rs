//! Addresses and the address store.  Addresses carry no state-machine logic;
//! the order composer only looks one up by id and freezes a copy into the
//! order.

use vstd::prelude::*;
use vstd::string::StringExecFns;

verus! {

/// A delivery address owned by one user.
pub struct Address {
    pub user_id: String,
    pub name: String,
    pub surname: String,
    pub title: String,
    pub text: String,
    pub district_id: i32,
    pub neighborhood_id: i32,
}

/// Spec mirror of an address.
pub ghost struct AddressModel {
    pub user: Seq<char>,
    pub name: Seq<char>,
    pub surname: Seq<char>,
    pub title: Seq<char>,
    pub text: Seq<char>,
    pub district_id: int,
    pub neighborhood_id: int,
}

impl View for Address {
    type V = AddressModel;

    open spec fn view(&self) -> AddressModel {
        AddressModel {
            user: self.user_id@,
            name: self.name@,
            surname: self.surname@,
            title: self.title@,
            text: self.text@,
            district_id: self.district_id as int,
            neighborhood_id: self.neighborhood_id as int,
        }
    }
}

impl Address {
    pub fn new(
        user_id: String,
        name: &str,
        surname: &str,
        title: &str,
        text: &str,
        district_id: i32,
        neighborhood_id: i32,
    ) -> (r: Address)
        ensures
            r@ == (AddressModel {
                user: user_id@,
                name: name@,
                surname: surname@,
                title: title@,
                text: text@,
                district_id: district_id as int,
                neighborhood_id: neighborhood_id as int,
            }),
    {
        Address {
            user_id,
            name: String::from_str(name),
            surname: String::from_str(surname),
            title: String::from_str(title),
            text: String::from_str(text),
            district_id,
            neighborhood_id,
        }
    }
}

/// A verified copy of an address (field by field, so the view is known to be
/// preserved).
pub(crate) fn clone_address(a: &Address) -> (r: Address)
    ensures
        r@ == a@,
{
    Address {
        user_id: a.user_id.clone(),
        name: a.name.clone(),
        surname: a.surname.clone(),
        title: a.title.clone(),
        text: a.text.clone(),
        district_id: a.district_id,
        neighborhood_id: a.neighborhood_id,
    }
}

/// One stored address document: identifier plus payload.
pub struct AddressRecord {
    pub id: String,
    pub address: Address,
}

/// Spec mirror of a stored address document.
pub ghost struct AddressEntry {
    pub id: Seq<char>,
    pub address: AddressModel,
}

impl View for AddressRecord {
    type V = AddressEntry;

    open spec fn view(&self) -> AddressEntry {
        AddressEntry { id: self.id@, address: self.address@ }
    }
}

/// Whether some document carries identifier `id`.
pub open spec fn has_address(s: Seq<AddressEntry>, id: Seq<char>) -> bool {
    exists|i: int| 0 <= i < s.len() && (#[trigger] s[i]).id == id
}

/// The index of the document with identifier `id` (meaningful when
/// `has_address`).
pub open spec fn address_ix(s: Seq<AddressEntry>, id: Seq<char>) -> int {
    choose|i: int| 0 <= i < s.len() && (#[trigger] s[i]).id == id
}

/// Address store invariant: identifiers unique.
pub open spec fn addresses_wf(s: Seq<AddressEntry>) -> bool {
    forall|i: int, j: int| #![trigger s[i], s[j]] 0 <= i < j < s.len() ==> s[i].id != s[j].id
}

/// In a well-formed address store, the document index per identifier is
/// unique.
pub proof fn lemma_address_ix(s: Seq<AddressEntry>, id: Seq<char>)
    requires
        addresses_wf(s),
        has_address(s, id),
    ensures
        0 <= address_ix(s, id) < s.len(),
        s[address_ix(s, id)].id == id,
        forall|i: int| 0 <= i < s.len() && (#[trigger] s[i]).id == id ==> i == address_ix(s, id),
{
    let u = address_ix(s, id);
    assert(0 <= u < s.len() && s[u].id == id);
    assert forall|i: int| 0 <= i < s.len() && (#[trigger] s[i]).id == id implies i == u by {
        if i < u {
            assert(s[i].id != s[u].id);
        }
        if u < i {
            assert(s[u].id != s[i].id);
        }
    }
}

/// The addresses owned by `user`, in store order.
pub open spec fn addresses_of(s: Seq<AddressEntry>, user: Seq<char>) -> Seq<AddressModel>
    decreases s.len(),
{
    if s.len() == 0 {
        Seq::empty()
    } else {
        let rest = addresses_of(s.drop_last(), user);
        if s.last().address.user == user {
            rest.push(s.last().address)
        } else {
            rest
        }
    }
}

/// The address store.  Its view is the sequence of all address documents.
pub struct AddressService {
    entries: Vec<AddressRecord>,
}

impl View for AddressService {
    type V = Seq<AddressEntry>;

    closed spec fn view(&self) -> Seq<AddressEntry> {
        self.entries@.map_values(|e: AddressRecord| e@)
    }
}

impl AddressService {
    /// The store invariant ([`addresses_wf`]).
    pub open spec fn wf(&self) -> bool {
        addresses_wf(self@)
    }

    pub fn new() -> (r: AddressService)
        ensures
            r@ == Seq::<AddressEntry>::empty(),
            r.wf(),
    {
        let r = AddressService { entries: Vec::new() };
        proof {
            assert(r@ =~= Seq::<AddressEntry>::empty());
        }
        r
    }

    /// The index of the document with identifier `id`, pinned to
    /// `address_ix`.
    fn find_ix(&self, id: &String) -> (r: Option<usize>)
        requires
            self.wf(),
        ensures
            r matches Some(i) ==> has_address(self@, id@) && i == address_ix(self@, id@) && i
                < self@.len(),
            r is None ==> !has_address(self@, id@),
    {
        let mut i: usize = 0;
        while i < self.entries.len()
            invariant
                self.wf(),
                0 <= i <= self.entries.len(),
                forall|k: int| 0 <= k < i ==> (#[trigger] self@[k]).id != id@,
            decreases self.entries.len() - i,
        {
            if self.entries[i].id == *id {
                proof {
                    assert(self@[i as int].id == id@);
                    lemma_address_ix(self@, id@);
                }
                return Some(i);
            }
            i += 1;
        }
        proof {
            if has_address(self@, id@) {
                let w = choose|k: int| 0 <= k < self@.len() && (#[trigger] self@[k]).id == id@;
                assert(self@[w].id != id@);
            }
        }
        None
    }

    /// Look an address up by id, for the order composer.
    pub fn find(&self, id: &String) -> (r: Option<&Address>)
        requires
            self.wf(),
        ensures
            r matches Some(a) ==> has_address(self@, id@) && a@ == self@[address_ix(
                self@,
                id@,
            )].address,
            r is None ==> !has_address(self@, id@),
    {
        match self.find_ix(id) {
            Some(i) => Some(&self.entries[i].address),
            None => None,
        }
    }

    /// Insert an address document under `id`; refused when the identifier is
    /// already taken.
    pub fn create(&mut self, id: String, address: Address) -> (r: bool)
        requires
            old(self).wf(),
        ensures
            final(self).wf(),
            r == !has_address(old(self)@, id@),
            r ==> final(self)@ == old(self)@.push(
                AddressEntry { id: id@, address: address@ },
            ),
            !r ==> final(self)@ == old(self)@,
    {
        let ghost s0 = self@;
        if self.find_ix(&id).is_some() {
            return false;
        }
        let ghost em = AddressEntry { id: id@, address: address@ };
        self.entries.push(AddressRecord { id, address });
        proof {
            assert(self@ =~= s0.push(em));
            let s2 = s0.push(em);
            let n = s0.len() as int;
            assert forall|i: int, j: int| #![trigger s2[i], s2[j]]
                0 <= i < j < s2.len() implies s2[i].id != s2[j].id by {
                assert(s2[i] == s0[i]);
                if j < n {
                    assert(s2[j] == s0[j]);
                } else {
                    if s0[i].id == em.id {
                        assert(has_address(s0, em.id));
                    }
                }
            }
        }
        true
    }

    /// Replace the payload of the document with identifier `id`, keeping the
    /// identifier.  Returns whether a document was modified.
    pub fn update(&mut self, address: Address, id: &String) -> (r: bool)
        requires
            old(self).wf(),
        ensures
            final(self).wf(),
            r == has_address(old(self)@, id@),
            r ==> final(self)@ == old(self)@.update(
                address_ix(old(self)@, id@),
                AddressEntry { id: id@, address: address@ },
            ),
            !r ==> final(self)@ == old(self)@,
    {
        let ghost s0 = self@;
        let i = match self.find_ix(id) {
            Some(i) => i,
            None => {
                return false;
            },
        };
        proof {
            lemma_address_ix(s0, id@);
        }
        let rec = self.entries.remove(i);
        self.entries.insert(i, AddressRecord { id: rec.id, address });
        proof {
            let a = i as int;
            let em = AddressEntry { id: id@, address: address@ };
            assert(self@ =~= s0.update(a, em));
            let s2 = s0.update(a, em);
            assert forall|x: int, j: int| #![trigger s2[x], s2[j]]
                0 <= x < j < s2.len() implies s2[x].id != s2[j].id by {
                assert(s0[x].id != s0[j].id);
                assert(s2[x].id == s0[x].id && s2[j].id == s0[j].id);
            }
        }
        true
    }

    /// All addresses owned by `user_id`, in store order, as verified copies.
    pub fn get_all(&self, user_id: &String) -> (r: Vec<Address>)
        requires
            self.wf(),
        ensures
            r@.map_values(|a: Address| a@) == addresses_of(self@, user_id@),
    {
        let mut out: Vec<Address> = Vec::new();
        let mut i: usize = 0;
        while i < self.entries.len()
            invariant
                0 <= i <= self.entries.len(),
                self@.len() == self.entries.len(),
                out@.map_values(|a: Address| a@) == addresses_of(
                    self@.subrange(0, i as int),
                    user_id@,
                ),
            decreases self.entries.len() - i,
        {
            let e = &self.entries[i];
            let ghost pre = self@.subrange(0, i as int);
            proof {
                assert(self@.subrange(0, i + 1).drop_last() =~= pre);
                assert(self@.subrange(0, i + 1).last() == self@[i as int]);
            }
            if e.address.user_id == *user_id {
                out.push(clone_address(&e.address));
                proof {
                    assert(out@.map_values(|a: Address| a@) =~= addresses_of(
                        self@.subrange(0, i + 1),
                        user_id@,
                    ));
                }
            } else {
                proof {
                    assert(out@.map_values(|a: Address| a@) =~= addresses_of(
                        self@.subrange(0, i + 1),
                        user_id@,
                    ));
                }
            }
            i += 1;
        }
        proof {
            assert(self@.subrange(0, self@.len() as int) =~= self@);
        }
        out
    }
}

} // verus!
