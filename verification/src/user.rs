//! Users and the user store.
//!
//! One record shape serves two identity kinds: a guest (no phone or password
//! yet) and a registered user.  Promotion mutates the guest record in place
//! — same identifier, phone and password hash set — which is what preserves
//! the guest's basket across registration.  Password hashing and checking
//! are done by an outside bcrypt crate behind trusted wrappers.

use vstd::prelude::*;
use vstd::string::StringExecFns;
use crate::identity::{IdentityModel, Resolve, UserKind, spec_resolve_token, token_of};

verus! {

/// The payload of a registration: phone number and password hash.
pub struct User {
    pub phone: String,
    pub password: String,
}

impl User {
    pub fn new(phone: &str, password: &str) -> (r: User)
        ensures
            r.phone@ == phone@,
            r.password@ == password@,
    {
        User { phone: String::from_str(phone), password: String::from_str(password) }
    }
}

/// One stored user document.  `phone` and `password_hash` are both absent on
/// a guest and both present on a registered user.
pub struct UserRecord {
    pub id: String,
    pub phone: Option<String>,
    pub password_hash: Option<String>,
}

/// Spec mirror of a user document.
pub ghost struct UserModel {
    pub id: Seq<char>,
    pub phone: Option<Seq<char>>,
    pub hash: Option<Seq<char>>,
}

impl View for UserRecord {
    type V = UserModel;

    open spec fn view(&self) -> UserModel {
        UserModel {
            id: self.id@,
            phone: match self.phone {
                Option::Some(p) => Option::Some(p@),
                Option::None => Option::None,
            },
            hash: match self.password_hash {
                Option::Some(h) => Option::Some(h@),
                Option::None => Option::None,
            },
        }
    }
}

/// Whether some record carries identifier `id`.
pub open spec fn has_user(s: Seq<UserModel>, id: Seq<char>) -> bool {
    exists|i: int| 0 <= i < s.len() && (#[trigger] s[i]).id == id
}

/// The index of the record with identifier `id` (meaningful when
/// `has_user`).
pub open spec fn user_ix(s: Seq<UserModel>, id: Seq<char>) -> int {
    choose|i: int| 0 <= i < s.len() && (#[trigger] s[i]).id == id
}

/// Whether some record carries phone number `phone`.
pub open spec fn phone_taken(s: Seq<UserModel>, phone: Seq<char>) -> bool {
    exists|i: int| 0 <= i < s.len() && (#[trigger] s[i]).phone == Some(phone)
}

/// The index of the record with phone number `phone` (meaningful when
/// `phone_taken`).
pub open spec fn phone_ix(s: Seq<UserModel>, phone: Seq<char>) -> int {
    choose|i: int| 0 <= i < s.len() && (#[trigger] s[i]).phone == Some(phone)
}

/// User store invariant: identifiers unique, set phone numbers unique, and
/// phone and password hash present together or absent together.
pub open spec fn users_wf(s: Seq<UserModel>) -> bool {
    &&& forall|i: int, j: int| #![trigger s[i], s[j]] 0 <= i < j < s.len() ==> s[i].id != s[j].id
    &&& forall|i: int, j: int| #![trigger s[i], s[j]]
        0 <= i < j < s.len() && s[i].phone is Some ==> s[i].phone != s[j].phone
    &&& forall|i: int| 0 <= i < s.len() ==> ((#[trigger] s[i]).phone is Some <==> s[i].hash
        is Some)
}

/// Transition: insert a fresh guest record.
pub open spec fn spec_add_guest(s: Seq<UserModel>, id: Seq<char>) -> Seq<UserModel> {
    s.push(UserModel { id, phone: None, hash: None })
}

/// Transition: insert a fresh registered record.
pub open spec fn spec_add_registered(
    s: Seq<UserModel>,
    id: Seq<char>,
    phone: Seq<char>,
    hash: Seq<char>,
) -> Seq<UserModel> {
    s.push(UserModel { id, phone: Some(phone), hash: Some(hash) })
}

/// Transition: promote the record with identifier `id` in place, setting
/// phone and password hash; the identity when no such record exists.
pub open spec fn spec_register(
    s: Seq<UserModel>,
    id: Seq<char>,
    phone: Seq<char>,
    hash: Seq<char>,
) -> Seq<UserModel> {
    if has_user(s, id) {
        s.update(user_ix(s, id), UserModel { id, phone: Some(phone), hash: Some(hash) })
    } else {
        s
    }
}

/// In a well-formed user store, the record index per identifier is unique.
pub proof fn lemma_user_ix(s: Seq<UserModel>, id: Seq<char>)
    requires
        users_wf(s),
        has_user(s, id),
    ensures
        0 <= user_ix(s, id) < s.len(),
        s[user_ix(s, id)].id == id,
        forall|i: int| 0 <= i < s.len() && (#[trigger] s[i]).id == id ==> i == user_ix(s, id),
{
    let u = user_ix(s, id);
    assert(0 <= u < s.len() && s[u].id == id);
    assert forall|i: int| 0 <= i < s.len() && (#[trigger] s[i]).id == id implies i == u by {
        if i < u {
            assert(s[i].id != s[u].id);
        }
        if u < i {
            assert(s[u].id != s[i].id);
        }
    }
}

/// In a well-formed user store, the record index per set phone number is
/// unique, and that record carries a password hash.
pub proof fn lemma_phone_ix(s: Seq<UserModel>, phone: Seq<char>)
    requires
        users_wf(s),
        phone_taken(s, phone),
    ensures
        0 <= phone_ix(s, phone) < s.len(),
        s[phone_ix(s, phone)].phone == Some(phone),
        s[phone_ix(s, phone)].hash is Some,
        forall|i: int| 0 <= i < s.len() && (#[trigger] s[i]).phone == Some(phone) ==> i == phone_ix(
            s,
            phone,
        ),
{
    let u = phone_ix(s, phone);
    assert(0 <= u < s.len() && s[u].phone == Some(phone));
    assert forall|i: int| 0 <= i < s.len() && (#[trigger] s[i]).phone == Some(phone) implies i
        == u by {
        if i < u {
            assert(s[i].phone != s[u].phone);
        }
        if u < i {
            assert(s[u].phone != s[i].phone);
        }
    }
}

/// Whether `password` is the password that `hashed` (a bcrypt hash) was made
/// from.  Named: the bcrypt check is a pure function of the two strings, and
/// writing the algorithm out here would state nothing checkable.
pub uninterp spec fn bcrypt_matches(password: Seq<char>, hashed: Seq<char>) -> bool;

/// Whether `hashed` parses as a bcrypt hash (shape, cost range, salt
/// alphabet).  Named: it is exactly the condition, a function of the hash
/// string alone, under which bcrypt::verify reaches an outcome at all.
pub uninterp spec fn bcrypt_hash_wf(hashed: Seq<char>) -> bool;

/// Relies on bcrypt::hash (cost 4, random salt): the produced hash parses,
/// and bcrypt::verify accepts it for the same password.  Nothing more is
/// claimed: the salt comes from OS randomness, which makes the hash itself
/// nondeterministic and can fail.
#[verifier::external_body]
pub(crate) fn hash_password(password: &String) -> (r: Option<String>)
    ensures
        r matches Some(h) ==> bcrypt_matches(password@, h@) && bcrypt_hash_wf(h@),
{
    bcrypt::hash(password.as_str(), 4).ok()
}

/// Relies on bcrypt::verify: it fails exactly when the hash string does not
/// parse (a condition of the hash alone, named `bcrypt_hash_wf`), and its
/// outcome is a function of password and hash alone, named `bcrypt_matches`.
#[verifier::external_body]
pub(crate) fn verify_password(password: &String, hashed: &String) -> (r: Option<bool>)
    ensures
        r is Some <==> bcrypt_hash_wf(hashed@),
        r matches Some(b) ==> b == bcrypt_matches(password@, hashed@),
{
    bcrypt::verify(password.as_str(), hashed.as_str()).ok()
}

/// Relies on bson::oid::ObjectId::new and ObjectId::to_hex: a twelve-byte
/// identifier generated from time, process and counter, printed as 24 hex
/// characters.  Freshness cannot be promised; callers check for collisions.
#[verifier::external_body]
pub(crate) fn fresh_object_id() -> (r: String)
    ensures
        r@.len() == 24,
{
    bson::oid::ObjectId::new().to_hex()
}

/// The user store.  Its view is the sequence of all user documents.
pub struct UserService {
    users: Vec<UserRecord>,
}

impl View for UserService {
    type V = Seq<UserModel>;

    closed spec fn view(&self) -> Seq<UserModel> {
        self.users@.map_values(|u: UserRecord| u@)
    }
}

impl UserService {
    /// The store invariant ([`users_wf`]).
    pub open spec fn wf(&self) -> bool {
        users_wf(self@)
    }

    pub fn new() -> (r: UserService)
        ensures
            r@ == Seq::<UserModel>::empty(),
            r.wf(),
    {
        let r = UserService { users: Vec::new() };
        proof {
            assert(r@ =~= Seq::<UserModel>::empty());
        }
        r
    }

    /// The index of the record with identifier `id`, pinned to `user_ix`.
    fn find_user_ix(&self, id: &String) -> (r: Option<usize>)
        requires
            self.wf(),
        ensures
            r matches Some(i) ==> has_user(self@, id@) && i == user_ix(self@, id@) && i
                < self@.len(),
            r is None ==> !has_user(self@, id@),
    {
        let mut i: usize = 0;
        while i < self.users.len()
            invariant
                self.wf(),
                0 <= i <= self.users.len(),
                forall|k: int| 0 <= k < i ==> (#[trigger] self@[k]).id != id@,
            decreases self.users.len() - i,
        {
            if self.users[i].id == *id {
                proof {
                    assert(self@[i as int].id == id@);
                    lemma_user_ix(self@, id@);
                }
                return Some(i);
            }
            i += 1;
        }
        proof {
            if has_user(self@, id@) {
                let w = choose|k: int| 0 <= k < self@.len() && (#[trigger] self@[k]).id == id@;
                assert(self@[w].id != id@);
            }
        }
        None
    }

    /// The record registered under `phone`, if any.
    pub fn get(&self, phone: &String) -> (r: Option<&UserRecord>)
        requires
            self.wf(),
        ensures
            r matches Some(u) ==> phone_taken(self@, phone@) && u@ == self@[phone_ix(
                self@,
                phone@,
            )],
            r is None ==> !phone_taken(self@, phone@),
    {
        let mut i: usize = 0;
        while i < self.users.len()
            invariant
                self.wf(),
                0 <= i <= self.users.len(),
                forall|k: int| 0 <= k < i ==> (#[trigger] self@[k]).phone != Some(phone@),
            decreases self.users.len() - i,
        {
            let matched = match &self.users[i].phone {
                Some(p) => *p == *phone,
                None => false,
            };
            if matched {
                proof {
                    assert(self@[i as int].phone == Some(phone@));
                    lemma_phone_ix(self@, phone@);
                }
                return Some(&self.users[i]);
            }
            i += 1;
        }
        proof {
            if phone_taken(self@, phone@) {
                let w = choose|k: int|
                    0 <= k < self@.len() && (#[trigger] self@[k]).phone == Some(phone@);
                assert(self@[w].phone != Some(phone@));
            }
        }
        None
    }

    /// The record with identifier `id`, if any — the check the registration
    /// flow makes before it decides whether a guest can be promoted.
    pub fn get_by_id(&self, id: &String) -> (r: Option<&UserRecord>)
        requires
            self.wf(),
        ensures
            r matches Some(u) ==> has_user(self@, id@) && u@ == self@[user_ix(self@, id@)],
            r is None ==> !has_user(self@, id@),
    {
        match self.find_user_ix(id) {
            Some(i) => Some(&self.users[i]),
            None => None,
        }
    }

    /// Insert a fresh guest record under `id`; refused when the identifier
    /// is already taken.
    pub fn create_anon(&mut self, id: String) -> (r: bool)
        requires
            old(self).wf(),
        ensures
            final(self).wf(),
            r == !has_user(old(self)@, id@),
            r ==> final(self)@ == spec_add_guest(old(self)@, id@),
            !r ==> final(self)@ == old(self)@,
    {
        let ghost s0 = self@;
        if self.find_user_ix(&id).is_some() {
            return false;
        }
        let ghost um = UserModel { id: id@, phone: None, hash: None };
        self.users.push(UserRecord { id, phone: None, password_hash: None });
        proof {
            assert(self@ =~= s0.push(um));
            let s2 = s0.push(um);
            let n = s0.len() as int;
            assert forall|i: int, j: int| #![trigger s2[i], s2[j]]
                0 <= i < j < s2.len() implies s2[i].id != s2[j].id by {
                assert(s2[i] == s0[i]);
                if j < n {
                    assert(s2[j] == s0[j]);
                } else {
                    if s0[i].id == um.id {
                        assert(has_user(s0, um.id));
                    }
                }
            }
            assert forall|i: int, j: int| #![trigger s2[i], s2[j]]
                0 <= i < j < s2.len() && s2[i].phone is Some implies s2[i].phone != s2[j].phone by {
                assert(s2[i] == s0[i]);
                if j < n {
                    assert(s2[j] == s0[j]);
                }
            }
            assert forall|i: int| 0 <= i < s2.len() implies ((#[trigger] s2[i]).phone is Some
                <==> s2[i].hash is Some) by {
                if i < n {
                    assert(s2[i] == s0[i]);
                }
            }
        }
        true
    }

    /// Promote the record with identifier `user_id` in place: set phone and
    /// password hash, keep the identifier.  Returns whether a record was
    /// modified.  The caller must have checked that `phone` is not taken.
    pub fn register(&mut self, user_id: &String, phone: &String, password_hash: &String) -> (r:
        bool)
        requires
            old(self).wf(),
            !phone_taken(old(self)@, phone@),
        ensures
            final(self).wf(),
            final(self)@ == spec_register(old(self)@, user_id@, phone@, password_hash@),
            r == has_user(old(self)@, user_id@),
    {
        let ghost s0 = self@;
        let i = match self.find_user_ix(user_id) {
            Some(i) => i,
            None => {
                return false;
            },
        };
        proof {
            lemma_user_ix(s0, user_id@);
        }
        let rec = self.users.remove(i);
        let rec2 = UserRecord {
            id: rec.id,
            phone: Some(phone.clone()),
            password_hash: Some(password_hash.clone()),
        };
        self.users.insert(i, rec2);
        proof {
            let a = i as int;
            let um = UserModel { id: user_id@, phone: Some(phone@), hash: Some(password_hash@) };
            assert(self@ =~= s0.update(a, um));
            let s2 = s0.update(a, um);
            assert forall|x: int, j: int| #![trigger s2[x], s2[j]]
                0 <= x < j < s2.len() implies s2[x].id != s2[j].id by {
                assert(s0[x].id != s0[j].id);
                assert(s2[x].id == s0[x].id && s2[j].id == s0[j].id);
            }
            assert forall|x: int, j: int| #![trigger s2[x], s2[j]]
                0 <= x < j < s2.len() && s2[x].phone is Some implies s2[x].phone != s2[j].phone by {
                if x != a && j != a {
                    assert(s2[x] == s0[x] && s2[j] == s0[j]);
                } else if x == a {
                    assert(s2[j] == s0[j]);
                    if s0[j].phone == Some(phone@) {
                        assert(phone_taken(s0, phone@));
                    }
                } else {
                    assert(s2[x] == s0[x]);
                    if s0[x].phone == Some(phone@) {
                        assert(phone_taken(s0, phone@));
                    }
                }
            }
            assert forall|x: int| 0 <= x < s2.len() implies ((#[trigger] s2[x]).phone is Some
                <==> s2[x].hash is Some) by {
                if x != a {
                    assert(s2[x] == s0[x]);
                }
            }
        }
        true
    }

    /// Insert a fresh registered record under `id` carrying the user's phone
    /// and password hash; refused when the identifier is already taken.  The
    /// caller must have checked that the phone is not taken.
    pub fn create(&mut self, user: &User, id: String) -> (r: bool)
        requires
            old(self).wf(),
            !phone_taken(old(self)@, user.phone@),
        ensures
            final(self).wf(),
            r == !has_user(old(self)@, id@),
            r ==> final(self)@ == spec_add_registered(old(self)@, id@, user.phone@, user.password@),
            !r ==> final(self)@ == old(self)@,
    {
        let ghost s0 = self@;
        if self.find_user_ix(&id).is_some() {
            return false;
        }
        let ghost um = UserModel { id: id@, phone: Some(user.phone@), hash: Some(user.password@) };
        self.users.push(
            UserRecord {
                id,
                phone: Some(user.phone.clone()),
                password_hash: Some(user.password.clone()),
            },
        );
        proof {
            assert(self@ =~= s0.push(um));
            let s2 = s0.push(um);
            let n = s0.len() as int;
            assert forall|i: int, j: int| #![trigger s2[i], s2[j]]
                0 <= i < j < s2.len() implies s2[i].id != s2[j].id by {
                assert(s2[i] == s0[i]);
                if j < n {
                    assert(s2[j] == s0[j]);
                } else {
                    if s0[i].id == um.id {
                        assert(has_user(s0, um.id));
                    }
                }
            }
            assert forall|i: int, j: int| #![trigger s2[i], s2[j]]
                0 <= i < j < s2.len() && s2[i].phone is Some implies s2[i].phone != s2[j].phone by {
                assert(s2[i] == s0[i]);
                if j < n {
                    assert(s2[j] == s0[j]);
                } else {
                    if s0[i].phone == Some(user.phone@) {
                        assert(phone_taken(s0, user.phone@));
                    }
                }
            }
            assert forall|i: int| 0 <= i < s2.len() implies ((#[trigger] s2[i]).phone is Some
                <==> s2[i].hash is Some) by {
                if i < n {
                    assert(s2[i] == s0[i]);
                }
            }
        }
        true
    }
}

/// Failures of the outside collaborators (hashing, hash checking) and store
/// conflicts, kept apart from the expected not-found outcomes.
#[derive(Clone, Copy, Debug, PartialEq, Eq)]
pub enum CoreError {
    HashingFailed,
    VerificationFailed,
    StoreConflict,
}

/// Outcome of the registration flow.
#[derive(Debug)]
pub enum UserCreateResult {
    UserAlreadyExists,
    UserCreated(String),
    GuestUserNotRegistered,
}

/// Outcome of the login flow.
#[derive(Debug)]
pub enum LoginResult {
    Verified(String),
    UserNotExists,
    NotVerified,
}

/// Register a user: refuse a taken phone number; with a caller identity,
/// promote that guest record in place (same id, same basket); without one,
/// insert a fresh registered record.  The returned token is the new
/// registered session.  An unknown caller identity is decided before any
/// hashing, so `GuestUserNotRegistered` is the one outcome on that input.
pub fn create(
    user_service: &mut UserService,
    auth: &Resolve,
    phone: String,
    password: String,
    user_id_option: Option<String>,
) -> (r: Result<UserCreateResult, CoreError>)
    requires
        old(user_service).wf(),
    ensures
        final(user_service).wf(),
        phone_taken(old(user_service)@, phone@) <==> r == Ok::<UserCreateResult, CoreError>(
            UserCreateResult::UserAlreadyExists,
        ),
        (!phone_taken(old(user_service)@, phone@) && (user_id_option matches Some(uid)
            && !has_user(old(user_service)@, uid@))) <==> r == Ok::<UserCreateResult, CoreError>(
            UserCreateResult::GuestUserNotRegistered,
        ),
        ({
            let s0 = old(user_service)@;
            let s1 = final(user_service)@;
            match r {
                Ok(UserCreateResult::UserAlreadyExists) => s1 == s0,
                Ok(UserCreateResult::GuestUserNotRegistered) => s1 == s0,
                Ok(UserCreateResult::UserCreated(t)) => !phone_taken(s0, phone@) && match user_id_option {
                    Some(uid) => has_user(s0, uid@) && t@ == token_of(
                        uid@,
                        "registered"@,
                        auth.spec_secret(),
                    ) && spec_resolve_token(t@, auth.spec_secret()) == (IdentityModel::Known {
                        subject: uid@,
                        kind: UserKind::Registered,
                    }) && (exists|h: Seq<char>|
                        #[trigger] bcrypt_matches(password@, h) && s1 == spec_register(
                            s0,
                            uid@,
                            phone@,
                            h,
                        )),
                    None => exists|f: Seq<char>, h: Seq<char>|
                        #![auto]
                        f.len() == 24 && !has_user(s0, f) && bcrypt_matches(password@, h) && t@
                            == token_of(f, "registered"@, auth.spec_secret())
                            && spec_resolve_token(t@, auth.spec_secret()) == (IdentityModel::Known {
                            subject: f,
                            kind: UserKind::Registered,
                        }) && s1 == spec_add_registered(s0, f, phone@, h),
                },
                Err(CoreError::HashingFailed) => !phone_taken(s0, phone@) && (user_id_option
                    matches Some(uid) ==> has_user(s0, uid@)) && s1 == s0,
                Err(CoreError::StoreConflict) => !phone_taken(s0, phone@) && user_id_option is None
                    && s1 == s0,
                Err(CoreError::VerificationFailed) => false,
            }
        }),
{
    if user_service.get(&phone).is_some() {
        return Ok(UserCreateResult::UserAlreadyExists);
    }
    match user_id_option {
        Some(user_id) => {
            if user_service.get_by_id(&user_id).is_none() {
                return Ok(UserCreateResult::GuestUserNotRegistered);
            }
            let hashed = match hash_password(&password) {
                Some(h) => h,
                None => {
                    return Err(CoreError::HashingFailed);
                },
            };
            let registered = user_service.register(&user_id, &phone, &hashed);
            proof {
                assert(registered);
            }
            Ok(UserCreateResult::UserCreated(auth.get_registered_user_token(&user_id)))
        },
        None => {
            let hashed = match hash_password(&password) {
                Some(h) => h,
                None => {
                    return Err(CoreError::HashingFailed);
                },
            };
            let id = fresh_object_id();
            let user = User { phone, password: hashed };
            if !user_service.create(&user, id.clone()) {
                return Err(CoreError::StoreConflict);
            }
            Ok(UserCreateResult::UserCreated(auth.get_registered_user_token(&id)))
        },
    }
}

/// Log a registered user in: check the password against the stored bcrypt
/// hash and hand out a fresh registered session token.  Every outcome is
/// forced: a matching password yields `Verified`, a mismatch `NotVerified`,
/// an unknown phone `UserNotExists`, and the error comes exactly when the
/// stored hash does not parse.  Whether a guest basket should be merged on
/// login is deliberately out of scope; the caller identity arguments do not
/// change the outcome.
pub fn login(
    user_service: &UserService,
    auth: &Resolve,
    phone: String,
    password: String,
    user_id_option: Option<String>,
    user_type_option: Option<String>,
) -> (r: Result<LoginResult, CoreError>)
    requires
        user_service.wf(),
    ensures
        ({
            let s = user_service@;
            match r {
                Ok(LoginResult::UserNotExists) => !phone_taken(s, phone@),
                Ok(LoginResult::NotVerified) => phone_taken(s, phone@) && bcrypt_hash_wf(
                    s[phone_ix(s, phone@)].hash->Some_0,
                ) && !bcrypt_matches(password@, s[phone_ix(s, phone@)].hash->Some_0),
                Ok(LoginResult::Verified(t)) => phone_taken(s, phone@) && bcrypt_hash_wf(
                    s[phone_ix(s, phone@)].hash->Some_0,
                ) && bcrypt_matches(password@, s[phone_ix(s, phone@)].hash->Some_0) && t@
                    == token_of(s[phone_ix(s, phone@)].id, "registered"@, auth.spec_secret())
                    && spec_resolve_token(t@, auth.spec_secret()) == (IdentityModel::Known {
                    subject: s[phone_ix(s, phone@)].id,
                    kind: UserKind::Registered,
                }),
                Err(CoreError::VerificationFailed) => phone_taken(s, phone@) && !bcrypt_hash_wf(
                    s[phone_ix(s, phone@)].hash->Some_0,
                ),
                Err(_) => false,
            }
        }),
{
    let _ = user_id_option;
    let _ = user_type_option;
    let rec = match user_service.get(&phone) {
        Some(rec) => rec,
        None => {
            return Ok(LoginResult::UserNotExists);
        },
    };
    proof {
        lemma_phone_ix(user_service@, phone@);
    }
    let hashed = match &rec.password_hash {
        Some(h) => h,
        None => {
            proof {
                assert(false);
            }
            return Ok(LoginResult::UserNotExists);
        },
    };
    match verify_password(&password, hashed) {
        None => Err(CoreError::VerificationFailed),
        Some(false) => Ok(LoginResult::NotVerified),
        Some(true) => Ok(LoginResult::Verified(auth.get_registered_user_token(&rec.id))),
    }
}

} // verus!
