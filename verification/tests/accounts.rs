//! Registration, login, and the guest-to-registered promotion that keeps the
//! basket.

use market_core::basket::BasketService;
use market_core::identity::{Identity, Resolve, UserKind};
use market_core::order::{create_order, CreateOrderResponse, OrderService, Status};
use market_core::session::{add, create_guest_for_id, AddOutcome, AddToBasketResult};
use market_core::user::CoreError;
use market_core::address::{Address, AddressService};
use market_core::user::{create, login, LoginResult, UserCreateResult, UserService};

fn auth() -> Resolve {
    Resolve::new(b"test-secret".to_vec())
}

#[test]
fn fresh_registration_and_login() {
    let auth = auth();
    let mut users = UserService::new();
    let phone = "+15550001111".to_string();
    let r = create(&mut users, &auth, phone.clone(), "hunter2".to_string(), None)
        .expect("registration succeeds");
    let token = match r {
        UserCreateResult::UserCreated(t) => t,
        other => panic!("expected UserCreated, got {:?}", other),
    };
    match auth.resolve(Some(&token)) {
        Identity::Known { kind, .. } => assert_eq!(kind, UserKind::Registered),
        Identity::Anonymous => panic!("registration token must resolve"),
    }
    let ok = login(&users, &auth, phone.clone(), "hunter2".to_string(), None, None)
        .expect("login call succeeds");
    assert!(matches!(ok, LoginResult::Verified(_)));
    let wrong = login(&users, &auth, phone.clone(), "wrong-password".to_string(), None, None)
        .expect("login call succeeds");
    assert!(matches!(wrong, LoginResult::NotVerified));
    let unknown = login(&users, &auth, "+15559999999".to_string(), "hunter2".to_string(), None, None)
        .expect("login call succeeds");
    assert!(matches!(unknown, LoginResult::UserNotExists));
}

#[test]
fn duplicate_phone_is_refused() {
    let auth = auth();
    let mut users = UserService::new();
    let phone = "+15550002222".to_string();
    let first = create(&mut users, &auth, phone.clone(), "pw-one".to_string(), None)
        .expect("registration succeeds");
    assert!(matches!(first, UserCreateResult::UserCreated(_)));
    let second = create(&mut users, &auth, phone.clone(), "pw-two".to_string(), None)
        .expect("call succeeds");
    assert!(matches!(second, UserCreateResult::UserAlreadyExists));
}

#[test]
fn promoting_unknown_guest_reports_not_registered() {
    let auth = auth();
    let mut users = UserService::new();
    let r = create(
        &mut users,
        &auth,
        "+15550003333".to_string(),
        "pw".to_string(),
        Some("aaaaaaaaaaaaaaaaaaaaaaaa".to_string()),
    )
    .expect("call succeeds");
    assert!(matches!(r, UserCreateResult::GuestUserNotRegistered));
}

#[test]
fn login_hash_is_not_plaintext() {
    // The stored credential is a bcrypt hash, not the password handed back:
    // the record found by phone carries neither the password nor the phone as
    // its hash.
    let auth = auth();
    let mut users = UserService::new();
    let phone = "+15550004444".to_string();
    create(&mut users, &auth, phone.clone(), "hunter2".to_string(), None)
        .expect("registration succeeds");
    let rec = users.get(&phone).expect("record exists");
    let hash = rec.password_hash.clone().expect("registered record has a hash");
    assert_ne!(hash, "hunter2");
    assert!(hash.starts_with("$2"), "bcrypt hashes carry the $2 prefix");
}

#[test]
fn guest_creation_succeeds_once_per_identifier() {
    let auth = auth();
    let mut users = UserService::new();
    let mut baskets = BasketService::new();
    let id = "aaaaaaaaaaaaaaaaaaaaaaaa".to_string();
    let product = "bbbbbbbbbbbbbbbbbbbbbbbb".to_string();
    let seller = "cccccccccccccccccccccccc".to_string();
    let listing = "dddddddddddddddddddddddd".to_string();
    let token = create_guest_for_id(
        &mut users,
        &mut baskets,
        &auth,
        &id,
        &product,
        &seller,
        &listing,
    )
    .expect("a fresh identifier succeeds");
    match auth.resolve(Some(&token)) {
        Identity::Known { subject, kind } => {
            assert_eq!(subject, id);
            assert_eq!(kind, UserKind::Guest);
        }
        Identity::Anonymous => panic!("guest token must resolve"),
    }
    assert_eq!(baskets.get_active(&id).expect("basket created").content.len(), 1);
    // the same identifier again is a conflict, and nothing changes
    let again = create_guest_for_id(
        &mut users,
        &mut baskets,
        &auth,
        &id,
        &product,
        &seller,
        &listing,
    );
    assert_eq!(again.unwrap_err(), CoreError::StoreConflict);
    assert_eq!(baskets.get_active(&id).unwrap().content[0].count, 1);
}

#[test]
fn anonymous_add_to_order_end_to_end() {
    let auth = auth();
    let mut users = UserService::new();
    let mut baskets = BasketService::new();
    let mut orders = OrderService::new();
    let mut addresses = AddressService::new();

    let product = "bbbbbbbbbbbbbbbbbbbbbbbb".to_string();
    let seller = "cccccccccccccccccccccccc".to_string();
    let listing = "dddddddddddddddddddddddd".to_string();

    // Anonymous caller adds a product: a guest session and a basket appear.
    let outcome = add(
        &Identity::Anonymous,
        &mut users,
        &mut baskets,
        &auth,
        &product,
        &seller,
        &listing,
    )
    .expect("anonymous add succeeds");
    let (guest_id, token) = match outcome {
        AddOutcome::NewGuest { user_id, token } => (user_id, token),
        AddOutcome::Known(_) => panic!("an anonymous caller must get a new guest session"),
    };
    assert_eq!(guest_id.len(), 24);

    // The same session adds the same product again: one line, count 2.
    let identity = auth.resolve(Some(&token));
    match &identity {
        Identity::Known { subject, kind } => {
            assert_eq!(*subject, guest_id);
            assert_eq!(*kind, UserKind::Guest);
        }
        Identity::Anonymous => panic!("guest token must resolve"),
    }
    let second = add(
        &identity,
        &mut users,
        &mut baskets,
        &auth,
        &product,
        &seller,
        &listing,
    )
    .expect("second add succeeds");
    assert!(matches!(
        second,
        AddOutcome::Known(AddToBasketResult::CountIncremented)
    ));
    let b = baskets.get_active(&guest_id).expect("active basket");
    assert_eq!(b.content.len(), 1);
    assert_eq!(b.content[0].count, 2);

    // The caller registers: same subject id, phone and password set, basket
    // untouched.
    let phone = "+15550005555".to_string();
    let created = create(
        &mut users,
        &auth,
        phone.clone(),
        "hunter2".to_string(),
        Some(guest_id.clone()),
    )
    .expect("promotion succeeds");
    let registered_token = match created {
        UserCreateResult::UserCreated(t) => t,
        other => panic!("expected UserCreated, got {:?}", other),
    };
    match auth.resolve(Some(&registered_token)) {
        Identity::Known { subject, kind } => {
            assert_eq!(subject, guest_id, "promotion keeps the subject id");
            assert_eq!(kind, UserKind::Registered);
        }
        Identity::Anonymous => panic!("registered token must resolve"),
    }
    let rec = users.get(&phone).expect("promoted record found by phone");
    assert_eq!(rec.id, guest_id);
    let b = baskets.get_active(&guest_id).expect("basket survives promotion");
    assert_eq!(b.content[0].count, 2);

    // The caller orders with a valid address: the order freezes the count-2
    // snapshot and the basket stops being active.
    let address = Address::new(
        guest_id.clone(),
        "Ada",
        "Lovelace",
        "home",
        "1 Example Street",
        3,
        7,
    );
    let address_id = "eeeeeeeeeeeeeeeeeeeeeeee".to_string();
    assert!(addresses.create(address_id.clone(), address));
    let r = create_order(
        &mut orders,
        &mut baskets,
        &addresses,
        guest_id.clone(),
        address_id,
    );
    assert!(matches!(r, CreateOrderResponse::OrderCreated));
    let mine = orders.get_all(&guest_id);
    assert_eq!(mine.len(), 1);
    assert_eq!(mine[0].basket.len(), 1);
    assert_eq!(mine[0].basket[0].count, 2);
    assert_eq!(mine[0].status, Status::Created);
    assert_eq!(mine[0].address.name, "Ada");
    assert!(
        baskets.get_active(&guest_id).is_none(),
        "the source basket is no longer active"
    );
}
