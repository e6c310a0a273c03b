//! Order composition: fail-fast outcomes and the frozen snapshot.

use market_core::address::{Address, AddressService};
use market_core::basket::BasketService;
use market_core::order::{create_order, CreateOrderResponse, OrderService};
use market_core::session::add_to_basket;
use market_core::user::User;

fn sample_address(user: &str) -> Address {
    Address::new(user.to_string(), "Ada", "Lovelace", "home", "1 Example Street", 3, 7)
}

#[test]
fn order_without_active_basket_writes_nothing() {
    let user = "aaaaaaaaaaaaaaaaaaaaaaaa".to_string();
    let address_id = "eeeeeeeeeeeeeeeeeeeeeeee".to_string();
    let mut orders = OrderService::new();
    let mut baskets = BasketService::new();
    let mut addresses = AddressService::new();
    assert!(addresses.create(address_id.clone(), sample_address(&user)));
    let r = create_order(&mut orders, &mut baskets, &addresses, user.clone(), address_id);
    assert!(matches!(r, CreateOrderResponse::ActiveBasketNotFound));
    assert_eq!(orders.get_all(&user).len(), 0, "no order document was written");
}

#[test]
fn order_with_unknown_address_writes_nothing() {
    let user = "aaaaaaaaaaaaaaaaaaaaaaaa".to_string();
    let product = "bbbbbbbbbbbbbbbbbbbbbbbb".to_string();
    let seller = "cccccccccccccccccccccccc".to_string();
    let listing = "dddddddddddddddddddddddd".to_string();
    let mut orders = OrderService::new();
    let mut baskets = BasketService::new();
    let addresses = AddressService::new();
    add_to_basket(&mut baskets, &user, &product, &seller, &listing);
    let r = create_order(
        &mut orders,
        &mut baskets,
        &addresses,
        user.clone(),
        "eeeeeeeeeeeeeeeeeeeeeeee".to_string(),
    );
    assert!(matches!(r, CreateOrderResponse::AddressNotFound));
    assert_eq!(orders.get_all(&user).len(), 0);
    assert!(
        baskets.get_active(&user).is_some(),
        "the basket is untouched when the address is unknown"
    );
}

#[test]
fn order_snapshot_is_decoupled_from_later_mutation() {
    let user = "aaaaaaaaaaaaaaaaaaaaaaaa".to_string();
    let product = "bbbbbbbbbbbbbbbbbbbbbbbb".to_string();
    let seller = "cccccccccccccccccccccccc".to_string();
    let listing = "dddddddddddddddddddddddd".to_string();
    let address_id = "eeeeeeeeeeeeeeeeeeeeeeee".to_string();
    let mut orders = OrderService::new();
    let mut baskets = BasketService::new();
    let mut addresses = AddressService::new();
    assert!(addresses.create(address_id.clone(), sample_address(&user)));
    add_to_basket(&mut baskets, &user, &product, &seller, &listing);
    let r = create_order(&mut orders, &mut baskets, &addresses, user.clone(), address_id);
    assert!(matches!(r, CreateOrderResponse::OrderCreated));
    // a later add opens a fresh basket; the order keeps its count-1 snapshot
    add_to_basket(&mut baskets, &user, &product, &seller, &listing);
    add_to_basket(&mut baskets, &user, &product, &seller, &listing);
    let mine = orders.get_all(&user);
    assert_eq!(mine.len(), 1);
    assert_eq!(mine[0].basket[0].count, 1);
    assert_eq!(baskets.get_active(&user).unwrap().content[0].count, 2);
}

#[test]
fn addresses_are_stored_updated_and_listed() {
    let user = "aaaaaaaaaaaaaaaaaaaaaaaa".to_string();
    let other = "ffffffffffffffffffffffff".to_string();
    let id1 = "111111111111111111111111".to_string();
    let id2 = "222222222222222222222222".to_string();
    let mut addresses = AddressService::new();
    assert!(addresses.create(id1.clone(), sample_address(&user)));
    assert!(!addresses.create(id1.clone(), sample_address(&user)), "duplicate id refused");
    assert!(addresses.create(id2.clone(), sample_address(&other)));
    assert_eq!(addresses.find(&id1).unwrap().name, "Ada");
    assert!(addresses.find(&"333333333333333333333333".to_string()).is_none());
    let replacement = Address::new(user.clone(), "Grace", "Hopper", "work", "2 Example Street", 4, 8);
    assert!(addresses.update(replacement, &id1));
    assert_eq!(addresses.find(&id1).unwrap().name, "Grace");
    let mine = addresses.get_all(&user);
    assert_eq!(mine.len(), 1);
    assert_eq!(mine[0].surname, "Hopper");
    assert_eq!(addresses.get_all(&other).len(), 1);
}

#[test]
fn user_payload_keeps_its_fields() {
    let u = User::new("+15550006666", "already-hashed");
    assert_eq!(u.phone, "+15550006666");
    assert_eq!(u.password, "already-hashed");
}
