//! Basket lifecycle: idempotent adds, decrements, and the one-active-basket
//! guarantee.

use market_core::basket::{Basket, BasketService};
use market_core::session::{
    add_to_basket, decrement_product_count, AddToBasketResult, DecrementResult, QuantityUpdate,
};

fn ids() -> (String, String, String, String) {
    (
        "aaaaaaaaaaaaaaaaaaaaaaaa".to_string(),
        "bbbbbbbbbbbbbbbbbbbbbbbb".to_string(),
        "cccccccccccccccccccccccc".to_string(),
        "dddddddddddddddddddddddd".to_string(),
    )
}

#[test]
fn first_add_creates_active_basket() {
    let (user, product, seller, listing) = ids();
    let mut bs = BasketService::new();
    assert!(bs.get_active(&user).is_none());
    let r = add_to_basket(&mut bs, &user, &product, &seller, &listing);
    assert_eq!(r, AddToBasketResult::BasketCreated);
    let b = bs.get_active(&user).expect("active basket after first add");
    assert!(b.active);
    assert_eq!(b.content.len(), 1);
    assert_eq!(b.content[0].count, 1);
    assert_eq!(b.content[0].product_id, product);
    assert_eq!(b.content[0].seller_id, seller);
    assert_eq!(b.content[0].listing_id, listing);
}

#[test]
fn add_same_product_twice_merges_into_one_line() {
    let (user, product, seller, listing) = ids();
    let mut bs = BasketService::new();
    let r1 = add_to_basket(&mut bs, &user, &product, &seller, &listing);
    assert_eq!(r1, AddToBasketResult::BasketCreated);
    let r2 = add_to_basket(&mut bs, &user, &product, &seller, &listing);
    assert_eq!(r2, AddToBasketResult::CountIncremented);
    let b = bs.get_active(&user).expect("active basket");
    assert_eq!(b.content.len(), 1, "one line item, not two");
    assert_eq!(b.content[0].count, 2);
}

#[test]
fn add_second_product_appends_line() {
    let (user, product, seller, listing) = ids();
    let other_product = "eeeeeeeeeeeeeeeeeeeeeeee".to_string();
    let mut bs = BasketService::new();
    add_to_basket(&mut bs, &user, &product, &seller, &listing);
    let r = add_to_basket(&mut bs, &user, &other_product, &seller, &listing);
    assert_eq!(r, AddToBasketResult::ItemAdded);
    let b = bs.get_active(&user).expect("active basket");
    assert_eq!(b.content.len(), 2);
    assert_eq!(b.content[0].count, 1);
    assert_eq!(b.content[1].count, 1);
}

#[test]
fn decrement_to_zero_removes_line() {
    let (user, product, seller, listing) = ids();
    let mut bs = BasketService::new();
    add_to_basket(&mut bs, &user, &product, &seller, &listing);
    let r = decrement_product_count(&mut bs, &product, &seller, &user);
    assert_eq!(r, DecrementResult::ItemRemoved);
    let b = bs.get_active(&user).expect("basket stays active");
    assert!(
        !b.content.iter().any(|it| it.product_id == product && it.seller_id == seller),
        "no zero-count line is left behind"
    );
    assert_eq!(b.content.len(), 0);
}

#[test]
fn decrement_multi_count_line_keeps_it() {
    let (user, product, seller, listing) = ids();
    let mut bs = BasketService::new();
    add_to_basket(&mut bs, &user, &product, &seller, &listing);
    add_to_basket(&mut bs, &user, &product, &seller, &listing);
    let r = decrement_product_count(&mut bs, &product, &seller, &user);
    assert_eq!(r, DecrementResult::CountDecremented);
    let b = bs.get_active(&user).expect("active basket");
    assert_eq!(b.content.len(), 1, "line still present");
    assert_eq!(b.content[0].count, 1);
}

#[test]
fn decrement_absent_line_reports_not_found() {
    let (user, product, seller, _listing) = ids();
    let mut bs = BasketService::new();
    let r = decrement_product_count(&mut bs, &product, &seller, &user);
    assert_eq!(r, DecrementResult::LineItemNotFound);
    assert!(bs.get_active(&user).is_none());
}

#[test]
fn second_active_basket_for_same_user_is_refused() {
    let (user, product, seller, listing) = ids();
    let mut bs = BasketService::new();
    add_to_basket(&mut bs, &user, &product, &seller, &listing);
    let duplicate = Basket::new(user.clone(), Vec::new(), true);
    assert!(!bs.create(duplicate), "a second active basket for one user is refused");
    let inactive = Basket::new(user.clone(), Vec::new(), false);
    assert!(bs.create(inactive), "an inactive basket may always be inserted");
    let b = bs.get_active(&user).expect("the original basket is still the active one");
    assert_eq!(b.content.len(), 1);
}

#[test]
fn count_one_lookup_tracks_the_line() {
    let (user, product, seller, listing) = ids();
    let mut bs = BasketService::new();
    assert!(bs
        .get_product_with_count_one(product.clone(), seller.clone(), user.clone())
        .is_none());
    add_to_basket(&mut bs, &user, &product, &seller, &listing);
    let hit = bs
        .get_product_with_count_one(product.clone(), seller.clone(), user.clone())
        .expect("count-1 line found");
    assert_eq!(hit.count, 1);
    assert_eq!(hit.product_id, product);
    add_to_basket(&mut bs, &user, &product, &seller, &listing);
    assert!(
        bs.get_product_with_count_one(product.clone(), seller.clone(), user.clone()).is_none(),
        "a count-2 line is not a count-1 line"
    );
}

#[test]
fn change_quantity_dispatches_on_the_sign() {
    let (user, product, seller, listing) = ids();
    let mut bs = BasketService::new();
    add_to_basket(&mut bs, &user, &product, &seller, &listing);
    // any positive count is one increment
    match market_core::session::update(&mut bs, 7, &product, &seller, &user) {
        QuantityUpdate::Incremented(it) => assert_eq!(it.count, 2),
        other => panic!("expected an increment, got {:?}", other),
    }
    assert_eq!(bs.get_active(&user).unwrap().content[0].count, 2);
    // any other count is one decrement step
    let r = market_core::session::update(&mut bs, 0, &product, &seller, &user);
    assert!(matches!(r, QuantityUpdate::Decremented));
    assert_eq!(bs.get_active(&user).unwrap().content[0].count, 1);
    let r = market_core::session::update(&mut bs, -3, &product, &seller, &user);
    assert!(matches!(r, QuantityUpdate::Removed));
    assert_eq!(bs.get_active(&user).unwrap().content.len(), 0);
    let r = market_core::session::update(&mut bs, 1, &product, &seller, &user);
    assert!(matches!(r, QuantityUpdate::LineItemNotFound));
}

#[test]
fn baskets_of_different_users_are_independent() {
    let (user, product, seller, listing) = ids();
    let other_user = "ffffffffffffffffffffffff".to_string();
    let mut bs = BasketService::new();
    add_to_basket(&mut bs, &user, &product, &seller, &listing);
    add_to_basket(&mut bs, &other_user, &product, &seller, &listing);
    add_to_basket(&mut bs, &other_user, &product, &seller, &listing);
    assert_eq!(bs.get_active(&user).unwrap().content[0].count, 1);
    assert_eq!(bs.get_active(&other_user).unwrap().content[0].count, 2);
}
