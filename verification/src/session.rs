//! The cart session controller: "add to basket" and "change quantity",
//! including first-time basket creation and the minting of a guest identity
//! for an anonymous caller.
//!
//! The cart identity of a user moves through
//! `Anonymous -> Guest (one active basket) -> Registered`: the first add
//! mints a guest, and registration later promotes the same subject id in
//! place (see [`crate::user::create`]), so the basket — keyed on that id —
//! survives the promotion untouched.

use vstd::prelude::*;
use crate::basket::{
    Basket, BasketItem, BasketService, ItemModel, has_active, active_items, item_like, line_count, incr_ok,
    spec_create, spec_incr, spec_add_to_basket, spec_decrement, lemma_line_count_bounds,
    lemma_add_to_basket_effect, lemma_decrement_effect, new_basket,
};
use crate::identity::{Identity, IdentityModel, Resolve, UserKind, spec_resolve_token, token_of};
use crate::user::{UserService, CoreError, spec_add_guest, has_user, fresh_object_id};

verus! {

/// How an "add to basket" request was satisfied.
#[derive(Clone, Copy, Debug, PartialEq, Eq)]
pub enum AddToBasketResult {
    /// The line existed: its count went up by one.
    CountIncremented,
    /// The active basket existed without the line: a count-1 line was
    /// appended.
    ItemAdded,
    /// No active basket existed: one was created around a count-1 line.
    BasketCreated,
}

/// The "add to basket" algorithm of the basket store, for a caller already
/// resolved to `user_id`.
pub fn add_to_basket(
    basket_service: &mut BasketService,
    user_id: &String,
    product_id: &String,
    seller_id: &String,
    listing_id: &String,
) -> (r: AddToBasketResult)
    requires
        old(basket_service).wf(),
        incr_ok(old(basket_service)@, user_id@, product_id@, seller_id@),
    ensures
        final(basket_service).wf(),
        final(basket_service)@ == spec_add_to_basket(
            old(basket_service)@,
            user_id@,
            product_id@,
            seller_id@,
            listing_id@,
        ),
        has_active(final(basket_service)@, user_id@),
        line_count(final(basket_service)@, user_id@, product_id@, seller_id@) == Some(
            match line_count(old(basket_service)@, user_id@, product_id@, seller_id@) {
                Some(c) => c + 1,
                None => 1int,
            },
        ),
        (r == AddToBasketResult::CountIncremented <==> line_count(
            old(basket_service)@,
            user_id@,
            product_id@,
            seller_id@,
        ) is Some),
        (r == AddToBasketResult::ItemAdded <==> has_active(old(basket_service)@, user_id@)
            && line_count(old(basket_service)@, user_id@, product_id@, seller_id@) is None),
        (r == AddToBasketResult::BasketCreated <==> !has_active(old(basket_service)@, user_id@)),
{
    proof {
        lemma_add_to_basket_effect(
            basket_service@,
            user_id@,
            product_id@,
            seller_id@,
            listing_id@,
        );
        if !has_active(basket_service@, user_id@) {
            assert(active_items(basket_service@, user_id@) =~= Seq::<ItemModel>::empty());
        }
    }
    let has = basket_service.get_active(user_id).is_some();
    if has {
        user_has_active_basket(basket_service, product_id, seller_id, listing_id, user_id)
    } else {
        user_does_not_have_active_basket(
            basket_service,
            product_id,
            seller_id,
            listing_id,
            user_id,
        )
    }
}

/// The caller has an active basket: try the atomic increment; when the line
/// is absent, append a fresh count-1 line instead.
fn user_has_active_basket(
    basket_service: &mut BasketService,
    product_id: &String,
    seller_id: &String,
    listing_id: &String,
    user_id: &String,
) -> (r: AddToBasketResult)
    requires
        old(basket_service).wf(),
        has_active(old(basket_service)@, user_id@),
        incr_ok(old(basket_service)@, user_id@, product_id@, seller_id@),
    ensures
        final(basket_service).wf(),
        final(basket_service)@ == spec_add_to_basket(
            old(basket_service)@,
            user_id@,
            product_id@,
            seller_id@,
            listing_id@,
        ),
        (r == AddToBasketResult::CountIncremented <==> line_count(
            old(basket_service)@,
            user_id@,
            product_id@,
            seller_id@,
        ) is Some),
        (r == AddToBasketResult::ItemAdded <==> line_count(
            old(basket_service)@,
            user_id@,
            product_id@,
            seller_id@,
        ) is None),
{
    proof {
        if line_count(basket_service@, user_id@, product_id@, seller_id@) is Some {
            lemma_line_count_bounds(basket_service@, user_id@, product_id@, seller_id@);
        }
    }
    match basket_service.update_product_count(product_id, seller_id, user_id, 1) {
        Some(_updated) => AddToBasketResult::CountIncremented,
        None => {
            basket_service.add_item(product_id, seller_id, listing_id, user_id);
            AddToBasketResult::ItemAdded
        },
    }
}

/// The caller has no active basket: create one around a count-1 line.
fn user_does_not_have_active_basket(
    basket_service: &mut BasketService,
    product_id: &String,
    seller_id: &String,
    listing_id: &String,
    user_id: &String,
) -> (r: AddToBasketResult)
    requires
        old(basket_service).wf(),
        !has_active(old(basket_service)@, user_id@),
    ensures
        final(basket_service).wf(),
        final(basket_service)@ == spec_create(
            old(basket_service)@,
            user_id@,
            ItemModel { product: product_id@, seller: seller_id@, listing: listing_id@, count: 1 },
        ),
        r == AddToBasketResult::BasketCreated,
{
    let basket_item = BasketItem::new(
        product_id.clone(),
        seller_id.clone(),
        listing_id.clone(),
        1,
    );
    let ghost im = basket_item@;
    let basket = Basket::new(user_id.clone(), vec![basket_item], true);
    proof {
        assert(basket@.items =~= seq![im]);
        assert(basket@ == new_basket(user_id@, im));
        assert(basket@.items[0] == im);
    }
    let created = basket_service.create(basket);
    proof {
        assert(created);
    }
    AddToBasketResult::BasketCreated
}

/// How a "decrement by one" request was satisfied.
#[derive(Clone, Copy, Debug, PartialEq, Eq)]
pub enum DecrementResult {
    /// The line stood at count 1: it was removed outright.
    ItemRemoved,
    /// The line stood higher: its count went down by one.
    CountDecremented,
    /// No active basket carried that line: nothing changed.
    LineItemNotFound,
}

/// The "decrement by one" algorithm: check for a count-1 line first and
/// remove it whole, so a zero count is never written; otherwise decrement.
pub fn decrement_product_count(
    basket_service: &mut BasketService,
    product_id: &String,
    seller_id: &String,
    user_id: &String,
) -> (r: DecrementResult)
    requires
        old(basket_service).wf(),
    ensures
        final(basket_service).wf(),
        final(basket_service)@ == spec_decrement(
            old(basket_service)@,
            user_id@,
            product_id@,
            seller_id@,
        ),
        has_active(final(basket_service)@, user_id@) == has_active(
            old(basket_service)@,
            user_id@,
        ),
        line_count(final(basket_service)@, user_id@, product_id@, seller_id@) == (match line_count(
            old(basket_service)@,
            user_id@,
            product_id@,
            seller_id@,
        ) {
            Some(c) => if c == 1 {
                None::<int>
            } else {
                Some(c - 1)
            },
            None => None::<int>,
        }),
        (r == DecrementResult::ItemRemoved <==> line_count(
            old(basket_service)@,
            user_id@,
            product_id@,
            seller_id@,
        ) == Some(1int)),
        (r == DecrementResult::CountDecremented <==> (line_count(
            old(basket_service)@,
            user_id@,
            product_id@,
            seller_id@,
        ) matches Some(c) && c != 1)),
        (r == DecrementResult::LineItemNotFound <==> line_count(
            old(basket_service)@,
            user_id@,
            product_id@,
            seller_id@,
        ) is None),
{
    proof {
        lemma_decrement_effect(basket_service@, user_id@, product_id@, seller_id@);
        if line_count(basket_service@, user_id@, product_id@, seller_id@) is Some {
            lemma_line_count_bounds(basket_service@, user_id@, product_id@, seller_id@);
        }
    }
    let count_one = basket_service.get_product_with_count_one(
        product_id.clone(),
        seller_id.clone(),
        user_id.clone(),
    ).is_some();
    if count_one {
        basket_service.remove_product(product_id, seller_id, user_id);
        DecrementResult::ItemRemoved
    } else {
        match basket_service.update_product_count(product_id, seller_id, user_id, -1) {
            Some(_updated) => DecrementResult::CountDecremented,
            None => DecrementResult::LineItemNotFound,
        }
    }
}

/// How a "change quantity" request was satisfied.
#[derive(Debug)]
pub enum QuantityUpdate {
    /// A positive count: the line's count went up by one; the updated line
    /// is handed back.
    Incremented(BasketItem),
    /// A non-positive count on a line above 1: the count went down by one.
    Decremented,
    /// A non-positive count on a count-1 line: the line was removed whole.
    Removed,
    /// No active basket carries that line: nothing changed.
    LineItemNotFound,
}

/// The "change quantity" entry: quantity is never set absolutely — any
/// positive count means one increment of the line, anything else one
/// decrement step.
pub fn update(
    basket_service: &mut BasketService,
    count: i32,
    product_id: &String,
    seller_id: &String,
    user_id: &String,
) -> (r: QuantityUpdate)
    requires
        old(basket_service).wf(),
        count > 0 ==> incr_ok(old(basket_service)@, user_id@, product_id@, seller_id@),
    ensures
        final(basket_service).wf(),
        count > 0 ==> final(basket_service)@ == spec_incr(
            old(basket_service)@,
            user_id@,
            product_id@,
            seller_id@,
            1,
        ),
        count <= 0 ==> final(basket_service)@ == spec_decrement(
            old(basket_service)@,
            user_id@,
            product_id@,
            seller_id@,
        ),
        count > 0 ==> ((r is Incremented) <==> line_count(
            old(basket_service)@,
            user_id@,
            product_id@,
            seller_id@,
        ) is Some),
        count > 0 ==> (r matches QuantityUpdate::Incremented(it) ==> item_like(
            it@,
            product_id@,
            seller_id@,
        ) && it@.count == line_count(old(basket_service)@, user_id@, product_id@, seller_id@)->Some_0
            + 1),
        count > 0 ==> r != QuantityUpdate::Decremented && r != QuantityUpdate::Removed,
        count <= 0 ==> ((r == QuantityUpdate::Removed) <==> line_count(
            old(basket_service)@,
            user_id@,
            product_id@,
            seller_id@,
        ) == Some(1int)),
        count <= 0 ==> ((r == QuantityUpdate::Decremented) <==> (line_count(
            old(basket_service)@,
            user_id@,
            product_id@,
            seller_id@,
        ) matches Some(c) && c != 1)),
        count <= 0 ==> !(r is Incremented),
        (r == QuantityUpdate::LineItemNotFound) <==> line_count(
            old(basket_service)@,
            user_id@,
            product_id@,
            seller_id@,
        ) is None,
{
    if count > 0 {
        proof {
            if line_count(basket_service@, user_id@, product_id@, seller_id@) is Some {
                lemma_line_count_bounds(basket_service@, user_id@, product_id@, seller_id@);
            }
        }
        match basket_service.update_product_count(product_id, seller_id, user_id, 1) {
            Some(updated) => QuantityUpdate::Incremented(updated),
            None => QuantityUpdate::LineItemNotFound,
        }
    } else {
        match decrement_product_count(basket_service, product_id, seller_id, user_id) {
            DecrementResult::ItemRemoved => QuantityUpdate::Removed,
            DecrementResult::CountDecremented => QuantityUpdate::Decremented,
            DecrementResult::LineItemNotFound => QuantityUpdate::LineItemNotFound,
        }
    }
}

/// Create the guest identity `id` — however the caller came by it — with its
/// first active basket around the given line, and mint its session token.
/// Success comes exactly when neither store already knows the identifier;
/// a conflict leaves both stores untouched.
pub fn create_guest_for_id(
    user_service: &mut UserService,
    basket_service: &mut BasketService,
    auth: &Resolve,
    id: &String,
    product_id: &String,
    seller_id: &String,
    listing_id: &String,
) -> (r: Result<String, CoreError>)
    requires
        old(user_service).wf(),
        old(basket_service).wf(),
    ensures
        final(user_service).wf(),
        final(basket_service).wf(),
        r is Ok <==> !has_user(old(user_service)@, id@) && !has_active(
            old(basket_service)@,
            id@,
        ),
        r is Err ==> r == Err::<String, CoreError>(CoreError::StoreConflict) && final(user_service)@ == old(user_service)@
            && final(basket_service)@ == old(basket_service)@,
        r matches Ok(t) ==> ({
            &&& final(user_service)@ == spec_add_guest(old(user_service)@, id@)
            &&& final(basket_service)@ == spec_create(
                old(basket_service)@,
                id@,
                ItemModel {
                    product: product_id@,
                    seller: seller_id@,
                    listing: listing_id@,
                    count: 1,
                },
            )
            &&& t@ == token_of(id@, "guest"@, auth.spec_secret())
            &&& spec_resolve_token(t@, auth.spec_secret()) == (IdentityModel::Known {
                subject: id@,
                kind: UserKind::Guest,
            })
        }),
{
    if basket_service.get_active(id).is_some() {
        return Err(CoreError::StoreConflict);
    }
    if !user_service.create_anon(id.clone()) {
        return Err(CoreError::StoreConflict);
    }
    let basket_item = BasketItem::new(
        product_id.clone(),
        seller_id.clone(),
        listing_id.clone(),
        1,
    );
    let ghost im = basket_item@;
    let basket = Basket::new(id.clone(), vec![basket_item], true);
    proof {
        assert(basket@.items =~= seq![im]);
        assert(basket@ == new_basket(id@, im));
        assert(basket@.items[0] == im);
    }
    let created = basket_service.create(basket);
    proof {
        assert(created);
    }
    Ok(auth.get_guest_user_token(id))
}

/// Mint a fresh guest identity and create its first active basket around the
/// given line.  Returns the new subject id and its guest session token.  The
/// identifier is drawn from the outside id generator; what follows the draw
/// is [`create_guest_for_id`], which is exact in the drawn value.
pub fn create_anon_with_basket(
    user_service: &mut UserService,
    basket_service: &mut BasketService,
    auth: &Resolve,
    product_id: &String,
    seller_id: &String,
    listing_id: &String,
) -> (r: Result<(String, String), CoreError>)
    requires
        old(user_service).wf(),
        old(basket_service).wf(),
    ensures
        final(user_service).wf(),
        final(basket_service).wf(),
        r is Err ==> r == Err::<(String, String), CoreError>(CoreError::StoreConflict) && final(user_service)@ == old(user_service)@
            && final(basket_service)@ == old(basket_service)@,
        r matches Ok(p) ==> ({
            &&& p.0@.len() == 24
            &&& !has_user(old(user_service)@, p.0@)
            &&& !has_active(old(basket_service)@, p.0@)
            &&& final(user_service)@ == spec_add_guest(old(user_service)@, p.0@)
            &&& final(basket_service)@ == spec_create(
                old(basket_service)@,
                p.0@,
                ItemModel {
                    product: product_id@,
                    seller: seller_id@,
                    listing: listing_id@,
                    count: 1,
                },
            )
            &&& p.1@ == token_of(p.0@, "guest"@, auth.spec_secret())
            &&& spec_resolve_token(p.1@, auth.spec_secret()) == (IdentityModel::Known {
                subject: p.0@,
                kind: UserKind::Guest,
            })
        }),
{
    let id = fresh_object_id();
    match create_guest_for_id(
        user_service,
        basket_service,
        auth,
        &id,
        product_id,
        seller_id,
        listing_id,
    ) {
        Ok(token) => Ok((id, token)),
        Err(e) => Err(e),
    }
}

/// Outcome of the cart entry point.
#[derive(Debug)]
pub enum AddOutcome {
    /// An identified caller's basket was updated.
    Known(AddToBasketResult),
    /// An anonymous caller was given a fresh guest identity — subject id and
    /// session token — and a new active basket holding the line.
    NewGuest { user_id: String, token: String },
}

/// The cart entry point: an anonymous caller first becomes a guest with a
/// new basket; a known caller's basket is updated in place.
pub fn add(
    identity: &Identity,
    user_service: &mut UserService,
    basket_service: &mut BasketService,
    auth: &Resolve,
    product_id: &String,
    seller_id: &String,
    listing_id: &String,
) -> (r: Result<AddOutcome, CoreError>)
    requires
        old(user_service).wf(),
        old(basket_service).wf(),
        identity matches Identity::Known { subject, .. } ==> incr_ok(
            old(basket_service)@,
            subject@,
            product_id@,
            seller_id@,
        ),
    ensures
        final(user_service).wf(),
        final(basket_service).wf(),
        identity matches Identity::Known { subject, .. } ==> final(user_service)@ == old(
            user_service,
        )@ && final(basket_service)@ == spec_add_to_basket(
            old(basket_service)@,
            subject@,
            product_id@,
            seller_id@,
            listing_id@,
        ) && (r matches Ok(o) && o matches AddOutcome::Known(res) && (
        res == AddToBasketResult::CountIncremented <==> line_count(
            old(basket_service)@,
            subject@,
            product_id@,
            seller_id@,
        ) is Some) && (res == AddToBasketResult::ItemAdded <==> has_active(
            old(basket_service)@,
            subject@,
        ) && line_count(old(basket_service)@, subject@, product_id@, seller_id@) is None) && (
        res == AddToBasketResult::BasketCreated <==> !has_active(
            old(basket_service)@,
            subject@,
        ))),
        identity is Anonymous ==> ({
            &&& r matches Ok(o) ==> o matches AddOutcome::NewGuest { user_id, token } && ({
                &&& user_id@.len() == 24
                &&& !has_user(old(user_service)@, user_id@)
                &&& final(user_service)@ == spec_add_guest(old(user_service)@, user_id@)
                &&& final(basket_service)@ == spec_create(
                    old(basket_service)@,
                    user_id@,
                    ItemModel {
                        product: product_id@,
                        seller: seller_id@,
                        listing: listing_id@,
                        count: 1,
                    },
                )
                &&& token@ == token_of(user_id@, "guest"@, auth.spec_secret())
            })
            &&& r matches Err(e) ==> e == CoreError::StoreConflict && final(user_service)@ == old(
                user_service,
            )@ && final(basket_service)@ == old(basket_service)@
        }),
{
    match identity {
        Identity::Known { subject, kind: _ } => {
            let res = add_to_basket(basket_service, subject, product_id, seller_id, listing_id);
            Ok(AddOutcome::Known(res))
        },
        Identity::Anonymous => {
            match create_anon_with_basket(
                user_service,
                basket_service,
                auth,
                product_id,
                seller_id,
                listing_id,
            ) {
                Ok((user_id, token)) => Ok(AddOutcome::NewGuest { user_id, token }),
                Err(e) => Err(e),
            }
        },
    }
}

} // verus!
