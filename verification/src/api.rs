//! The wire shapes of the HTTP layer: request bodies, path parameters and
//! response payloads.  The HTTP layer binds JSON to copies of these (which
//! carry the serde derives) and converts; the library's functions take and
//! return the plain values they hold.

use vstd::prelude::*;

verus! {

/// Body of "add to basket": the listing the caller picked; product and
/// seller are resolved from it.
pub struct Body {
    pub listing_id: String,
}

/// Response payload carrying a created document id and a message.
pub struct Response {
    pub id: String,
    pub message: String,
}

/// Body of "change quantity": positive count increments by one, any other
/// count decrements by one.
pub struct UpdateBody {
    pub listing_id: String,
    pub count: i32,
}

/// Body of registration and login.
pub struct CreateUserBody {
    pub phone: String,
    pub password: String,
}

/// Told to a caller who registers a phone number that already exists.
pub struct UserAlreadyRegisteredResponse {
    pub user_already_registered: bool,
}

/// Told to a caller who logs in with an unknown phone number.
pub struct UserNotExistResponse {
    pub user_not_exist: bool,
}

/// Told to a caller who logs in with the wrong password.
pub struct WrongPasswordResponse {
    pub wrong_password: bool,
}

/// Told to a caller whose guest session collides with a registered identity.
pub struct AlreadyGuestResponse {
    pub already_guest: bool,
    pub guest_id: String,
    pub registered_id: String,
}

/// Body of address creation and update.
pub struct CreateAddressBody {
    pub name: String,
    pub surname: String,
    pub title: String,
    pub text: String,
    pub district_id: i32,
    pub neighborhood_id: i32,
}

/// Response payload of address creation.
pub struct CreatedResponse {
    pub id: String,
    pub message: String,
}

/// Path parameter of address update.
pub struct UpdatePath {
    pub address_id: String,
}

/// Body of order creation.
pub struct CreateOrderBody {
    pub address_id: String,
}

/// Path parameter of order lookup.
pub struct FindPath {
    pub id: String,
}

/// Path parameter of the per-seller listing view.
pub struct GetForSellerPath {
    pub seller: String,
}

/// Path parameter of seller lookup.
pub struct GetPath {
    pub name: String,
}

} // verus!
