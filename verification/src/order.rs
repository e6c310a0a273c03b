//! Orders and the order composer.
//!
//! An order freezes a snapshot of the caller's active basket content and of
//! the chosen address; it is immutable once written.  Creating an order and
//! deactivating the source basket are two steps of one logical operation;
//! in this sequential model the deactivation provably succeeds, and the
//! distinct `BasketToDeleteNotFound` outcome — a concurrent deactivation
//! observed by the store — is proved unreachable here.

use vstd::prelude::*;
use crate::address::{Address, AddressModel, AddressService, has_address, address_ix, clone_address};
use crate::basket::{
    BasketItem, ItemModel, BasketService, items_view, clone_items, has_active, active_ix,
    active_items, spec_deactivate, lemma_deactivate_effect, lemma_active_ix,
};

verus! {

/// The lifecycle status of an order.  New orders are `Created`.
#[derive(Clone, Copy, Debug, PartialEq, Eq)]
pub enum Status {
    Created,
    Cancelled,
    Taken,
    Preparing,
    Shipping,
    Shipped,
}

/// An order document: owner, frozen basket snapshot, frozen address, status.
pub struct Order {
    pub user_id: String,
    pub basket: Vec<BasketItem>,
    pub address: Address,
    pub status: Status,
}

/// Spec mirror of an order document.
pub ghost struct OrderModel {
    pub user: Seq<char>,
    pub items: Seq<ItemModel>,
    pub address: AddressModel,
    pub status: Status,
}

impl View for Order {
    type V = OrderModel;

    open spec fn view(&self) -> OrderModel {
        OrderModel {
            user: self.user_id@,
            items: items_view(self.basket@),
            address: self.address@,
            status: self.status,
        }
    }
}

impl Order {
    pub fn new(user_id: String, basket: Vec<BasketItem>, address: Address, status: Status) -> (r:
        Order)
        ensures
            r@ == (OrderModel {
                user: user_id@,
                items: items_view(basket@),
                address: address@,
                status,
            }),
    {
        Order { user_id, basket, address, status }
    }
}

/// The orders owned by `user`, in store order.
pub open spec fn orders_of(s: Seq<OrderModel>, user: Seq<char>) -> Seq<OrderModel>
    decreases s.len(),
{
    if s.len() == 0 {
        Seq::empty()
    } else {
        let rest = orders_of(s.drop_last(), user);
        if s.last().user == user {
            rest.push(s.last())
        } else {
            rest
        }
    }
}

/// The order store.  Orders only ever accumulate; none is mutated.
pub struct OrderService {
    orders: Vec<Order>,
}

impl View for OrderService {
    type V = Seq<OrderModel>;

    closed spec fn view(&self) -> Seq<OrderModel> {
        self.orders@.map_values(|o: Order| o@)
    }
}

impl OrderService {
    pub fn new() -> (r: OrderService)
        ensures
            r@ == Seq::<OrderModel>::empty(),
    {
        let r = OrderService { orders: Vec::new() };
        proof {
            assert(r@ =~= Seq::<OrderModel>::empty());
        }
        r
    }

    /// Append an immutable order document.
    pub fn create(&mut self, order: Order)
        ensures
            final(self)@ == old(self)@.push(order@),
    {
        let ghost s0 = self@;
        let ghost om = order@;
        self.orders.push(order);
        proof {
            assert(self@ =~= s0.push(om));
        }
    }

    /// All orders owned by `user_id`, in store order, borrowed from the
    /// store.
    pub fn get_all(&self, user_id: &String) -> (r: Vec<&Order>)
        ensures
            r@.map_values(|o: &Order| o@) == orders_of(self@, user_id@),
    {
        let mut out: Vec<&Order> = Vec::new();
        let mut i: usize = 0;
        while i < self.orders.len()
            invariant
                0 <= i <= self.orders.len(),
                self@.len() == self.orders.len(),
                out@.map_values(|o: &Order| o@) == orders_of(self@.subrange(0, i as int), user_id@),
            decreases self.orders.len() - i,
        {
            let o = &self.orders[i];
            proof {
                assert(self@.subrange(0, i + 1).drop_last() =~= self@.subrange(0, i as int));
                assert(self@.subrange(0, i + 1).last() == self@[i as int]);
            }
            if o.user_id == *user_id {
                out.push(o);
            }
            proof {
                assert(out@.map_values(|o: &Order| o@) =~= orders_of(
                    self@.subrange(0, i + 1),
                    user_id@,
                ));
            }
            i += 1;
        }
        proof {
            assert(self@.subrange(0, self@.len() as int) =~= self@);
        }
        out
    }
}

/// Outcome of order creation.  `BasketToDeleteNotFound` reports an order
/// that was written while the basket's deactivation found no active basket —
/// a concurrent deactivation; in this sequential model it cannot occur.
#[derive(Debug)]
pub enum CreateOrderResponse {
    OrderCreated,
    ActiveBasketNotFound,
    AddressNotFound,
    BasketToDeleteNotFound,
}

/// Compose an order: resolve the address, snapshot the caller's active
/// basket, write the immutable order, then deactivate the source basket.
/// An absent address or an absent active basket fails fast and writes
/// nothing.
pub fn create_order(
    order_service: &mut OrderService,
    basket_service: &mut BasketService,
    address_service: &AddressService,
    user_id: String,
    address_id: String,
) -> (r: CreateOrderResponse)
    requires
        old(basket_service).wf(),
        address_service.wf(),
    ensures
        final(basket_service).wf(),
        !has_address(address_service@, address_id@) ==> r == CreateOrderResponse::AddressNotFound
            && final(order_service)@ == old(order_service)@ && final(basket_service)@ == old(
            basket_service,
        )@,
        has_address(address_service@, address_id@) && !has_active(old(basket_service)@, user_id@)
            ==> r == CreateOrderResponse::ActiveBasketNotFound && final(order_service)@ == old(
            order_service,
        )@ && final(basket_service)@ == old(basket_service)@,
        has_address(address_service@, address_id@) && has_active(old(basket_service)@, user_id@)
            ==> r == CreateOrderResponse::OrderCreated && final(order_service)@ == old(
            order_service,
        )@.push(
            OrderModel {
                user: user_id@,
                items: active_items(old(basket_service)@, user_id@),
                address: address_service@[address_ix(address_service@, address_id@)].address,
                status: Status::Created,
            },
        ) && final(basket_service)@ == spec_deactivate(old(basket_service)@, user_id@),
        r != CreateOrderResponse::BasketToDeleteNotFound,
{
    let address = match address_service.find(&address_id) {
        Some(a) => clone_address(a),
        None => {
            return CreateOrderResponse::AddressNotFound;
        },
    };
    let items = match basket_service.get_active(&user_id) {
        Some(b) => clone_items(&b.content),
        None => {
            return CreateOrderResponse::ActiveBasketNotFound;
        },
    };
    proof {
        lemma_active_ix(basket_service@, user_id@);
    }
    let order = Order::new(user_id.clone(), items, address, Status::Created);
    order_service.create(order);
    proof {
        lemma_deactivate_effect(basket_service@, user_id@);
    }
    match basket_service.delete(&user_id) {
        Some(_prior) => CreateOrderResponse::OrderCreated,
        None => {
            proof {
                assert(false);
            }
            CreateOrderResponse::BasketToDeleteNotFound
        },
    }
}

} // verus!
