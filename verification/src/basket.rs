//! Baskets, line items and the basket store.
//!
//! The store is modelled as the sequence of all basket documents.  Its
//! central invariant, [`store_wf`], says that every basket is well formed
//! (counts at least 1, one line per (product, seller) pair) and that each
//! user has at most one basket with `active == true`.  Every operation is a
//! state transition written twice: as a spec function over the model and as
//! an executable method whose contract ties the new state to that spec
//! function.

use vstd::prelude::*;

verus! {

/// One line item of a basket, uniquely identified inside its basket by the
/// (product, seller) pair.  `count` never goes below 1: a decrement that
/// would reach zero removes the line instead.
#[derive(Debug)]
pub struct BasketItem {
    pub product_id: String,
    pub seller_id: String,
    pub listing_id: String,
    pub count: u32,
}

/// Mathematical mirror of a line item.
pub ghost struct ItemModel {
    pub product: Seq<char>,
    pub seller: Seq<char>,
    pub listing: Seq<char>,
    pub count: int,
}

impl View for BasketItem {
    type V = ItemModel;

    open spec fn view(&self) -> ItemModel {
        ItemModel {
            product: self.product_id@,
            seller: self.seller_id@,
            listing: self.listing_id@,
            count: self.count as int,
        }
    }
}

impl BasketItem {
    pub fn new(product_id: String, seller_id: String, listing_id: String, count: u32) -> (r:
        BasketItem)
        ensures
            r@ == (ItemModel {
                product: product_id@,
                seller: seller_id@,
                listing: listing_id@,
                count: count as int,
            }),
    {
        BasketItem { product_id, seller_id, listing_id, count }
    }
}

/// A basket document: owner, ordered line items, and the `active` flag.
/// Baskets are deactivated when turned into an order, never deleted.
pub struct Basket {
    pub user_id: String,
    pub content: Vec<BasketItem>,
    pub active: bool,
}

/// Mathematical mirror of a basket document.
pub ghost struct BasketModel {
    pub user: Seq<char>,
    pub items: Seq<ItemModel>,
    pub active: bool,
}

/// The item sequence a vector of line items stands for.
pub open spec fn items_view(v: Seq<BasketItem>) -> Seq<ItemModel> {
    v.map_values(|it: BasketItem| it@)
}

impl View for Basket {
    type V = BasketModel;

    open spec fn view(&self) -> BasketModel {
        BasketModel { user: self.user_id@, items: items_view(self.content@), active: self.active }
    }
}

impl Basket {
    pub fn new(user_id: String, content: Vec<BasketItem>, active: bool) -> (r: Basket)
        ensures
            r@ == (BasketModel { user: user_id@, items: items_view(content@), active }),
    {
        Basket { user_id, content, active }
    }
}

/// Whether a line item carries the given (product, seller) pair.
pub open spec fn item_like(it: ItemModel, product: Seq<char>, seller: Seq<char>) -> bool {
    it.product == product && it.seller == seller
}

/// Whether some line with the given pair occurs in `items`.
pub open spec fn has_line(items: Seq<ItemModel>, product: Seq<char>, seller: Seq<char>) -> bool {
    exists|i: int| 0 <= i < items.len() && item_like(#[trigger] items[i], product, seller)
}

/// The index of the line with the given pair (meaningful when `has_line`).
pub open spec fn line_ix(items: Seq<ItemModel>, product: Seq<char>, seller: Seq<char>) -> int {
    choose|i: int| 0 <= i < items.len() && item_like(#[trigger] items[i], product, seller)
}

/// Well-formed item collection: every count is in [1, u32::MAX] and no two
/// lines carry the same (product, seller) pair.
pub open spec fn items_wf(items: Seq<ItemModel>) -> bool {
    &&& forall|i: int| 0 <= i < items.len() ==> 1 <= (#[trigger] items[i]).count <= u32::MAX
    &&& forall|i: int, j: int| #![trigger items[i], items[j]]
        0 <= i < j < items.len() ==> !(items[i].product == items[j].product && items[i].seller
            == items[j].seller)
}

/// Store invariant: every basket is well formed and no user owns two active
/// baskets.
pub open spec fn store_wf(s: Seq<BasketModel>) -> bool {
    &&& forall|k: int| 0 <= k < s.len() ==> items_wf((#[trigger] s[k]).items)
    &&& forall|i: int, j: int| #![trigger s[i], s[j]]
        0 <= i < s.len() && 0 <= j < s.len() && i != j && s[i].active && s[j].active ==> s[i].user
            != s[j].user
}

/// Whether `user` has an active basket in store state `s`.
pub open spec fn has_active(s: Seq<BasketModel>, user: Seq<char>) -> bool {
    exists|i: int| 0 <= i < s.len() && (#[trigger] s[i]).active && s[i].user == user
}

/// The index of the active basket of `user` (meaningful when `has_active`).
pub open spec fn active_ix(s: Seq<BasketModel>, user: Seq<char>) -> int {
    choose|i: int| 0 <= i < s.len() && (#[trigger] s[i]).active && s[i].user == user
}

/// The line items of the active basket of `user`, or the empty sequence when
/// there is none.
pub open spec fn active_items(s: Seq<BasketModel>, user: Seq<char>) -> Seq<ItemModel> {
    if has_active(s, user) {
        s[active_ix(s, user)].items
    } else {
        Seq::empty()
    }
}

/// The count on the (product, seller) line of the active basket of `user`,
/// or `None` when there is no active basket or no such line.
pub open spec fn line_count(
    s: Seq<BasketModel>,
    user: Seq<char>,
    product: Seq<char>,
    seller: Seq<char>,
) -> Option<int> {
    let items = active_items(s, user);
    if has_line(items, product, seller) {
        Some(items[line_ix(items, product, seller)].count)
    } else {
        None
    }
}

/// No point in time sees two active baskets of one user: in a well-formed
/// store state, any two indices that both hold an active basket of the same
/// user are equal.
pub proof fn lemma_active_basket_unique(s: Seq<BasketModel>, user: Seq<char>, i: int, j: int)
    requires
        store_wf(s),
        0 <= i < s.len(),
        s[i].active,
        s[i].user == user,
        0 <= j < s.len(),
        s[j].active,
        s[j].user == user,
    ensures
        i == j,
{
    if i != j {
        assert(s[i].user != s[j].user);
    }
}

/// In a well-formed item collection, any two indices holding the same
/// (product, seller) pair are equal: a basket has at most one line per pair.
pub proof fn lemma_line_unique(
    items: Seq<ItemModel>,
    product: Seq<char>,
    seller: Seq<char>,
    i: int,
    j: int,
)
    requires
        items_wf(items),
        0 <= i < items.len(),
        item_like(items[i], product, seller),
        0 <= j < items.len(),
        item_like(items[j], product, seller),
    ensures
        i == j,
{
    if i < j {
        assert(!(items[i].product == items[j].product && items[i].seller == items[j].seller));
    }
    if j < i {
        assert(!(items[j].product == items[i].product && items[j].seller == items[i].seller));
    }
}

/// `active_ix` is the one index of the user's active basket.
pub proof fn lemma_active_ix(s: Seq<BasketModel>, user: Seq<char>)
    requires
        store_wf(s),
        has_active(s, user),
    ensures
        0 <= active_ix(s, user) < s.len(),
        s[active_ix(s, user)].active,
        s[active_ix(s, user)].user == user,
        forall|i: int| 0 <= i < s.len() && (#[trigger] s[i]).active && s[i].user == user ==> i
            == active_ix(s, user),
{
    let a = active_ix(s, user);
    assert(0 <= a < s.len() && s[a].active && s[a].user == user);
    assert forall|i: int|
        0 <= i < s.len() && (#[trigger] s[i]).active && s[i].user == user implies i == a by {
        lemma_active_basket_unique(s, user, i, a);
    }
}

/// `line_ix` is the one index of the (product, seller) line.
pub proof fn lemma_line_ix(items: Seq<ItemModel>, product: Seq<char>, seller: Seq<char>)
    requires
        items_wf(items),
        has_line(items, product, seller),
    ensures
        0 <= line_ix(items, product, seller) < items.len(),
        item_like(items[line_ix(items, product, seller)], product, seller),
        forall|i: int| 0 <= i < items.len() && item_like(#[trigger] items[i], product, seller)
            ==> i == line_ix(items, product, seller),
{
    let l = line_ix(items, product, seller);
    assert(0 <= l < items.len() && item_like(items[l], product, seller));
    assert forall|i: int|
        0 <= i < items.len() && item_like(#[trigger] items[i], product, seller) implies i == l by {
        lemma_line_unique(items, product, seller, i, l);
    }
}

/// The basket a first item-add creates: one line, active.
pub open spec fn new_basket(user: Seq<char>, item: ItemModel) -> BasketModel {
    BasketModel { user, items: seq![item], active: true }
}

/// Transition: insert a fresh basket document.
pub open spec fn spec_create(s: Seq<BasketModel>, user: Seq<char>, item: ItemModel) -> Seq<
    BasketModel,
> {
    s.push(new_basket(user, item))
}

/// Transition: add `delta` to the count of the (product, seller) line of the
/// user's active basket; the identity when there is no such line.
pub open spec fn spec_incr(
    s: Seq<BasketModel>,
    user: Seq<char>,
    product: Seq<char>,
    seller: Seq<char>,
    delta: int,
) -> Seq<BasketModel> {
    if has_active(s, user) && has_line(active_items(s, user), product, seller) {
        let a = active_ix(s, user);
        let items = s[a].items;
        let l = line_ix(items, product, seller);
        let it = items[l];
        let it2 = ItemModel {
            product: it.product,
            seller: it.seller,
            listing: it.listing,
            count: it.count + delta,
        };
        s.update(a, BasketModel { user: s[a].user, items: items.update(l, it2), active: s[a].active })
    } else {
        s
    }
}

/// Transition: append a new line to the user's active basket; the identity
/// when there is none.
pub open spec fn spec_add_item(s: Seq<BasketModel>, user: Seq<char>, item: ItemModel) -> Seq<
    BasketModel,
> {
    if has_active(s, user) {
        let a = active_ix(s, user);
        s.update(a, BasketModel { user: s[a].user, items: s[a].items.push(item), active: s[a].active })
    } else {
        s
    }
}

/// Transition: pull the (product, seller) line out of the user's active
/// basket; the identity when there is no such line.
pub open spec fn spec_remove(
    s: Seq<BasketModel>,
    user: Seq<char>,
    product: Seq<char>,
    seller: Seq<char>,
) -> Seq<BasketModel> {
    if has_active(s, user) && has_line(active_items(s, user), product, seller) {
        let a = active_ix(s, user);
        let items = s[a].items;
        s.update(
            a,
            BasketModel {
                user: s[a].user,
                items: items.remove(line_ix(items, product, seller)),
                active: s[a].active,
            },
        )
    } else {
        s
    }
}

/// Transition: flip the user's active basket to inactive; the identity when
/// there is none.
pub open spec fn spec_deactivate(s: Seq<BasketModel>, user: Seq<char>) -> Seq<BasketModel> {
    if has_active(s, user) {
        let a = active_ix(s, user);
        s.update(a, BasketModel { user: s[a].user, items: s[a].items, active: false })
    } else {
        s
    }
}

/// The "add to basket" algorithm: increment the line when it exists, append
/// a fresh line when the basket exists without it, create the basket
/// otherwise.
pub open spec fn spec_add_to_basket(
    s: Seq<BasketModel>,
    user: Seq<char>,
    product: Seq<char>,
    seller: Seq<char>,
    listing: Seq<char>,
) -> Seq<BasketModel> {
    let item = ItemModel { product, seller, listing, count: 1 };
    if has_active(s, user) {
        if has_line(active_items(s, user), product, seller) {
            spec_incr(s, user, product, seller, 1)
        } else {
            spec_add_item(s, user, item)
        }
    } else {
        spec_create(s, user, item)
    }
}

/// The "decrement by one" algorithm: remove the line when its count is 1,
/// decrement it otherwise; the identity when the line is absent.
pub open spec fn spec_decrement(
    s: Seq<BasketModel>,
    user: Seq<char>,
    product: Seq<char>,
    seller: Seq<char>,
) -> Seq<BasketModel> {
    match line_count(s, user, product, seller) {
        Some(c) => if c == 1 {
            spec_remove(s, user, product, seller)
        } else {
            spec_incr(s, user, product, seller, -1)
        },
        None => s,
    }
}

/// Room to add one more unit to the (product, seller) line, a machine limit.
pub open spec fn incr_ok(
    s: Seq<BasketModel>,
    user: Seq<char>,
    product: Seq<char>,
    seller: Seq<char>,
) -> bool {
    line_count(s, user, product, seller) matches Some(c) ==> c < u32::MAX
}

/// A line count taken from a well-formed store is between 1 and u32::MAX.
pub proof fn lemma_line_count_bounds(
    s: Seq<BasketModel>,
    user: Seq<char>,
    product: Seq<char>,
    seller: Seq<char>,
)
    requires
        store_wf(s),
        line_count(s, user, product, seller) is Some,
    ensures
        1 <= line_count(s, user, product, seller)->Some_0 <= u32::MAX,
{
    let items = active_items(s, user);
    assert(has_line(items, product, seller));
    assert(has_active(s, user)) by {
        if !has_active(s, user) {
            assert(items =~= Seq::<ItemModel>::empty());
        }
    }
    lemma_active_ix(s, user);
    assert(items_wf(items));
    lemma_line_ix(items, product, seller);
}

/// Effect of `spec_create` on a store without an active basket for `user`.
pub proof fn lemma_create_effect(s: Seq<BasketModel>, user: Seq<char>, item: ItemModel)
    requires
        store_wf(s),
        !has_active(s, user),
        1 <= item.count <= u32::MAX,
    ensures
        ({
            let s2 = spec_create(s, user, item);
            &&& store_wf(s2)
            &&& has_active(s2, user)
            &&& active_ix(s2, user) == s.len()
            &&& active_items(s2, user) == seq![item]
            &&& forall|p: Seq<char>, se: Seq<char>|
                (#[trigger] line_count(s2, user, p, se)) == (if item_like(item, p, se) {
                    Some(item.count)
                } else {
                    None::<int>
                })
        }),
{
    let s2 = spec_create(s, user, item);
    let b = new_basket(user, item);
    let n = s.len() as int;
    assert(s2[n] == b);
    assert(items_wf(b.items)) by {
        assert(b.items.len() == 1);
        assert(b.items[0] == item);
    }
    assert forall|k: int| 0 <= k < s2.len() implies items_wf((#[trigger] s2[k]).items) by {
        if k < n {
            assert(s2[k] == s[k]);
        }
    }
    assert forall|i: int, j: int|
        0 <= i < s2.len() && 0 <= j < s2.len() && i != j && (#[trigger] s2[i]).active
            && (#[trigger] s2[j]).active implies s2[i].user != s2[j].user by {
        if i < n && j < n {
            assert(s2[i] == s[i] && s2[j] == s[j]);
        } else if i == n {
            assert(s2[j] == s[j]);
            if s[j].user == user {
                assert(has_active(s, user));
            }
        } else {
            assert(s2[i] == s[i]);
            if s[i].user == user {
                assert(has_active(s, user));
            }
        }
    }
    assert(store_wf(s2));
    assert(has_active(s2, user)) by {
        assert(0 <= n < s2.len() && s2[n].active && s2[n].user == user);
    }
    lemma_active_ix(s2, user);
    assert(active_ix(s2, user) == n);
    let items = active_items(s2, user);
    assert(items == seq![item]);
    assert forall|p: Seq<char>, se: Seq<char>|
        (#[trigger] line_count(s2, user, p, se)) == (if item_like(item, p, se) {
            Some(item.count)
        } else {
            None::<int>
        }) by {
        if item_like(item, p, se) {
            assert(items[0] == item);
            assert(has_line(items, p, se));
            lemma_line_ix(items, p, se);
            assert(line_ix(items, p, se) == 0);
        } else {
            if has_line(items, p, se) {
                let w = choose|i: int| 0 <= i < items.len() && item_like(#[trigger] items[i], p, se);
                assert(w == 0);
                assert(items[0] == item);
            }
        }
    }
}

/// Effect of `spec_incr` when the line exists and the new count stays in
/// range: only that one count changes.
pub proof fn lemma_incr_effect(
    s: Seq<BasketModel>,
    user: Seq<char>,
    product: Seq<char>,
    seller: Seq<char>,
    delta: int,
)
    requires
        store_wf(s),
        line_count(s, user, product, seller) is Some,
        1 <= line_count(s, user, product, seller)->Some_0 + delta <= u32::MAX,
    ensures
        ({
            let s2 = spec_incr(s, user, product, seller, delta);
            &&& store_wf(s2)
            &&& s2.len() == s.len()
            &&& has_active(s2, user)
            &&& active_ix(s2, user) == active_ix(s, user)
            &&& forall|k: int|
                0 <= k < s.len() && k != active_ix(s, user) ==> #[trigger] s2[k] == s[k]
            &&& line_count(s2, user, product, seller) == Some(
                line_count(s, user, product, seller)->Some_0 + delta,
            )
            &&& forall|p2: Seq<char>, se2: Seq<char>|
                !(p2 == product && se2 == seller) ==> (#[trigger] line_count(s2, user, p2, se2))
                    == line_count(s, user, p2, se2)
        }),
{
    let items = active_items(s, user);
    assert(has_line(items, product, seller));
    assert(has_active(s, user)) by {
        if !has_active(s, user) {
            assert(items =~= Seq::<ItemModel>::empty());
        }
    }
    lemma_active_ix(s, user);
    let a = active_ix(s, user);
    assert(items_wf(items));
    lemma_line_ix(items, product, seller);
    let l = line_ix(items, product, seller);
    let it = items[l];
    let it2 = ItemModel {
        product: it.product,
        seller: it.seller,
        listing: it.listing,
        count: it.count + delta,
    };
    let items2 = items.update(l, it2);
    let b2 = BasketModel { user: s[a].user, items: items2, active: s[a].active };
    let s2 = spec_incr(s, user, product, seller, delta);
    assert(s2 == s.update(a, b2));
    assert forall|i: int| 0 <= i < items2.len() implies (#[trigger] items2[i]).product
        == items[i].product && items2[i].seller == items[i].seller by {
        if i != l {
            assert(items2[i] == items[i]);
        }
    }
    assert(items_wf(items2)) by {
        assert forall|i: int| 0 <= i < items2.len() implies 1 <= (#[trigger] items2[i]).count
            <= u32::MAX by {
            if i != l {
                assert(items2[i] == items[i]);
            }
        }
    }
    assert forall|k: int| 0 <= k < s2.len() implies items_wf((#[trigger] s2[k]).items) by {
        if k != a {
            assert(s2[k] == s[k]);
        }
    }
    assert forall|i: int, j: int|
        0 <= i < s2.len() && 0 <= j < s2.len() && i != j && (#[trigger] s2[i]).active
            && (#[trigger] s2[j]).active implies s2[i].user != s2[j].user by {
        assert(s2[i].user == s[i].user && s2[i].active == s[i].active);
        assert(s2[j].user == s[j].user && s2[j].active == s[j].active);
    }
    assert(store_wf(s2));
    assert(has_active(s2, user)) by {
        assert(s2[a].active && s2[a].user == user);
    }
    lemma_active_ix(s2, user);
    assert(active_ix(s2, user) == a);
    assert(active_items(s2, user) == items2);
    assert(item_like(items2[l], product, seller));
    assert(has_line(items2, product, seller));
    lemma_line_ix(items2, product, seller);
    assert(line_ix(items2, product, seller) == l);
    assert(line_count(s2, user, product, seller) == Some(it.count + delta));
    assert forall|p2: Seq<char>, se2: Seq<char>|
        !(p2 == product && se2 == seller) implies (#[trigger] line_count(s2, user, p2, se2))
            == line_count(s, user, p2, se2) by {
        if has_line(items, p2, se2) {
            lemma_line_ix(items, p2, se2);
            let w = line_ix(items, p2, se2);
            assert(w != l) by {
                if w == l {
                    assert(item_like(items[l], product, seller));
                    assert(item_like(items[l], p2, se2));
                }
            }
            assert(items2[w] == items[w]);
            assert(has_line(items2, p2, se2));
            lemma_line_ix(items2, p2, se2);
            assert(line_ix(items2, p2, se2) == w);
        } else {
            if has_line(items2, p2, se2) {
                let w = choose|i: int|
                    0 <= i < items2.len() && item_like(#[trigger] items2[i], p2, se2);
                assert(w != l) by {
                    if w == l {
                        assert(items2[l] == it2);
                    }
                }
                assert(items2[w] == items[w]);
                assert(has_line(items, p2, se2));
            }
        }
    }
}

/// Effect of `spec_add_item` on an active basket that lacks the new line.
pub proof fn lemma_add_item_effect(s: Seq<BasketModel>, user: Seq<char>, item: ItemModel)
    requires
        store_wf(s),
        has_active(s, user),
        !has_line(active_items(s, user), item.product, item.seller),
        1 <= item.count <= u32::MAX,
    ensures
        ({
            let s2 = spec_add_item(s, user, item);
            &&& store_wf(s2)
            &&& s2.len() == s.len()
            &&& has_active(s2, user)
            &&& active_ix(s2, user) == active_ix(s, user)
            &&& active_items(s2, user) == active_items(s, user).push(item)
            &&& forall|k: int|
                0 <= k < s.len() && k != active_ix(s, user) ==> #[trigger] s2[k] == s[k]
            &&& line_count(s2, user, item.product, item.seller) == Some(item.count)
            &&& forall|p2: Seq<char>, se2: Seq<char>|
                !(p2 == item.product && se2 == item.seller) ==> (#[trigger] line_count(
                    s2,
                    user,
                    p2,
                    se2,
                )) == line_count(s, user, p2, se2)
        }),
{
    lemma_active_ix(s, user);
    let a = active_ix(s, user);
    let items = s[a].items;
    assert(items_wf(items));
    let items2 = items.push(item);
    let n = items.len() as int;
    assert(items2[n] == item);
    let b2 = BasketModel { user: s[a].user, items: items2, active: s[a].active };
    let s2 = spec_add_item(s, user, item);
    assert(s2 == s.update(a, b2));
    assert(items_wf(items2)) by {
        assert forall|i: int| 0 <= i < items2.len() implies 1 <= (#[trigger] items2[i]).count
            <= u32::MAX by {
            if i < n {
                assert(items2[i] == items[i]);
            }
        }
        assert forall|i: int, j: int| #![trigger items2[i], items2[j]]
            0 <= i < j < items2.len() implies !(items2[i].product == items2[j].product
            && items2[i].seller == items2[j].seller) by {
            if j < n {
                assert(items2[i] == items[i] && items2[j] == items[j]);
            } else {
                assert(items2[i] == items[i] && items2[j] == item);
                if items[i].product == item.product && items[i].seller == item.seller {
                    assert(item_like(items[i], item.product, item.seller));
                    assert(has_line(items, item.product, item.seller));
                }
            }
        }
    }
    assert forall|k: int| 0 <= k < s2.len() implies items_wf((#[trigger] s2[k]).items) by {
        if k != a {
            assert(s2[k] == s[k]);
        }
    }
    assert forall|i: int, j: int|
        0 <= i < s2.len() && 0 <= j < s2.len() && i != j && (#[trigger] s2[i]).active
            && (#[trigger] s2[j]).active implies s2[i].user != s2[j].user by {
        assert(s2[i].user == s[i].user && s2[i].active == s[i].active);
        assert(s2[j].user == s[j].user && s2[j].active == s[j].active);
    }
    assert(store_wf(s2));
    assert(has_active(s2, user)) by {
        assert(s2[a].active && s2[a].user == user);
    }
    lemma_active_ix(s2, user);
    assert(active_ix(s2, user) == a);
    assert(active_items(s2, user) == items2);
    assert(item_like(items2[n], item.product, item.seller));
    assert(has_line(items2, item.product, item.seller));
    lemma_line_ix(items2, item.product, item.seller);
    assert(line_ix(items2, item.product, item.seller) == n);
    assert(line_count(s2, user, item.product, item.seller) == Some(item.count));
    assert forall|p2: Seq<char>, se2: Seq<char>|
        !(p2 == item.product && se2 == item.seller) implies (#[trigger] line_count(
        s2,
        user,
        p2,
        se2,
    )) == line_count(s, user, p2, se2) by {
        if has_line(items, p2, se2) {
            lemma_line_ix(items, p2, se2);
            let w = line_ix(items, p2, se2);
            assert(items2[w] == items[w]);
            assert(has_line(items2, p2, se2));
            lemma_line_ix(items2, p2, se2);
            assert(line_ix(items2, p2, se2) == w);
        } else {
            if has_line(items2, p2, se2) {
                let w = choose|i: int|
                    0 <= i < items2.len() && item_like(#[trigger] items2[i], p2, se2);
                assert(w != n) by {
                    if w == n {
                        assert(items2[n] == item);
                    }
                }
                assert(items2[w] == items[w]);
                assert(has_line(items, p2, se2));
            }
        }
    }
}

/// Effect of `spec_remove` when the line exists: exactly that line leaves.
pub proof fn lemma_remove_effect(
    s: Seq<BasketModel>,
    user: Seq<char>,
    product: Seq<char>,
    seller: Seq<char>,
)
    requires
        store_wf(s),
        line_count(s, user, product, seller) is Some,
    ensures
        ({
            let s2 = spec_remove(s, user, product, seller);
            &&& store_wf(s2)
            &&& s2.len() == s.len()
            &&& has_active(s2, user)
            &&& active_ix(s2, user) == active_ix(s, user)
            &&& forall|k: int|
                0 <= k < s.len() && k != active_ix(s, user) ==> #[trigger] s2[k] == s[k]
            &&& line_count(s2, user, product, seller) is None
            &&& !has_line(active_items(s2, user), product, seller)
            &&& forall|p2: Seq<char>, se2: Seq<char>|
                !(p2 == product && se2 == seller) ==> (#[trigger] line_count(s2, user, p2, se2))
                    == line_count(s, user, p2, se2)
        }),
{
    let items = active_items(s, user);
    assert(has_line(items, product, seller));
    assert(has_active(s, user)) by {
        if !has_active(s, user) {
            assert(items =~= Seq::<ItemModel>::empty());
        }
    }
    lemma_active_ix(s, user);
    let a = active_ix(s, user);
    assert(items_wf(items));
    lemma_line_ix(items, product, seller);
    let l = line_ix(items, product, seller);
    let items2 = items.remove(l);
    items.remove_ensures(l);
    let b2 = BasketModel { user: s[a].user, items: items2, active: s[a].active };
    let s2 = spec_remove(s, user, product, seller);
    assert(s2 == s.update(a, b2));
    // every index of items2 is an index of items, one past `l` shifted down
    assert forall|i: int| 0 <= i < l implies #[trigger] items2[i] == items[i] by {}
    assert forall|i: int| l <= i < items2.len() implies #[trigger] items2[i] == items[i + 1] by {}
    assert(items_wf(items2)) by {
        assert forall|i: int| 0 <= i < items2.len() implies 1 <= (#[trigger] items2[i]).count
            <= u32::MAX by {
            if i < l {
                assert(items2[i] == items[i]);
            } else {
                assert(items2[i] == items[i + 1]);
            }
        }
        assert forall|i: int, j: int| #![trigger items2[i], items2[j]]
            0 <= i < j < items2.len() implies !(items2[i].product == items2[j].product
            && items2[i].seller == items2[j].seller) by {
            let i0 = if i < l { i } else { i + 1 };
            let j0 = if j < l { j } else { j + 1 };
            assert(items2[i] == items[i0] && items2[j] == items[j0]);
            assert(i0 < j0);
        }
    }
    assert forall|k: int| 0 <= k < s2.len() implies items_wf((#[trigger] s2[k]).items) by {
        if k != a {
            assert(s2[k] == s[k]);
        }
    }
    assert forall|i: int, j: int|
        0 <= i < s2.len() && 0 <= j < s2.len() && i != j && (#[trigger] s2[i]).active
            && (#[trigger] s2[j]).active implies s2[i].user != s2[j].user by {
        assert(s2[i].user == s[i].user && s2[i].active == s[i].active);
        assert(s2[j].user == s[j].user && s2[j].active == s[j].active);
    }
    assert(store_wf(s2));
    assert(has_active(s2, user)) by {
        assert(s2[a].active && s2[a].user == user);
    }
    lemma_active_ix(s2, user);
    assert(active_ix(s2, user) == a);
    assert(active_items(s2, user) == items2);
    assert(!has_line(items2, product, seller)) by {
        if has_line(items2, product, seller) {
            let w = choose|i: int| 0 <= i < items2.len() && item_like(#[trigger] items2[i], product, seller);
            let w0 = if w < l { w } else { w + 1 };
            assert(items2[w] == items[w0]);
            lemma_line_unique(items, product, seller, w0, l);
        }
    }
    assert forall|p2: Seq<char>, se2: Seq<char>|
        !(p2 == product && se2 == seller) implies (#[trigger] line_count(s2, user, p2, se2))
            == line_count(s, user, p2, se2) by {
        if has_line(items, p2, se2) {
            lemma_line_ix(items, p2, se2);
            let w = line_ix(items, p2, se2);
            assert(w != l) by {
                if w == l {
                    assert(item_like(items[l], product, seller));
                }
            }
            let w2 = if w < l { w } else { w - 1 };
            assert(items2[w2] == items[w]);
            assert(has_line(items2, p2, se2));
            lemma_line_ix(items2, p2, se2);
            assert(line_ix(items2, p2, se2) == w2);
        } else {
            if has_line(items2, p2, se2) {
                let w = choose|i: int|
                    0 <= i < items2.len() && item_like(#[trigger] items2[i], p2, se2);
                let w0 = if w < l { w } else { w + 1 };
                assert(items2[w] == items[w0]);
                assert(has_line(items, p2, se2));
            }
        }
    }
}

/// Effect of `spec_deactivate`: afterwards the user has no active basket,
/// and the deactivated document keeps its content.
pub proof fn lemma_deactivate_effect(s: Seq<BasketModel>, user: Seq<char>)
    requires
        store_wf(s),
    ensures
        ({
            let s2 = spec_deactivate(s, user);
            &&& store_wf(s2)
            &&& s2.len() == s.len()
            &&& !has_active(s2, user)
            &&& has_active(s, user) ==> {
                let a = active_ix(s, user);
                &&& s2[a].items == s[a].items
                &&& s2[a].user == s[a].user
                &&& !s2[a].active
                &&& forall|k: int| 0 <= k < s.len() && k != a ==> #[trigger] s2[k] == s[k]
            }
            &&& !has_active(s, user) ==> s2 == s
        }),
{
    if has_active(s, user) {
        lemma_active_ix(s, user);
        let a = active_ix(s, user);
        let b2 = BasketModel { user: s[a].user, items: s[a].items, active: false };
        let s2 = spec_deactivate(s, user);
        assert(s2 == s.update(a, b2));
        assert forall|k: int| 0 <= k < s2.len() implies items_wf((#[trigger] s2[k]).items) by {
            if k != a {
                assert(s2[k] == s[k]);
            } else {
                assert(s2[k].items == s[k].items);
            }
        }
        assert forall|i: int, j: int|
            0 <= i < s2.len() && 0 <= j < s2.len() && i != j && (#[trigger] s2[i]).active
                && (#[trigger] s2[j]).active implies s2[i].user != s2[j].user by {
            assert(i != a && j != a);
            assert(s2[i] == s[i] && s2[j] == s[j]);
        }
        assert(store_wf(s2));
        assert(!has_active(s2, user)) by {
            if has_active(s2, user) {
                let w = choose|i: int|
                    0 <= i < s2.len() && (#[trigger] s2[i]).active && s2[i].user == user;
                assert(w != a);
                assert(s2[w] == s[w]);
                lemma_active_basket_unique(s, user, w, a);
            }
        }
    }
}

/// Effect of the full "add to basket" algorithm: afterwards the user has an
/// active basket whose (product, seller) line counts one more unit, and no
/// other line of that user changed.
pub proof fn lemma_add_to_basket_effect(
    s: Seq<BasketModel>,
    user: Seq<char>,
    product: Seq<char>,
    seller: Seq<char>,
    listing: Seq<char>,
)
    requires
        store_wf(s),
        incr_ok(s, user, product, seller),
    ensures
        ({
            let s2 = spec_add_to_basket(s, user, product, seller, listing);
            &&& store_wf(s2)
            &&& has_active(s2, user)
            &&& line_count(s2, user, product, seller) == Some(
                match line_count(s, user, product, seller) {
                    Some(c) => c + 1,
                    None => 1int,
                },
            )
            &&& forall|p2: Seq<char>, se2: Seq<char>|
                !(p2 == product && se2 == seller) ==> (#[trigger] line_count(s2, user, p2, se2))
                    == line_count(s, user, p2, se2)
        }),
{
    let item = ItemModel { product, seller, listing, count: 1 };
    if has_active(s, user) {
        if has_line(active_items(s, user), product, seller) {
            lemma_line_count_bounds(s, user, product, seller);
            lemma_incr_effect(s, user, product, seller, 1);
        } else {
            lemma_add_item_effect(s, user, item);
        }
    } else {
        lemma_create_effect(s, user, item);
        assert forall|p2: Seq<char>, se2: Seq<char>|
            !(p2 == product && se2 == seller) implies (#[trigger] line_count(
            spec_create(s, user, item),
            user,
            p2,
            se2,
        )) == line_count(s, user, p2, se2) by {
            assert(!item_like(item, p2, se2));
            assert(active_items(s, user) =~= Seq::<ItemModel>::empty());
        }
    }
}

/// Effect of the full "decrement by one" algorithm: a count of 1 removes the
/// line, a higher count drops by exactly 1, an absent line changes nothing.
pub proof fn lemma_decrement_effect(
    s: Seq<BasketModel>,
    user: Seq<char>,
    product: Seq<char>,
    seller: Seq<char>,
)
    requires
        store_wf(s),
    ensures
        ({
            let s2 = spec_decrement(s, user, product, seller);
            &&& store_wf(s2)
            &&& has_active(s2, user) == has_active(s, user)
            &&& line_count(s2, user, product, seller) == (match line_count(
                s,
                user,
                product,
                seller,
            ) {
                Some(c) => if c == 1 {
                    None::<int>
                } else {
                    Some(c - 1)
                },
                None => None::<int>,
            })
            &&& forall|p2: Seq<char>, se2: Seq<char>|
                !(p2 == product && se2 == seller) ==> (#[trigger] line_count(s2, user, p2, se2))
                    == line_count(s, user, p2, se2)
        }),
{
    match line_count(s, user, product, seller) {
        Some(c) => {
            lemma_line_count_bounds(s, user, product, seller);
            assert(has_active(s, user)) by {
                if !has_active(s, user) {
                    assert(active_items(s, user) =~= Seq::<ItemModel>::empty());
                }
            }
            if c == 1 {
                lemma_remove_effect(s, user, product, seller);
            } else {
                lemma_incr_effect(s, user, product, seller, -1);
            }
        },
        None => {},
    }
}

/// Adding the same (product, seller) pair twice to a basket that lacks it
/// leaves exactly one line for that pair, with count 2 — never two lines.
pub proof fn lemma_add_twice_single_line(
    s: Seq<BasketModel>,
    user: Seq<char>,
    product: Seq<char>,
    seller: Seq<char>,
    listing: Seq<char>,
)
    requires
        store_wf(s),
        line_count(s, user, product, seller) is None,
    ensures
        ({
            let s2 = spec_add_to_basket(
                spec_add_to_basket(s, user, product, seller, listing),
                user,
                product,
                seller,
                listing,
            );
            &&& store_wf(s2)
            &&& line_count(s2, user, product, seller) == Some(2int)
            &&& has_line(active_items(s2, user), product, seller)
            &&& forall|i: int, j: int|
                0 <= i < active_items(s2, user).len() && 0 <= j < active_items(s2, user).len()
                    && item_like(#[trigger] active_items(s2, user)[i], product, seller)
                    && item_like(#[trigger] active_items(s2, user)[j], product, seller) ==> i == j
        }),
{
    let s1 = spec_add_to_basket(s, user, product, seller, listing);
    lemma_add_to_basket_effect(s, user, product, seller, listing);
    lemma_add_to_basket_effect(s1, user, product, seller, listing);
    let s2 = spec_add_to_basket(s1, user, product, seller, listing);
    lemma_active_ix(s2, user);
    assert(items_wf(active_items(s2, user)));
    assert forall|i: int, j: int|
        0 <= i < active_items(s2, user).len() && 0 <= j < active_items(s2, user).len()
            && item_like(#[trigger] active_items(s2, user)[i], product, seller) && item_like(
        #[trigger] active_items(s2, user)[j],
        product,
        seller,
    ) implies i == j by {
        lemma_line_unique(active_items(s2, user), product, seller, i, j);
    }
}

/// Adding a pair once and decrementing it once leaves the basket without a
/// line for that pair: the line is removed, not left at count zero.
pub proof fn lemma_add_then_decrement_removes(
    s: Seq<BasketModel>,
    user: Seq<char>,
    product: Seq<char>,
    seller: Seq<char>,
    listing: Seq<char>,
)
    requires
        store_wf(s),
        line_count(s, user, product, seller) is None,
    ensures
        ({
            let s2 = spec_decrement(
                spec_add_to_basket(s, user, product, seller, listing),
                user,
                product,
                seller,
            );
            &&& store_wf(s2)
            &&& line_count(s2, user, product, seller) is None
            &&& !has_line(active_items(s2, user), product, seller)
        }),
{
    let s1 = spec_add_to_basket(s, user, product, seller, listing);
    lemma_add_to_basket_effect(s, user, product, seller, listing);
    lemma_decrement_effect(s1, user, product, seller);
}

/// Adding a pair twice and decrementing it once leaves the line present with
/// count exactly 1.
pub proof fn lemma_add_twice_then_decrement(
    s: Seq<BasketModel>,
    user: Seq<char>,
    product: Seq<char>,
    seller: Seq<char>,
    listing: Seq<char>,
)
    requires
        store_wf(s),
        line_count(s, user, product, seller) is None,
    ensures
        ({
            let s2 = spec_decrement(
                spec_add_to_basket(
                    spec_add_to_basket(s, user, product, seller, listing),
                    user,
                    product,
                    seller,
                    listing,
                ),
                user,
                product,
                seller,
            );
            &&& store_wf(s2)
            &&& line_count(s2, user, product, seller) == Some(1int)
            &&& has_line(active_items(s2, user), product, seller)
        }),
{
    let s1 = spec_add_to_basket(s, user, product, seller, listing);
    lemma_add_to_basket_effect(s, user, product, seller, listing);
    let s12 = spec_add_to_basket(s1, user, product, seller, listing);
    lemma_add_to_basket_effect(s1, user, product, seller, listing);
    lemma_decrement_effect(s12, user, product, seller);
    let s2 = spec_decrement(s12, user, product, seller);
    assert(line_count(s2, user, product, seller) == Some(1int));
    assert(has_line(active_items(s2, user), product, seller)) by {
        if !has_line(active_items(s2, user), product, seller) {
            assert(line_count(s2, user, product, seller) is None);
        }
    }
}

/// A verified copy of a line item vector (field-by-field, so the item views
/// are known to be preserved).
pub(crate) fn clone_items(items: &Vec<BasketItem>) -> (r: Vec<BasketItem>)
    ensures
        items_view(r@) == items_view(items@),
{
    let mut out: Vec<BasketItem> = Vec::new();
    let mut i: usize = 0;
    while i < items.len()
        invariant
            0 <= i <= items.len(),
            out@.len() == i,
            forall|k: int| 0 <= k < i ==> (#[trigger] out@[k])@ == items@[k]@,
        decreases items.len() - i,
    {
        let it = &items[i];
        out.push(
            BasketItem {
                product_id: it.product_id.clone(),
                seller_id: it.seller_id.clone(),
                listing_id: it.listing_id.clone(),
                count: it.count,
            },
        );
        i += 1;
    }
    proof {
        assert(items_view(out@) =~= items_view(items@));
    }
    out
}

/// The basket store: owns the active-basket invariant and the line-item
/// mutations.  Its view is the sequence of all basket documents.
pub struct BasketService {
    baskets: Vec<Basket>,
}

impl View for BasketService {
    type V = Seq<BasketModel>;

    closed spec fn view(&self) -> Seq<BasketModel> {
        self.baskets@.map_values(|b: Basket| b@)
    }
}

impl BasketService {
    /// The store invariant ([`store_wf`]): established by `new`, preserved
    /// by every operation.
    pub open spec fn wf(&self) -> bool {
        store_wf(self@)
    }

    pub fn new() -> (r: BasketService)
        ensures
            r@ == Seq::<BasketModel>::empty(),
            r.wf(),
    {
        let r = BasketService { baskets: Vec::new() };
        proof {
            assert(r@ =~= Seq::<BasketModel>::empty());
        }
        r
    }

    /// The index of the user's active basket, pinned to `active_ix`.
    fn find_active_ix(&self, user_id: &String) -> (r: Option<usize>)
        requires
            self.wf(),
        ensures
            r matches Some(i) ==> has_active(self@, user_id@) && i == active_ix(self@, user_id@)
                && i < self@.len(),
            r is None ==> !has_active(self@, user_id@),
    {
        let mut i: usize = 0;
        while i < self.baskets.len()
            invariant
                self.wf(),
                0 <= i <= self.baskets.len(),
                forall|k: int|
                    0 <= k < i ==> !((#[trigger] self@[k]).active && self@[k].user == user_id@),
            decreases self.baskets.len() - i,
        {
            let b = &self.baskets[i];
            if b.active && b.user_id == *user_id {
                proof {
                    assert(self@[i as int].active && self@[i as int].user == user_id@);
                    lemma_active_ix(self@, user_id@);
                }
                return Some(i);
            }
            i += 1;
        }
        proof {
            if has_active(self@, user_id@) {
                let w = choose|k: int|
                    0 <= k < self@.len() && (#[trigger] self@[k]).active && self@[k].user
                        == user_id@;
                assert(!(self@[w].active && self@[w].user == user_id@));
            }
        }
        None
    }

    /// The index of the (product, seller) line in `items`, pinned to
    /// `line_ix`.
    fn find_line(items: &Vec<BasketItem>, product_id: &String, seller_id: &String) -> (r: Option<
        usize,
    >)
        requires
            items_wf(items_view(items@)),
        ensures
            r matches Some(j) ==> has_line(items_view(items@), product_id@, seller_id@) && j
                == line_ix(items_view(items@), product_id@, seller_id@) && j < items@.len(),
            r is None ==> !has_line(items_view(items@), product_id@, seller_id@),
    {
        let ghost iv = items_view(items@);
        let mut j: usize = 0;
        while j < items.len()
            invariant
                items_wf(iv),
                iv == items_view(items@),
                0 <= j <= items.len(),
                forall|k: int| 0 <= k < j ==> !item_like(#[trigger] iv[k], product_id@, seller_id@),
            decreases items.len() - j,
        {
            let it = &items[j];
            if it.product_id == *product_id && it.seller_id == *seller_id {
                proof {
                    assert(item_like(iv[j as int], product_id@, seller_id@));
                    lemma_line_ix(iv, product_id@, seller_id@);
                }
                return Some(j);
            }
            j += 1;
        }
        proof {
            if has_line(iv, product_id@, seller_id@) {
                let w = choose|k: int|
                    0 <= k < iv.len() && item_like(#[trigger] iv[k], product_id@, seller_id@);
                assert(!item_like(iv[w], product_id@, seller_id@));
            }
        }
        None
    }

    /// The user's active basket, if any.  The store invariant guarantees it
    /// is the only one.
    pub fn get_active(&self, user_id: &String) -> (r: Option<&Basket>)
        requires
            self.wf(),
        ensures
            r matches Some(b) ==> has_active(self@, user_id@) && b@ == self@[active_ix(
                self@,
                user_id@,
            )],
            r is None ==> !has_active(self@, user_id@),
    {
        match self.find_active_ix(user_id) {
            Some(i) => Some(&self.baskets[i]),
            None => None,
        }
    }

    /// Insert a basket document, refusing an active one for a user who
    /// already has an active basket (the conditional create that keeps the
    /// invariant closed under concurrent first adds).
    pub fn create(&mut self, basket: Basket) -> (r: bool)
        requires
            old(self).wf(),
            items_wf(basket@.items),
        ensures
            final(self).wf(),
            r == !(basket@.active && has_active(old(self)@, basket@.user)),
            r ==> final(self)@ == old(self)@.push(basket@),
            !r ==> final(self)@ == old(self)@,
    {
        let ghost s0 = self@;
        if basket.active {
            if self.find_active_ix(&basket.user_id).is_some() {
                return false;
            }
        }
        let ghost bm = basket@;
        self.baskets.push(basket);
        proof {
            assert(self@ =~= s0.push(bm));
            let s2 = s0.push(bm);
            let n = s0.len() as int;
            assert forall|k: int| 0 <= k < s2.len() implies items_wf((#[trigger] s2[k]).items) by {
                if k < n {
                    assert(s2[k] == s0[k]);
                } else {
                    assert(s2[k] == bm);
                }
            }
            assert forall|i: int, j: int|
                0 <= i < s2.len() && 0 <= j < s2.len() && i != j && (#[trigger] s2[i]).active && (
                #[trigger] s2[j]).active implies s2[i].user != s2[j].user by {
                if i < n && j < n {
                    assert(s2[i] == s0[i] && s2[j] == s0[j]);
                } else if i == n {
                    assert(s2[j] == s0[j]);
                    if s0[j].user == bm.user {
                        assert(has_active(s0, bm.user));
                    }
                } else {
                    assert(s2[i] == s0[i]);
                    if s0[i].user == bm.user {
                        assert(has_active(s0, bm.user));
                    }
                }
            }
        }
        true
    }

    /// The atomic "find the line in the user's active basket and add `delta`
    /// to its count" operation.  Returns the updated line, or `None` when no
    /// active basket carries that line.
    pub fn update_product_count(
        &mut self,
        product_id: &String,
        seller_id: &String,
        user_id: &String,
        delta: i32,
    ) -> (r: Option<BasketItem>)
        requires
            old(self).wf(),
            delta == 1 || delta == -1,
            line_count(old(self)@, user_id@, product_id@, seller_id@) matches Some(c) ==> 1 <= c
                + delta <= u32::MAX,
        ensures
            final(self).wf(),
            final(self)@ == spec_incr(old(self)@, user_id@, product_id@, seller_id@, delta as int),
            r is Some <==> line_count(old(self)@, user_id@, product_id@, seller_id@) is Some,
            r matches Some(it) ==> it@.count == line_count(
                old(self)@,
                user_id@,
                product_id@,
                seller_id@,
            )->Some_0 + delta && item_like(it@, product_id@, seller_id@),
    {
        let ghost s0 = self@;
        let i = match self.find_active_ix(user_id) {
            Some(i) => i,
            None => {
                proof {
                    assert(active_items(s0, user_id@) =~= Seq::<ItemModel>::empty());
                }
                return None;
            },
        };
        proof {
            lemma_active_ix(s0, user_id@);
            assert(items_wf(s0[i as int].items));
            assert(items_view(self.baskets@[i as int].content@) == s0[i as int].items);
        }
        let j = match Self::find_line(&self.baskets[i].content, product_id, seller_id) {
            Some(j) => j,
            None => {
                return None;
            },
        };
        proof {
            lemma_incr_effect(s0, user_id@, product_id@, seller_id@, delta as int);
        }
        let mut b = self.baskets.remove(i);
        let it = b.content.remove(j);
        let new_count: u32 = if delta == 1 {
            it.count + 1
        } else {
            it.count - 1
        };
        let ret = BasketItem {
            product_id: it.product_id.clone(),
            seller_id: it.seller_id.clone(),
            listing_id: it.listing_id.clone(),
            count: new_count,
        };
        let it2 = BasketItem {
            product_id: it.product_id,
            seller_id: it.seller_id,
            listing_id: it.listing_id,
            count: new_count,
        };
        b.content.insert(j, it2);
        self.baskets.insert(i, b);
        proof {
            let a = i as int;
            let l = j as int;
            let items = s0[a].items;
            let it0 = items[l];
            let it2m = ItemModel {
                product: it0.product,
                seller: it0.seller,
                listing: it0.listing,
                count: it0.count + delta,
            };
            assert(items_view(self.baskets@[a].content@) =~= items.update(l, it2m));
            assert(self@ =~= s0.update(
                a,
                BasketModel { user: s0[a].user, items: items.update(l, it2m), active: s0[a].active },
            ));
        }
        Some(ret)
    }

    /// Append a fresh line (count 1) to the user's active basket.  The
    /// caller must have seen `update_product_count` return `None`: the store
    /// does not guard against a duplicate line.
    pub fn add_item(
        &mut self,
        product_id: &String,
        seller_id: &String,
        listing_id: &String,
        user_id: &String,
    ) -> (r: bool)
        requires
            old(self).wf(),
            !has_line(active_items(old(self)@, user_id@), product_id@, seller_id@),
        ensures
            final(self).wf(),
            final(self)@ == spec_add_item(
                old(self)@,
                user_id@,
                ItemModel { product: product_id@, seller: seller_id@, listing: listing_id@, count: 1 },
            ),
            r == has_active(old(self)@, user_id@),
    {
        let ghost s0 = self@;
        let ghost item = ItemModel {
            product: product_id@,
            seller: seller_id@,
            listing: listing_id@,
            count: 1,
        };
        let i = match self.find_active_ix(user_id) {
            Some(i) => i,
            None => {
                return false;
            },
        };
        proof {
            lemma_add_item_effect(s0, user_id@, item);
        }
        let mut b = self.baskets.remove(i);
        b.content.push(
            BasketItem::new(product_id.clone(), seller_id.clone(), listing_id.clone(), 1),
        );
        self.baskets.insert(i, b);
        proof {
            let a = i as int;
            assert(items_view(self.baskets@[a].content@) =~= s0[a].items.push(item));
            assert(self@ =~= s0.update(
                a,
                BasketModel { user: s0[a].user, items: s0[a].items.push(item), active: s0[a].active },
            ));
        }
        true
    }

    /// The line of the user's active basket that carries the pair with count
    /// exactly 1, used to decide removal against decrement.
    pub fn get_product_with_count_one(
        &self,
        product_id: String,
        seller_id: String,
        user_id: String,
    ) -> (r: Option<&BasketItem>)
        requires
            self.wf(),
        ensures
            r is Some <==> line_count(self@, user_id@, product_id@, seller_id@) == Some(1int),
            r matches Some(it) ==> item_like(it@, product_id@, seller_id@) && it@.count == 1,
    {
        let i = match self.find_active_ix(&user_id) {
            Some(i) => i,
            None => {
                proof {
                    assert(active_items(self@, user_id@) =~= Seq::<ItemModel>::empty());
                }
                return None;
            },
        };
        proof {
            lemma_active_ix(self@, user_id@);
            assert(items_wf(self@[i as int].items));
        }
        let j = match Self::find_line(&self.baskets[i].content, &product_id, &seller_id) {
            Some(j) => j,
            None => {
                return None;
            },
        };
        let it = &self.baskets[i].content[j];
        if it.count == 1 {
            Some(it)
        } else {
            None
        }
    }

    /// Pull the (product, seller) line out of the user's active basket.
    pub fn remove_product(
        &mut self,
        product_id: &String,
        seller_id: &String,
        user_id: &String,
    ) -> (r: bool)
        requires
            old(self).wf(),
        ensures
            final(self).wf(),
            final(self)@ == spec_remove(old(self)@, user_id@, product_id@, seller_id@),
            r == (line_count(old(self)@, user_id@, product_id@, seller_id@) is Some),
    {
        let ghost s0 = self@;
        let i = match self.find_active_ix(user_id) {
            Some(i) => i,
            None => {
                proof {
                    assert(active_items(s0, user_id@) =~= Seq::<ItemModel>::empty());
                }
                return false;
            },
        };
        proof {
            lemma_active_ix(s0, user_id@);
            assert(items_wf(s0[i as int].items));
        }
        let j = match Self::find_line(&self.baskets[i].content, product_id, seller_id) {
            Some(j) => j,
            None => {
                return false;
            },
        };
        proof {
            lemma_remove_effect(s0, user_id@, product_id@, seller_id@);
        }
        let mut b = self.baskets.remove(i);
        let _removed = b.content.remove(j);
        self.baskets.insert(i, b);
        proof {
            let a = i as int;
            let l = j as int;
            assert(items_view(self.baskets@[a].content@) =~= s0[a].items.remove(l));
            assert(self@ =~= s0.update(
                a,
                BasketModel { user: s0[a].user, items: s0[a].items.remove(l), active: s0[a].active },
            ));
        }
        true
    }

    /// Atomically flip the user's active basket to inactive and hand back
    /// its prior content — the snapshot the order composer freezes.
    pub fn delete(&mut self, user_id: &String) -> (r: Option<Basket>)
        requires
            old(self).wf(),
        ensures
            final(self).wf(),
            final(self)@ == spec_deactivate(old(self)@, user_id@),
            r is Some <==> has_active(old(self)@, user_id@),
            r matches Some(b) ==> b@ == old(self)@[active_ix(old(self)@, user_id@)],
    {
        let ghost s0 = self@;
        let i = match self.find_active_ix(user_id) {
            Some(i) => i,
            None => {
                return None;
            },
        };
        proof {
            lemma_deactivate_effect(s0, user_id@);
        }
        let b = self.baskets.remove(i);
        let b2 = Basket {
            user_id: b.user_id.clone(),
            content: clone_items(&b.content),
            active: false,
        };
        self.baskets.insert(i, b2);
        proof {
            let a = i as int;
            assert(self@ =~= s0.update(
                a,
                BasketModel { user: s0[a].user, items: s0[a].items, active: false },
            ));
        }
        Some(b)
    }
}

} // verus!
