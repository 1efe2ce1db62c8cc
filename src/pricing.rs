//! The cart as an explicit value, and its pricing in integer cents.
use vstd::prelude::*;

use crate::error::ErrorKind;

verus! {

/// Product id reserved for the synthetic membership line.
pub const MEMBERSHIP_PRODUCT_ID: i64 = 100;

/// Price of one membership term, in cents.
pub const MEMBERSHIP_PRICE_CENTS: i64 = 12500;

/// Sales tax, in hundredths of a percent (8.25%).
pub const TAX_RATE_BASIS_POINTS: i64 = 825;

/// One line of a cart: a product reference, its name, and its unit price.
#[derive(Debug, Clone)]
pub struct CartItem {
    pub product_id: i64,
    pub name: String,
    pub price_cents: i64,
}

/// The three amounts of an order, computed once at creation.
#[derive(Debug, Clone, Copy, PartialEq, Eq, Structural)]
pub struct Pricing {
    pub subtotal_cents: i64,
    pub tax_cents: i64,
    pub total_cents: i64,
}

pub open spec fn membership_name() -> Seq<char> {
    "Annual Membership"@
}

/// The membership line that non-members get in their cart.
pub open spec fn is_membership_line(item: CartItem) -> bool {
    &&& item.product_id == MEMBERSHIP_PRODUCT_ID
    &&& item.price_cents == MEMBERSHIP_PRICE_CENTS
    &&& item.name@ == membership_name()
}

pub open spec fn has_product(items: Seq<CartItem>, product_id: i64) -> bool {
    exists|i: int| 0 <= i < items.len() && #[trigger] items[i].product_id == product_id
}

/// `k` is the first position of `product_id` in `items`.
pub open spec fn is_first_index(items: Seq<CartItem>, product_id: i64, k: int) -> bool {
    &&& 0 <= k < items.len()
    &&& items[k].product_id == product_id
    &&& forall|j: int| 0 <= j < k ==> #[trigger] items[j].product_id != product_id
}

/// Sum of the unit prices.
pub open spec fn subtotal_of(items: Seq<CartItem>) -> int
    decreases items.len(),
{
    if items.len() == 0 {
        0
    } else {
        subtotal_of(items.drop_last()) + items.last().price_cents
    }
}

/// Tax on a subtotal, truncated toward zero.
pub open spec fn tax_of(subtotal: int) -> int {
    subtotal * TAX_RATE_BASIS_POINTS / 10000
}

pub open spec fn total_of(subtotal: int) -> int {
    subtotal + tax_of(subtotal)
}

pub open spec fn all_prices_positive(items: Seq<CartItem>) -> bool {
    forall|i: int| 0 <= i < items.len() ==> #[trigger] items[i].price_cents > 0
}

/// The carts that can be priced: not empty, every price positive, and a
/// total that fits in an `i64`.
pub open spec fn priceable(items: Seq<CartItem>) -> bool {
    &&& items.len() > 0
    &&& all_prices_positive(items)
    &&& total_of(subtotal_of(items)) <= i64::MAX
}

pub open spec fn pricing_of(items: Seq<CartItem>) -> Pricing {
    Pricing {
        subtotal_cents: subtotal_of(items) as i64,
        tax_cents: tax_of(subtotal_of(items)) as i64,
        total_cents: total_of(subtotal_of(items)) as i64,
    }
}

proof fn lemma_subtotal_prefix_monotone(items: Seq<CartItem>, j: int, k: int)
    requires
        all_prices_positive(items),
        0 <= j <= k <= items.len(),
    ensures
        subtotal_of(items.subrange(0, j)) <= subtotal_of(items.subrange(0, k)),
        j < k ==> subtotal_of(items.subrange(0, j)) < subtotal_of(items.subrange(0, k)),
    decreases k - j,
{
    if j < k {
        lemma_subtotal_prefix_monotone(items, j, k - 1);
        assert(items.subrange(0, k).drop_last() =~= items.subrange(0, k - 1));
    }
}

proof fn lemma_tax_bounds(subtotal: int)
    requires
        subtotal >= 0,
    ensures
        0 <= tax_of(subtotal) <= subtotal,
{
    assert(0 <= subtotal * TAX_RATE_BASIS_POINTS / 10000 <= subtotal) by (nonlinear_arith)
        requires
            subtotal >= 0,
    ;
}

/// Prices a cart: the subtotal is the sum of the unit prices, the tax is
/// 8.25% of it truncated toward zero, and the total is their sum.
pub fn calculate_pricing(items: &[CartItem]) -> (r: Result<Pricing, ErrorKind>)
    ensures
        r is Ok <==> priceable(items@),
        r is Ok ==> r->Ok_0 == pricing_of(items@),
        r is Err ==> r->Err_0 == ErrorKind::Validation,
{
    if items.len() == 0 {
        return Err(ErrorKind::Validation);
    }
    let mut i: usize = 0;
    while i < items.len()
        invariant
            0 <= i <= items@.len(),
            forall|j: int| 0 <= j < i ==> #[trigger] items@[j].price_cents > 0,
        decreases items@.len() - i,
    {
        if items[i].price_cents <= 0 {
            return Err(ErrorKind::Validation);
        }
        i = i + 1;
    }
    let mut sum: i128 = 0;
    let mut i: usize = 0;
    while i < items.len()
        invariant
            0 <= i <= items@.len(),
            all_prices_positive(items@),
            sum == subtotal_of(items@.subrange(0, i as int)),
            0 <= sum <= i64::MAX,
        decreases items@.len() - i,
    {
        assert(items@.subrange(0, i + 1).drop_last() =~= items@.subrange(0, i as int));
        sum = sum + items[i].price_cents as i128;
        i = i + 1;
        if sum > i64::MAX as i128 {
            proof {
                lemma_subtotal_prefix_monotone(items@, i as int, items@.len() as int);
                assert(items@.subrange(0, items@.len() as int) =~= items@);
                lemma_tax_bounds(subtotal_of(items@));
            }
            return Err(ErrorKind::Validation);
        }
    }
    assert(items@.subrange(0, items@.len() as int) =~= items@);
    proof {
        lemma_tax_bounds(sum as int);
    }
    let tax: i128 = sum * (TAX_RATE_BASIS_POINTS as i128) / 10000;
    let total: i128 = sum + tax;
    if total > i64::MAX as i128 {
        return Err(ErrorKind::Validation);
    }
    Ok(Pricing { subtotal_cents: sum as i64, tax_cents: tax as i64, total_cents: total as i64 })
}

/// Puts the membership line at the front of the cart unless one is there.
pub fn add_membership_to_cart(cart: &mut Vec<CartItem>)
    ensures
        has_product(old(cart)@, MEMBERSHIP_PRODUCT_ID) ==> final(cart)@ == old(cart)@,
        !has_product(old(cart)@, MEMBERSHIP_PRODUCT_ID) ==> {
            &&& final(cart)@.len() == old(cart)@.len() + 1
            &&& is_membership_line(final(cart)@[0])
            &&& final(cart)@.drop_first() == old(cart)@
        },
{
    let mut i: usize = 0;
    while i < cart.len()
        invariant
            0 <= i <= cart@.len(),
            cart@ == old(cart)@,
            forall|j: int| 0 <= j < i ==> #[trigger] cart@[j].product_id != MEMBERSHIP_PRODUCT_ID,
        decreases cart@.len() - i,
    {
        if cart[i].product_id == MEMBERSHIP_PRODUCT_ID {
            return;
        }
        i = i + 1;
    }
    let line = CartItem {
        product_id: MEMBERSHIP_PRODUCT_ID,
        name: String::from_str("Annual Membership"),
        price_cents: MEMBERSHIP_PRICE_CENTS,
    };
    cart.insert(0, line);
    assert(cart@.drop_first() =~= old(cart)@);
}

/// Adds a product to the cart; a non-member's cart gets the membership
/// line first.
pub fn add_to_cart(cart: &mut Vec<CartItem>, item: CartItem, is_member: bool)
    ensures
        is_member || has_product(old(cart)@, MEMBERSHIP_PRODUCT_ID) ==> final(cart)@ == old(
            cart,
        )@.push(item),
        !is_member && !has_product(old(cart)@, MEMBERSHIP_PRODUCT_ID) ==> {
            &&& final(cart)@.len() == old(cart)@.len() + 2
            &&& is_membership_line(final(cart)@[0])
            &&& final(cart)@.drop_first() == old(cart)@.push(item)
        },
{
    if !is_member {
        add_membership_to_cart(cart);
    }
    let ghost mid = cart@;
    cart.push(item);
    assert(!is_member && !has_product(old(cart)@, MEMBERSHIP_PRODUCT_ID) ==> cart@.drop_first()
        =~= mid.drop_first().push(item));
}

/// Adds the membership line to a non-member's cart that holds anything, as
/// the cart is shown.
pub fn cart_for_view(cart: &mut Vec<CartItem>, is_member: bool)
    ensures
        is_member || old(cart)@.len() == 0 || has_product(old(cart)@, MEMBERSHIP_PRODUCT_ID)
            ==> final(cart)@ == old(cart)@,
        !is_member && old(cart)@.len() > 0 && !has_product(old(cart)@, MEMBERSHIP_PRODUCT_ID) ==> {
            &&& final(cart)@.len() == old(cart)@.len() + 1
            &&& is_membership_line(final(cart)@[0])
            &&& final(cart)@.drop_first() == old(cart)@
        },
{
    if !is_member && cart.len() > 0 {
        add_membership_to_cart(cart);
    }
}

/// Removes the first line of the cart for `product_id`; tells whether there
/// was one.
pub fn remove_from_cart(cart: &mut Vec<CartItem>, product_id: i64) -> (r: bool)
    ensures
        r == has_product(old(cart)@, product_id),
        !r ==> final(cart)@ == old(cart)@,
        r ==> exists|k: int|
            is_first_index(old(cart)@, product_id, k) && final(cart)@ == old(cart)@.remove(k),
{
    let mut i: usize = 0;
    while i < cart.len()
        invariant
            0 <= i <= cart@.len(),
            cart@ == old(cart)@,
            forall|j: int| 0 <= j < i ==> #[trigger] cart@[j].product_id != product_id,
        decreases cart@.len() - i,
    {
        if cart[i].product_id == product_id {
            cart.remove(i);
            assert(is_first_index(old(cart)@, product_id, i as int));
            return true;
        }
        i = i + 1;
    }
    false
}

} // verus!
