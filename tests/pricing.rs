use payment_reconciler::error::ErrorKind;
use payment_reconciler::pricing::{
    add_membership_to_cart, add_to_cart, calculate_pricing, cart_for_view, remove_from_cart,
    CartItem, Pricing, MEMBERSHIP_PRICE_CENTS, MEMBERSHIP_PRODUCT_ID,
};

fn item(id: i64, name: &str, cents: i64) -> CartItem {
    CartItem { product_id: id, name: name.to_string(), price_cents: cents }
}

#[test]
fn pricing_membership_and_plant() {
    let cart = vec![item(MEMBERSHIP_PRODUCT_ID, "Annual Membership", 12500), item(4, "Pilea", 2499)];
    let p = calculate_pricing(&cart).unwrap();
    assert_eq!(p, Pricing { subtotal_cents: 14999, tax_cents: 1237, total_cents: 16236 });
}

#[test]
fn pricing_total_is_sum_of_parts() {
    let carts = vec![
        vec![item(1, "a", 1)],
        vec![item(1, "a", 8999), item(2, "b", 12999)],
        vec![item(3, "c", 14999), item(4, "d", 3999), item(5, "e", 7)],
    ];
    for cart in carts {
        let p = calculate_pricing(&cart).unwrap();
        assert_eq!(p.total_cents, p.subtotal_cents + p.tax_cents);
        assert!(p.subtotal_cents >= 0 && p.tax_cents >= 0);
    }
}

#[test]
fn pricing_truncates_tax() {
    // 12500 * 8.25% = 1031.25
    let p = calculate_pricing(&[item(1, "a", 12500)]).unwrap();
    assert_eq!(p.tax_cents, 1031);
    assert_eq!(p.total_cents, 13531);
    // 1 cent of subtotal carries no tax
    let p = calculate_pricing(&[item(1, "a", 1)]).unwrap();
    assert_eq!(p, Pricing { subtotal_cents: 1, tax_cents: 0, total_cents: 1 });
}

#[test]
fn pricing_rejects_empty_cart() {
    assert_eq!(calculate_pricing(&[]), Err(ErrorKind::Validation));
}

#[test]
fn pricing_rejects_non_positive_price() {
    assert_eq!(calculate_pricing(&[item(1, "a", 100), item(2, "b", 0)]), Err(ErrorKind::Validation));
    assert_eq!(calculate_pricing(&[item(1, "a", -5)]), Err(ErrorKind::Validation));
}

#[test]
fn pricing_rejects_total_past_i64() {
    assert_eq!(calculate_pricing(&[item(1, "a", i64::MAX), item(2, "b", 1)]), Err(ErrorKind::Validation));
    // the subtotal fits but the tax pushes the total over
    assert_eq!(calculate_pricing(&[item(1, "a", i64::MAX - 1000)]), Err(ErrorKind::Validation));
}

#[test]
fn membership_line_goes_first_once() {
    let mut cart = vec![item(4, "Pilea", 3999)];
    add_membership_to_cart(&mut cart);
    assert_eq!(cart.len(), 2);
    assert_eq!(cart[0].product_id, MEMBERSHIP_PRODUCT_ID);
    assert_eq!(cart[0].price_cents, MEMBERSHIP_PRICE_CENTS);
    assert_eq!(cart[0].name, "Annual Membership");
    assert_eq!(cart[1].product_id, 4);
    add_membership_to_cart(&mut cart);
    assert_eq!(cart.len(), 2);
}

#[test]
fn non_member_cart_gets_membership_line() {
    let mut cart = Vec::new();
    add_to_cart(&mut cart, item(1, "Monstera", 8999), false);
    assert_eq!(cart.iter().map(|i| i.product_id).collect::<Vec<_>>(), vec![MEMBERSHIP_PRODUCT_ID, 1]);
    add_to_cart(&mut cart, item(2, "Fig", 12999), false);
    assert_eq!(cart.iter().map(|i| i.product_id).collect::<Vec<_>>(), vec![MEMBERSHIP_PRODUCT_ID, 1, 2]);
}

#[test]
fn member_cart_has_no_membership_line() {
    let mut cart = Vec::new();
    add_to_cart(&mut cart, item(1, "Monstera", 8999), true);
    assert_eq!(cart.len(), 1);
    assert_eq!(cart[0].product_id, 1);
}

#[test]
fn viewing_cart_adds_line_only_when_needed() {
    let mut empty: Vec<CartItem> = Vec::new();
    cart_for_view(&mut empty, false);
    assert!(empty.is_empty());
    let mut cart = vec![item(1, "Monstera", 8999)];
    cart_for_view(&mut cart, true);
    assert_eq!(cart.len(), 1);
    cart_for_view(&mut cart, false);
    assert_eq!(cart.len(), 2);
    assert_eq!(cart[0].product_id, MEMBERSHIP_PRODUCT_ID);
}

#[test]
fn remove_takes_first_matching_line() {
    let mut cart = vec![item(1, "a", 10), item(2, "b", 20), item(1, "c", 30)];
    assert!(remove_from_cart(&mut cart, 1));
    assert_eq!(cart.iter().map(|i| i.name.as_str()).collect::<Vec<_>>(), vec!["b", "c"]);
    assert!(!remove_from_cart(&mut cart, 9));
    assert_eq!(cart.len(), 2);
}
