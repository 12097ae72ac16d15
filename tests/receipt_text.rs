use pizza_pos::{format_receipt, Order, OrderItem, Product};

fn item(name: &str, cents: i64, quantity: i32) -> OrderItem {
    OrderItem {
        product_id: 1,
        quantity,
        product: Product {
            id: Some(1),
            name: name.to_string(),
            description: String::new(),
            price_cents: cents,
            image_path: None,
        },
    }
}

fn two_item_order() -> Order {
    Order {
        id: Some(7),
        created_at: Some("2024-05-01T10:00:00+00:00".to_string()),
        buyer: "Ana".to_string(),
        products: vec![item("Margherita", 1299, 2), item("Pepperoni", 1499, 1)],
        payment_method: "card".to_string(),
        delivery_service: "Rappi".to_string(),
        coupon_code: None,
        subtotal_cents: 4097,
        tax_cents: 656,
        total_cents: 4753,
    }
}

#[test]
fn receipt_holds_line_totals_and_amounts() {
    let text = format_receipt(&two_item_order());
    assert!(text.contains("2 x Margherita - $25.98\n"));
    assert!(text.contains("1 x Pepperoni - $14.99\n"));
    assert!(text.contains("Subtotal: $40.97\n"));
    assert!(text.contains("Tax (16%): $6.56\n"));
    assert!(text.contains("Total: $47.53\n"));
}

#[test]
fn receipt_full_text() {
    let text = format_receipt(&two_item_order());
    let expected = "\u{1F355} PIZZA POS RECEIPT \u{1F355}\n\
=========================\n\
Order #: 7\n\
Date: 2024-05-01T10:00:00+00:00\n\
Customer: Ana\n\
Payment: card\n\
Delivery: Rappi\n\
\n\
ITEMS:\n\
2 x Margherita - $25.98\n\
1 x Pepperoni - $14.99\n\
\n\
=========================\n\
Subtotal: $40.97\n\
Tax (16%): $6.56\n\
Total: $47.53\n\
\n\
Thank you for your order!\n\
=========================\n";
    assert_eq!(text, expected);
}

#[test]
fn receipt_of_unsaved_order_without_items() {
    let mut o = two_item_order();
    o.id = None;
    o.created_at = None;
    o.products = Vec::new();
    o.subtotal_cents = 0;
    o.tax_cents = 5;
    o.total_cents = -250;
    let text = format_receipt(&o);
    assert!(text.contains("Order #: 0\nDate: \nCustomer"));
    assert!(text.contains("ITEMS:\n\n===="));
    assert!(text.contains("Subtotal: $0.00\n"));
    assert!(text.contains("Tax (16%): $0.05\n"));
    assert!(text.contains("Total: $-2.50\n"));
}

#[test]
fn receipt_large_amounts() {
    let mut o = two_item_order();
    o.products = vec![item("Party", 123456, 1000)];
    o.total_cents = i64::MAX;
    let text = format_receipt(&o);
    assert!(text.contains("1000 x Party - $1234560.00\n"));
    assert!(text.contains("Total: $92233720368547758.07\n"));
}
