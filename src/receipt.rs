use vstd::prelude::*;
use crate::records::{Order, OrderItem, OrderView};
use crate::text::{int_text, money_text, push_int, push_money};

verus! {

pub open spec fn text_or_empty(t: Option<String>) -> Seq<char> {
    match t {
        Some(s) => s@,
        None => Seq::empty(),
    }
}

/// What a line item costs: unit price times quantity, in cents.
pub open spec fn line_total(it: OrderItem) -> int {
    it.product.price_cents * it.quantity
}

/// One receipt line: `2 x Margherita - $25.98`.
pub open spec fn line_text(it: OrderItem) -> Seq<char> {
    int_text(it.quantity as int) + " x "@ + it.product.name@ + " - $"@ + money_text(line_total(it)) + "\n"@
}

pub open spec fn items_text(s: Seq<OrderItem>) -> Seq<char>
    decreases s.len(),
{
    if s.len() == 0 {
        Seq::empty()
    } else {
        items_text(s.drop_last()) + line_text(s.last())
    }
}

/// The printed receipt of an order: header, one line per item, and the
/// order's own subtotal, tax and total.
pub open spec fn receipt_text(o: OrderView) -> Seq<char> {
    "\u{1F355} PIZZA POS RECEIPT \u{1F355}\n=========================\nOrder #: "@
        + int_text(match o.id { Some(i) => i as int, None => 0 })
        + "\nDate: "@ + text_or_empty(o.created_at)
        + "\nCustomer: "@ + o.buyer@
        + "\nPayment: "@ + o.payment_method@
        + "\nDelivery: "@ + o.delivery_service@
        + "\n\nITEMS:\n"@ + items_text(o.products)
        + "\n=========================\nSubtotal: $"@ + money_text(o.subtotal_cents as int)
        + "\nTax (16%): $"@ + money_text(o.tax_cents as int)
        + "\nTotal: $"@ + money_text(o.total_cents as int)
        + "\n\nThank you for your order!\n=========================\n"@
}

fn push_opt_text(s: &mut String, t: &Option<String>)
    ensures
        final(s)@ == old(s)@ + text_or_empty(*t),
{
    match t {
        Some(v) => s.append(v.as_str()),
        None => {
            assert(s@ =~= s@ + Seq::<char>::empty());
        },
    }
}

fn push_line(s: &mut String, it: &OrderItem)
    ensures
        final(s)@ == old(s)@ + line_text(*it),
{
    proof {
        reveal_strlit(" x ");
        reveal_strlit(" - $");
        reveal_strlit("\n");
    }
    let price = it.product.price_cents as i128;
    let quantity = it.quantity as i128;
    assert(-0x4000_0000_0000_0000_0000_0000 <= price * quantity <= 0x4000_0000_0000_0000_0000_0000) by (nonlinear_arith)
        requires
            -0x8000_0000_0000_0000 <= price < 0x8000_0000_0000_0000,
            -0x8000_0000 <= quantity < 0x8000_0000,
    {
    }
    push_int(s, it.quantity as i128);
    s.append(" x ");
    s.append(it.product.name.as_str());
    s.append(" - $");
    push_money(s, price * quantity);
    s.append("\n");
    assert(final(s)@ =~= old(s)@ + line_text(*it));
}

/// The receipt of an order as text.
pub fn format_receipt(order: &Order) -> (r: String)
    ensures
        r@ == receipt_text(order@),
{
    proof {
        reveal_strlit("\u{1F355} PIZZA POS RECEIPT \u{1F355}\n=========================\nOrder #: ");
        reveal_strlit("\nDate: ");
        reveal_strlit("\nCustomer: ");
        reveal_strlit("\nPayment: ");
        reveal_strlit("\nDelivery: ");
        reveal_strlit("\n\nITEMS:\n");
        reveal_strlit("\n=========================\nSubtotal: $");
        reveal_strlit("\nTax (16%): $");
        reveal_strlit("\nTotal: $");
        reveal_strlit("\n\nThank you for your order!\n=========================\n");
    }
    let mut s = String::new();
    s.append("\u{1F355} PIZZA POS RECEIPT \u{1F355}\n=========================\nOrder #: ");
    let id: i32 = match order.id {
        Some(i) => i,
        None => 0,
    };
    push_int(&mut s, id as i128);
    s.append("\nDate: ");
    push_opt_text(&mut s, &order.created_at);
    s.append("\nCustomer: ");
    s.append(order.buyer.as_str());
    s.append("\nPayment: ");
    s.append(order.payment_method.as_str());
    s.append("\nDelivery: ");
    s.append(order.delivery_service.as_str());
    s.append("\n\nITEMS:\n");
    let ghost head = s@;
    let mut i: usize = 0;
    assert(order.products@.take(0) =~= Seq::<OrderItem>::empty());
    assert(head =~= head + items_text(order.products@.take(0)));
    while i < order.products.len()
        invariant
            i <= order.products@.len(),
            s@ == head + items_text(order.products@.take(i as int)),
        decreases order.products@.len() - i,
    {
        push_line(&mut s, &order.products[i]);
        assert(order.products@.take(i + 1).drop_last() =~= order.products@.take(i as int));
        assert(s@ =~= head + items_text(order.products@.take(i + 1)));
        i = i + 1;
    }
    assert(order.products@.take(i as int) =~= order.products@);
    s.append("\n=========================\nSubtotal: $");
    push_money(&mut s, order.subtotal_cents as i128);
    s.append("\nTax (16%): $");
    push_money(&mut s, order.tax_cents as i128);
    s.append("\nTotal: $");
    push_money(&mut s, order.total_cents as i128);
    s.append("\n\nThank you for your order!\n=========================\n");
    assert(s@ =~= receipt_text(order@));
    s
}

} // verus!
