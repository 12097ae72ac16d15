use vstd::prelude::*;
use crate::records::{Coupon, Order, Product};
use crate::store::{
    coupon_with_id, lemma_codes_unique_insert, lemma_fresh_id, lemma_stamped_insert, placed, product_with_id, stamp, Tables,
};
use crate::table::{has_id, lemma_id_pos, lemma_inserted_wf, lemma_slot, lemma_without_wf, slot, without_id, Row};
use crate::text::{lemma_lex_irreflexive, lemma_lex_total, lemma_lex_transitive, lex_lt};

verus! {

/// `a` sorts no later than `b`.
pub open spec fn lex_le(a: Seq<char>, b: Seq<char>) -> bool {
    !lex_lt(b, a)
}

pub proof fn lemma_lex_le_transitive(a: Seq<char>, b: Seq<char>, c: Seq<char>)
    requires
        lex_le(a, b),
        lex_le(b, c),
    ensures
        lex_le(a, c),
{
    if lex_lt(c, a) {
        lemma_lex_total(a, b);
        if lex_lt(a, b) {
            lemma_lex_transitive(c, a, b);
        }
    }
}

/// A created product is listed under its new identifier, and the listing
/// stays ordered by name.
pub proof fn lemma_created_product_listed(t: Tables, p: Product)
    requires
        t.wf(),
        t.last_product_id < i32::MAX,
    ensures
        t.product_created(p).wf(),
        t.product_created(p).products.contains(product_with_id(p, t.last_product_id + 1)),
        forall|i: int, j: int|
            0 <= i < j < t.product_created(p).products.len() ==> lex_le(
                #[trigger] t.product_created(p).products[i].name@,
                #[trigger] t.product_created(p).products[j].name@,
            ),
{
    let id = t.last_product_id + 1;
    let x = product_with_id(p, id);
    lemma_fresh_id(t.products, t.last_product_id, id as i32);
    lemma_inserted_wf(t.products, t.last_product_id, x, id);
    let s = t.product_created(p).products;
    lemma_slot(t.products, x);
    assert(s[slot(t.products, x) as int] == x);
    assert forall|i: int, j: int| 0 <= i < j < s.len() implies lex_le(#[trigger] s[i].name@, #[trigger] s[j].name@) by {
        assert(s[i].precedes(&s[j]));
        lemma_lex_irreflexive(s[i].name@);
        lemma_lex_irreflexive(s[j].name@);
        if lex_lt(s[j].name@, s[i].name@) && lex_lt(s[i].name@, s[j].name@) {
            lemma_lex_transitive(s[j].name@, s[i].name@, s[j].name@);
        }
    }
}

/// Updating a stored product replaces that one row and leaves every other.
pub proof fn lemma_update_replaces_only_target(t: Tables, p: Product)
    requires
        t.wf(),
        p.id is Some,
        has_id(t.products, p.id->Some_0),
    ensures
        t.product_updated(p).wf(),
        t.product_updated(p).products.len() == t.products.len(),
        forall|q: Product|
            t.product_updated(p).products.contains(q) <==> (t.products.contains(q) && q.id != p.id) || q == p,
        t.product_updated(p).orders == t.orders,
        t.product_updated(p).coupons == t.coupons,
{
    let id = p.id->Some_0;
    lemma_id_pos(t.products, id);
    lemma_without_wf(t.products, t.last_product_id, id);
    let w = without_id(t.products, id);
    lemma_id_pos(w, id);
    lemma_inserted_wf(w, t.last_product_id, p, t.last_product_id);
}

/// Deleting an identifier that no product has changes nothing.
pub proof fn lemma_delete_absent_unchanged(t: Tables, id: i32)
    requires
        t.wf(),
        forall|k: int| 0 <= k < t.products.len() ==> t.products[k].id != Some(id),
    ensures
        t.product_deleted(id) == t,
{
    lemma_id_pos(t.products, id);
}

/// Once a coupon is created, its code is taken, so a second coupon with that
/// code is refused, and exactly one coupon carries it.
pub proof fn lemma_coupon_code_once(t: Tables, c: Coupon)
    requires
        t.wf(),
        !t.code_taken(c.code@),
        t.last_coupon_id < i32::MAX,
    ensures
        t.coupon_created(c).wf(),
        t.coupon_created(c).code_taken(c.code@),
        exists|i: int|
            0 <= i < t.coupon_created(c).coupons.len() && t.coupon_created(c).coupons[i].code@ == c.code@ && forall|
                j: int,
            |
                0 <= j < t.coupon_created(c).coupons.len() && #[trigger] t.coupon_created(c).coupons[j].code@
                    == c.code@ ==> j == i,
{
    let id = t.last_coupon_id + 1;
    let x = coupon_with_id(c, id);
    lemma_fresh_id(t.coupons, t.last_coupon_id, id as i32);
    lemma_inserted_wf(t.coupons, t.last_coupon_id, x, id);
    lemma_codes_unique_insert(t.coupons, x);
    let s = t.coupon_created(c).coupons;
    lemma_slot(t.coupons, x);
    let i = slot(t.coupons, x) as int;
    assert(s[i] == x);
    assert(s[i].code@ == c.code@);
}

/// An order placed no earlier than every stored one is listed first.
pub proof fn lemma_newest_listed_first(t: Tables, o: Order, now: String)
    requires
        t.wf(),
        t.last_order_id < i32::MAX,
        forall|k: int| 0 <= k < t.orders.len() ==> lex_le(#[trigger] stamp(t.orders[k]), now@),
    ensures
        t.order_created(o, now).wf(),
        t.order_created(o, now).orders == t.orders.insert(0, placed(o, t.last_order_id + 1, now)),
{
    let id = t.last_order_id + 1;
    let x = placed(o, id, now);
    lemma_fresh_id(t.orders, t.last_order_id, id as i32);
    lemma_inserted_wf(t.orders, t.last_order_id, x, id);
    lemma_stamped_insert(t.orders, x);
    if t.orders.len() > 0 {
        assert(lex_le(stamp(t.orders[0]), now@));
        assert(!t.orders[0].precedes(&x));
    }
    assert(slot(t.orders, x) == 0);
}

/// Three orders placed one after another, at times that do not go back, are
/// listed newest first, ahead of the older ones.
pub proof fn lemma_three_orders_newest_first(
    t: Tables,
    a: Order,
    ta: String,
    b: Order,
    tb: String,
    c: Order,
    tc: String,
)
    requires
        t.wf(),
        t.last_order_id + 3 <= i32::MAX,
        forall|k: int| 0 <= k < t.orders.len() ==> lex_le(#[trigger] stamp(t.orders[k]), ta@),
        lex_le(ta@, tb@),
        lex_le(tb@, tc@),
    ensures
        t.order_created(a, ta).order_created(b, tb).order_created(c, tc).orders.len() == t.orders.len() + 3,
        t.order_created(a, ta).order_created(b, tb).order_created(c, tc).orders[0] == placed(
            c,
            t.last_order_id + 3,
            tc,
        ),
        t.order_created(a, ta).order_created(b, tb).order_created(c, tc).orders[1] == placed(
            b,
            t.last_order_id + 2,
            tb,
        ),
        t.order_created(a, ta).order_created(b, tb).order_created(c, tc).orders[2] == placed(
            a,
            t.last_order_id + 1,
            ta,
        ),
{
    lemma_newest_listed_first(t, a, ta);
    let t1 = t.order_created(a, ta);
    assert forall|k: int| 0 <= k < t1.orders.len() implies lex_le(#[trigger] stamp(t1.orders[k]), tb@) by {
        if k == 0 {
        } else {
            assert(t1.orders[k] == t.orders[k - 1]);
            lemma_lex_le_transitive(stamp(t.orders[k - 1]), ta@, tb@);
        }
    }
    lemma_newest_listed_first(t1, b, tb);
    let t2 = t1.order_created(b, tb);
    assert forall|k: int| 0 <= k < t2.orders.len() implies lex_le(#[trigger] stamp(t2.orders[k]), tc@) by {
        if k == 0 {
        } else {
            assert(t2.orders[k] == t1.orders[k - 1]);
            lemma_lex_le_transitive(stamp(t1.orders[k - 1]), tb@, tc@);
        }
    }
    lemma_newest_listed_first(t2, c, tc);
}

proof fn lemma_products_created_len(t: Tables, ps: Seq<Product>)
    ensures
        t.products_created(ps).products.len() == t.products.len() + ps.len(),
    decreases ps.len(),
{
    if ps.len() > 0 {
        let u = t.products_created(ps.drop_last());
        lemma_products_created_len(t, ps.drop_last());
        lemma_slot(u.products, product_with_id(ps.last(), u.last_product_id + 1));
    } else {
        assert(t.products_created(ps) == t);
    }
}

/// Seeding a second time adds nothing; seeding an empty table leaves exactly
/// the catalog's number of products.
pub proof fn lemma_seeding_once(t: Tables, catalog: Seq<Product>)
    requires
        t.wf(),
    ensures
        t.seeded(catalog).seeded(catalog) == t.seeded(catalog),
        t.products.len() == 0 && t.last_product_id + catalog.len() <= i32::MAX ==> t.seeded(
            catalog,
        ).products.len() == catalog.len(),
{
    lemma_products_created_len(t, catalog);
    if t.products.len() == 0 && t.last_product_id + catalog.len() <= i32::MAX && catalog.len() == 0 {
        assert(t.products_created(catalog) == t);
    }
}

} // verus!
