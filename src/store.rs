use vstd::prelude::*;
use crate::records::{Coupon, Order, OrderItem, Product};
use crate::table::{
    find_id, find_slot, has_id, inserted, lemma_id_pos, lemma_inserted_wf, lemma_slot,
    lemma_without_wf, rank, slot, table_wf, without_id, Row,
};
use crate::text::{lemma_lex_irreflexive, lemma_lex_total, lemma_lex_transitive, lex_lt, text_lt};

verus! {

/// Why an operation on the store was refused.
#[derive(Debug, Clone, Copy, PartialEq, Eq, Structural)]
pub enum StoreError {
    /// An update named no record.
    MissingId,
    /// A coupon with the same code is already stored.
    DuplicateCode,
    /// A stored record with the same identifier is already loaded.
    DuplicateId,
    /// No identifier is left to assign.
    IdsExhausted,
    /// A stored order row has no creation time.
    MissingTimestamp,
}

pub open spec fn error_text(e: StoreError) -> Seq<char> {
    match e {
        StoreError::MissingId => "Product ID is required"@,
        StoreError::DuplicateCode => "UNIQUE constraint failed: coupons.code"@,
        StoreError::DuplicateId => "UNIQUE constraint failed: duplicate identifier"@,
        StoreError::IdsExhausted => "database or disk is full: no identifier left"@,
        StoreError::MissingTimestamp => "NOT NULL constraint failed: orders.created_at"@,
    }
}

impl StoreError {
    /// The error as text for the caller.
    pub fn message(&self) -> (r: &'static str)
        ensures
            r@ == error_text(*self),
    {
        proof {
            reveal_strlit("Product ID is required");
            reveal_strlit("UNIQUE constraint failed: coupons.code");
            reveal_strlit("UNIQUE constraint failed: duplicate identifier");
            reveal_strlit("database or disk is full: no identifier left");
            reveal_strlit("NOT NULL constraint failed: orders.created_at");
        }
        match self {
            StoreError::MissingId => "Product ID is required",
            StoreError::DuplicateCode => "UNIQUE constraint failed: coupons.code",
            StoreError::DuplicateId => "UNIQUE constraint failed: duplicate identifier",
            StoreError::IdsExhausted => "database or disk is full: no identifier left",
            StoreError::MissingTimestamp => "NOT NULL constraint failed: orders.created_at",
        }
    }
}

/// When an order was placed, as stored text; empty when it has none.
pub open spec fn stamp(o: Order) -> Seq<char> {
    match o.created_at {
        Some(s) => s@,
        None => Seq::empty(),
    }
}

impl Row for Product {
    open spec fn key_id(&self) -> Option<i32> {
        self.id
    }

    /// By name, then by identifier.
    open spec fn precedes(&self, other: &Self) -> bool {
        lex_lt(self.name@, other.name@) || (self.name@ == other.name@ && rank(self.id) < rank(other.id))
    }

    fn row_id(&self) -> (r: Option<i32>) {
        self.id
    }

    fn goes_before(&self, other: &Self) -> (r: bool) {
        text_lt(self.name.as_str(), other.name.as_str()) || (self.name == other.name && match (self.id, other.id) {
            (None, None) => false,
            (None, Some(_)) => true,
            (Some(_), None) => false,
            (Some(a), Some(b)) => a < b,
        })
    }

    proof fn lemma_order(a: &Self, b: &Self, c: &Self) {
        lemma_lex_irreflexive(a.name@);
        lemma_lex_total(a.name@, b.name@);
        if lex_lt(a.name@, b.name@) && lex_lt(b.name@, c.name@) {
            lemma_lex_transitive(a.name@, b.name@, c.name@);
        }
        if lex_lt(a.name@, b.name@) && lex_lt(b.name@, a.name@) {
            lemma_lex_transitive(a.name@, b.name@, a.name@);
        }
    }
}

impl Row for Coupon {
    open spec fn key_id(&self) -> Option<i32> {
        self.id
    }

    /// By code, then by identifier.
    open spec fn precedes(&self, other: &Self) -> bool {
        lex_lt(self.code@, other.code@) || (self.code@ == other.code@ && rank(self.id) < rank(other.id))
    }

    fn row_id(&self) -> (r: Option<i32>) {
        self.id
    }

    fn goes_before(&self, other: &Self) -> (r: bool) {
        text_lt(self.code.as_str(), other.code.as_str()) || (self.code == other.code && match (self.id, other.id) {
            (None, None) => false,
            (None, Some(_)) => true,
            (Some(_), None) => false,
            (Some(a), Some(b)) => a < b,
        })
    }

    proof fn lemma_order(a: &Self, b: &Self, c: &Self) {
        lemma_lex_irreflexive(a.code@);
        lemma_lex_total(a.code@, b.code@);
        if lex_lt(a.code@, b.code@) && lex_lt(b.code@, c.code@) {
            lemma_lex_transitive(a.code@, b.code@, c.code@);
        }
        if lex_lt(a.code@, b.code@) && lex_lt(b.code@, a.code@) {
            lemma_lex_transitive(a.code@, b.code@, a.code@);
        }
    }
}

fn stamp_text(o: &Order) -> (r: &str)
    ensures
        r@ == stamp(*o),
{
    match &o.created_at {
        Some(s) => s.as_str(),
        None => {
            proof {
                reveal_strlit("");
            }
            ""
        },
    }
}

impl Row for Order {
    open spec fn key_id(&self) -> Option<i32> {
        self.id
    }

    /// Newest first: by time placed, descending, then by identifier, descending.
    open spec fn precedes(&self, other: &Self) -> bool {
        lex_lt(stamp(*other), stamp(*self)) || (stamp(*self) == stamp(*other) && rank(other.id) < rank(self.id))
    }

    fn row_id(&self) -> (r: Option<i32>) {
        self.id
    }

    fn goes_before(&self, other: &Self) -> (r: bool) {
        let mine = stamp_text(self);
        let theirs = stamp_text(other);
        if text_lt(theirs, mine) {
            true
        } else if text_lt(mine, theirs) {
            false
        } else {
            proof {
                lemma_lex_total(mine@, theirs@);
            }
            match (other.id, self.id) {
                (None, None) => false,
                (None, Some(_)) => true,
                (Some(_), None) => false,
                (Some(a), Some(b)) => a < b,
            }
        }
    }

    proof fn lemma_order(a: &Self, b: &Self, c: &Self) {
        lemma_lex_irreflexive(stamp(*a));
        lemma_lex_total(stamp(*a), stamp(*b));
        if lex_lt(stamp(*c), stamp(*b)) && lex_lt(stamp(*b), stamp(*a)) {
            lemma_lex_transitive(stamp(*c), stamp(*b), stamp(*a));
        }
        if lex_lt(stamp(*a), stamp(*b)) && lex_lt(stamp(*b), stamp(*a)) {
            lemma_lex_transitive(stamp(*a), stamp(*b), stamp(*a));
        }
    }
}

/// The stored tables, each in the order in which it is listed, and the last
/// identifier handed out for each.
pub struct Tables {
    pub products: Seq<Product>,
    pub orders: Seq<Order>,
    pub coupons: Seq<Coupon>,
    pub last_product_id: int,
    pub last_order_id: int,
    pub last_coupon_id: int,
}

pub open spec fn fits_id(n: int) -> bool {
    i32::MIN <= n <= i32::MAX
}

/// No two coupons share a code.
pub open spec fn codes_unique(s: Seq<Coupon>) -> bool {
    forall|i: int, j: int| 0 <= i < s.len() && 0 <= j < s.len() && i != j ==> s[i].code@ != s[j].code@
}

/// Every order carries the time it was placed.
pub open spec fn all_stamped(s: Seq<Order>) -> bool {
    forall|i: int| 0 <= i < s.len() ==> (#[trigger] s[i]).created_at is Some
}

/// A record as stored under identifier `id`.
pub open spec fn product_with_id(p: Product, id: int) -> Product {
    Product { id: Some(id as i32), ..p }
}

pub open spec fn coupon_with_id(c: Coupon, id: int) -> Coupon {
    Coupon { id: Some(id as i32), ..c }
}

/// An order as recorded: its identifier and the time it was placed are the
/// store's, whatever the caller put there.
pub open spec fn placed(o: Order, id: int, now: String) -> Order {
    Order { id: Some(id as i32), created_at: Some(now), ..o }
}

pub open spec fn max_int(a: int, b: int) -> int {
    if a < b { b } else { a }
}

impl Tables {
    pub open spec fn wf(self) -> bool {
        &&& fits_id(self.last_product_id)
        &&& fits_id(self.last_order_id)
        &&& fits_id(self.last_coupon_id)
        &&& table_wf(self.products, self.last_product_id)
        &&& table_wf(self.orders, self.last_order_id)
        &&& table_wf(self.coupons, self.last_coupon_id)
        &&& codes_unique(self.coupons)
        &&& all_stamped(self.orders)
    }

    pub open spec fn code_taken(self, code: Seq<char>) -> bool {
        exists|i: int| 0 <= i < self.coupons.len() && self.coupons[i].code@ == code
    }

    pub open spec fn product_created(self, p: Product) -> Tables {
        let id = self.last_product_id + 1;
        Tables { products: inserted(self.products, product_with_id(p, id)), last_product_id: id, ..self }
    }

    pub open spec fn product_updated(self, p: Product) -> Tables {
        match p.id {
            Some(id) => if has_id(self.products, id) {
                Tables { products: inserted(without_id(self.products, id), p), ..self }
            } else {
                self
            },
            None => self,
        }
    }

    pub open spec fn product_deleted(self, id: i32) -> Tables {
        Tables { products: without_id(self.products, id), ..self }
    }

    pub open spec fn order_created(self, o: Order, now: String) -> Tables {
        let id = self.last_order_id + 1;
        Tables { orders: inserted(self.orders, placed(o, id, now)), last_order_id: id, ..self }
    }

    pub open spec fn coupon_created(self, c: Coupon) -> Tables {
        let id = self.last_coupon_id + 1;
        Tables { coupons: inserted(self.coupons, coupon_with_id(c, id)), last_coupon_id: id, ..self }
    }

    /// Creates each product of `ps` in turn.
    pub open spec fn products_created(self, ps: Seq<Product>) -> Tables
        decreases ps.len(),
    {
        if ps.len() == 0 {
            self
        } else {
            self.products_created(ps.drop_last()).product_created(ps.last())
        }
    }

    /// The catalog is created only into an empty product table, and only when
    /// identifiers are left for all of it.
    pub open spec fn seeded(self, catalog: Seq<Product>) -> Tables {
        if self.products.len() == 0 && self.last_product_id + catalog.len() <= i32::MAX {
            self.products_created(catalog)
        } else {
            self
        }
    }

    pub open spec fn product_restored(self, p: Product) -> Tables {
        Tables {
            products: inserted(self.products, p),
            last_product_id: max_int(self.last_product_id, rank(p.id)),
            ..self
        }
    }

    pub open spec fn order_restored(self, o: Order) -> Tables {
        Tables {
            orders: inserted(self.orders, o),
            last_order_id: max_int(self.last_order_id, rank(o.id)),
            ..self
        }
    }

    pub open spec fn coupon_restored(self, c: Coupon) -> Tables {
        Tables {
            coupons: inserted(self.coupons, c),
            last_coupon_id: max_int(self.last_coupon_id, rank(c.id)),
            ..self
        }
    }
}

/// The store: three sorted tables and the identifier counters.
pub struct Database {
    products: Vec<Product>,
    orders: Vec<Order>,
    coupons: Vec<Coupon>,
    last_product_id: i32,
    last_order_id: i32,
    last_coupon_id: i32,
}

impl View for Database {
    type V = Tables;

    closed spec fn view(&self) -> Tables {
        Tables {
            products: self.products@,
            orders: self.orders@,
            coupons: self.coupons@,
            last_product_id: self.last_product_id as int,
            last_order_id: self.last_order_id as int,
            last_coupon_id: self.last_coupon_id as int,
        }
    }
}

impl Database {
    pub open spec fn wf(&self) -> bool {
        self@.wf()
    }

    /// An empty store whose tables go on from the given last identifiers.
    pub fn new(last_product_id: i32, last_order_id: i32, last_coupon_id: i32) -> (r: Database)
        ensures
            r.wf(),
            r@.products.len() == 0,
            r@.orders.len() == 0,
            r@.coupons.len() == 0,
            r@.last_product_id == last_product_id,
            r@.last_order_id == last_order_id,
            r@.last_coupon_id == last_coupon_id,
    {
        Database {
            products: Vec::new(),
            orders: Vec::new(),
            coupons: Vec::new(),
            last_product_id,
            last_order_id,
            last_coupon_id,
        }
    }
}

pub proof fn lemma_fresh_id<T: Row>(s: Seq<T>, last: int, id: i32)
    requires
        table_wf(s, last),
        last < id,
    ensures
        forall|k: int| 0 <= k < s.len() ==> s[k].key_id() != Some(id),
        !has_id(s, id),
{
    lemma_id_pos(s, id);
}

pub proof fn lemma_stamped_insert(s: Seq<Order>, x: Order)
    requires
        all_stamped(s),
        x.created_at is Some,
    ensures
        all_stamped(inserted(s, x)),
{
    lemma_slot(s, x);
    let p = slot(s, x) as int;
    let t = inserted(s, x);
    assert forall|i: int| 0 <= i < t.len() implies (#[trigger] t[i]).created_at is Some by {
        if i > p {
            assert(t[i] == s[i - 1]);
        }
    }
}

fn copy_products(v: &Vec<Product>) -> (r: Vec<Product>)
    ensures
        r@ == v@,
{
    let mut out: Vec<Product> = Vec::new();
    let mut i: usize = 0;
    while i < v.len()
        invariant
            i <= v@.len(),
            out@ == v@.take(i as int),
        decreases v@.len() - i,
    {
        out.push(v[i].copy());
        assert(v@.take(i + 1) =~= v@.take(i as int).push(v@[i as int]));
        i = i + 1;
    }
    assert(v@.take(i as int) =~= v@);
    out
}

/// Every product, by name.
pub fn get_products(db: &Database) -> (r: Vec<Product>)
    ensures
        r@ == db@.products,
{
    copy_products(&db.products)
}

/// Stores a product under the next identifier and returns it as stored.
pub fn create_product(db: &mut Database, product: Product) -> (r: Result<Product, StoreError>)
    requires
        old(db).wf(),
    ensures
        final(db).wf(),
        old(db)@.last_product_id == i32::MAX ==> r == Err::<Product, StoreError>(StoreError::IdsExhausted)
            && final(db)@ == old(db)@,
        old(db)@.last_product_id < i32::MAX ==> r == Ok::<Product, StoreError>(
            product_with_id(product, old(db)@.last_product_id + 1),
        ) && final(db)@ == old(db)@.product_created(product),
{
    if db.last_product_id == i32::MAX {
        return Err(StoreError::IdsExhausted);
    }
    let id = db.last_product_id + 1;
    let mut stored = product;
    stored.id = Some(id);
    let result = stored.copy();
    proof {
        lemma_fresh_id(db.products@, db.last_product_id as int, id);
        lemma_inserted_wf(db.products@, db.last_product_id as int, stored, id as int);
    }
    let pos = find_slot(&db.products, &stored);
    db.products.insert(pos, stored);
    db.last_product_id = id;
    assert(stored == product_with_id(product, id as int));
    Ok(result)
}

/// Replaces the stored product that has the same identifier; succeeds
/// without change when there is none.
pub fn update_product(db: &mut Database, product: Product) -> (r: Result<(), StoreError>)
    requires
        old(db).wf(),
    ensures
        final(db).wf(),
        product.id is None ==> r == Err::<(), StoreError>(StoreError::MissingId) && final(db)@ == old(db)@,
        product.id is Some ==> r == Ok::<(), StoreError>(()) && final(db)@ == old(db)@.product_updated(product),
{
    let id = match product.id {
        Some(id) => id,
        None => {
            return Err(StoreError::MissingId);
        },
    };
    let i = find_id(&db.products, id);
    proof {
        lemma_id_pos(db.products@, id);
    }
    if i < db.products.len() {
        let ghost before = db.products@;
        proof {
            lemma_without_wf(before, db.last_product_id as int, id);
            lemma_id_pos(without_id(before, id), id);
        }
        db.products.remove(i);
        assert(db.products@ == without_id(before, id));
        proof {
            lemma_inserted_wf(db.products@, db.last_product_id as int, product, db.last_product_id as int);
        }
        let pos = find_slot(&db.products, &product);
        db.products.insert(pos, product);
    }
    Ok(())
}

/// Deletes the product with identifier `id`, if there is one.
pub fn delete_product(db: &mut Database, id: i32) -> (r: Result<(), StoreError>)
    requires
        old(db).wf(),
    ensures
        final(db).wf(),
        r == Ok::<(), StoreError>(()),
        final(db)@ == old(db)@.product_deleted(id),
{
    let i = find_id(&db.products, id);
    proof {
        lemma_id_pos(db.products@, id);
        lemma_without_wf(db.products@, db.last_product_id as int, id);
    }
    if i < db.products.len() {
        db.products.remove(i);
    }
    Ok(())
}

/// Every order, newest first.
pub fn get_orders(db: &Database) -> (r: Vec<Order>)
    requires
        db.wf(),
    ensures
        r@.len() == db@.orders.len(),
        forall|i: int| 0 <= i < r@.len() ==> r@[i]@ == db@.orders[i]@,
        forall|i: int| 0 <= i < r@.len() ==> (#[trigger] r@[i]).id is Some && r@[i].created_at is Some,
{
    let mut out: Vec<Order> = Vec::new();
    let mut i: usize = 0;
    while i < db.orders.len()
        invariant
            i <= db.orders@.len(),
            out@.len() == i,
            forall|k: int| 0 <= k < i ==> out@[k]@ == db.orders@[k]@,
        decreases db.orders@.len() - i,
    {
        out.push(db.orders[i].copy());
        i = i + 1;
    }
    out
}

/// Records an order placed at `now` under the next identifier, and returns it
/// as recorded.
pub fn create_order_at(db: &mut Database, order: Order, now: String) -> (r: Result<Order, StoreError>)
    requires
        old(db).wf(),
    ensures
        final(db).wf(),
        old(db)@.last_order_id == i32::MAX ==> r is Err && r == Err::<Order, StoreError>(StoreError::IdsExhausted)
            && final(db)@ == old(db)@,
        old(db)@.last_order_id < i32::MAX ==> r is Ok && r->Ok_0@ == placed(order, old(db)@.last_order_id + 1, now)@
            && final(db)@ == old(db)@.order_created(order, now),
{
    if db.last_order_id == i32::MAX {
        return Err(StoreError::IdsExhausted);
    }
    let id = db.last_order_id + 1;
    let mut stored = order;
    stored.id = Some(id);
    stored.created_at = Some(now);
    let result = stored.copy();
    proof {
        lemma_fresh_id(db.orders@, db.last_order_id as int, id);
        lemma_inserted_wf(db.orders@, db.last_order_id as int, stored, id as int);
        lemma_stamped_insert(db.orders@, stored);
    }
    let pos = find_slot(&db.orders, &stored);
    db.orders.insert(pos, stored);
    db.last_order_id = id;
    assert(stored == placed(order, id as int, now));
    Ok(result)
}

/// Relies on chrono's `Utc::now` and `DateTime::to_rfc3339`: the current
/// time as RFC 3339 text, which always holds a date, a time and an offset.
/// Nothing is known of which time it is.
#[verifier::external_body]
fn now_rfc3339() -> (r: String)
    ensures
        r@.len() > 0,
{
    chrono::Utc::now().to_rfc3339()
}

/// Records an order placed now; see `create_order_at`.
pub fn create_order(db: &mut Database, order: Order) -> (r: Result<Order, StoreError>)
    requires
        old(db).wf(),
    ensures
        final(db).wf(),
        old(db)@.last_order_id == i32::MAX ==> r == Err::<Order, StoreError>(StoreError::IdsExhausted)
            && final(db)@ == old(db)@,
        old(db)@.last_order_id < i32::MAX ==> exists|now: String|
            now@.len() > 0 && r is Ok && r->Ok_0@ == (#[trigger] placed(order, old(db)@.last_order_id + 1, now))@
                && final(db)@ == old(db)@.order_created(order, now),
{
    let now = now_rfc3339();
    let r = create_order_at(db, order, now);
    proof {
        if old(db)@.last_order_id < i32::MAX {
            assert(now@.len() > 0 && r is Ok && r->Ok_0@ == placed(order, old(db)@.last_order_id + 1, now)@
                && final(db)@ == old(db)@.order_created(order, now));
        }
    }
    r
}

fn copy_coupons(v: &Vec<Coupon>) -> (r: Vec<Coupon>)
    ensures
        r@ == v@,
{
    let mut out: Vec<Coupon> = Vec::new();
    let mut i: usize = 0;
    while i < v.len()
        invariant
            i <= v@.len(),
            out@ == v@.take(i as int),
        decreases v@.len() - i,
    {
        out.push(v[i].copy());
        assert(v@.take(i + 1) =~= v@.take(i as int).push(v@[i as int]));
        i = i + 1;
    }
    assert(v@.take(i as int) =~= v@);
    out
}

/// Every coupon, by code.
pub fn get_coupons(db: &Database) -> (r: Vec<Coupon>)
    ensures
        r@ == db@.coupons,
{
    copy_coupons(&db.coupons)
}

fn code_taken(v: &Vec<Coupon>, code: &String) -> (r: bool)
    ensures
        r == exists|i: int| 0 <= i < v@.len() && v@[i].code@ == code@,
{
    let mut i: usize = 0;
    while i < v.len()
        invariant
            i <= v@.len(),
            forall|k: int| 0 <= k < i ==> v@[k].code@ != code@,
        decreases v@.len() - i,
    {
        if v[i].code == *code {
            return true;
        }
        i = i + 1;
    }
    false
}

pub proof fn lemma_codes_unique_insert(s: Seq<Coupon>, c: Coupon)
    requires
        codes_unique(s),
        forall|k: int| 0 <= k < s.len() ==> s[k].code@ != c.code@,
    ensures
        codes_unique(inserted(s, c)),
{
    lemma_slot(s, c);
    let p = slot(s, c) as int;
    let t = inserted(s, c);
    assert forall|i: int, j: int| 0 <= i < t.len() && 0 <= j < t.len() && i != j implies t[i].code@ != t[j].code@ by {
        if i != p && j != p {
            let a = if i < p { i } else { i - 1 };
            let b = if j < p { j } else { j - 1 };
            assert(t[i] == s[a]);
            assert(t[j] == s[b]);
        } else if i == p {
            let b = if j < p { j } else { j - 1 };
            assert(t[j] == s[b]);
        } else {
            let a = if i < p { i } else { i - 1 };
            assert(t[i] == s[a]);
        }
    }
}

/// Stores a coupon under the next identifier; its code must be new.
pub fn create_coupon(db: &mut Database, coupon: Coupon) -> (r: Result<Coupon, StoreError>)
    requires
        old(db).wf(),
    ensures
        final(db).wf(),
        old(db)@.code_taken(coupon.code@) ==> r == Err::<Coupon, StoreError>(StoreError::DuplicateCode)
            && final(db)@ == old(db)@,
        !old(db)@.code_taken(coupon.code@) && old(db)@.last_coupon_id == i32::MAX ==> r == Err::<
            Coupon,
            StoreError,
        >(StoreError::IdsExhausted) && final(db)@ == old(db)@,
        !old(db)@.code_taken(coupon.code@) && old(db)@.last_coupon_id < i32::MAX ==> r == Ok::<
            Coupon,
            StoreError,
        >(coupon_with_id(coupon, old(db)@.last_coupon_id + 1))
            && final(db)@ == old(db)@.coupon_created(coupon),
{
    if code_taken(&db.coupons, &coupon.code) {
        return Err(StoreError::DuplicateCode);
    }
    if db.last_coupon_id == i32::MAX {
        return Err(StoreError::IdsExhausted);
    }
    let id = db.last_coupon_id + 1;
    let mut stored = coupon;
    stored.id = Some(id);
    let result = stored.copy();
    proof {
        lemma_fresh_id(db.coupons@, db.last_coupon_id as int, id);
        lemma_inserted_wf(db.coupons@, db.last_coupon_id as int, stored, id as int);
        lemma_codes_unique_insert(db.coupons@, stored);
    }
    let pos = find_slot(&db.coupons, &stored);
    db.coupons.insert(pos, stored);
    db.last_coupon_id = id;
    assert(stored == coupon_with_id(coupon, id as int));
    Ok(result)
}

/// Loads a stored product row with its identifier.
pub fn restore_product(db: &mut Database, product: Product) -> (r: Result<(), StoreError>)
    requires
        old(db).wf(),
    ensures
        final(db).wf(),
        product.id is None ==> r == Err::<(), StoreError>(StoreError::MissingId) && final(db)@ == old(db)@,
        product.id is Some && has_id(old(db)@.products, product.id->Some_0) ==> r == Err::<(), StoreError>(
            StoreError::DuplicateId,
        ) && final(db)@ == old(db)@,
        product.id is Some && !has_id(old(db)@.products, product.id->Some_0) ==> r == Ok::<(), StoreError>(())
            && final(db)@ == old(db)@.product_restored(product),
{
    let id = match product.id {
        Some(id) => id,
        None => {
            return Err(StoreError::MissingId);
        },
    };
    if find_id(&db.products, id) < db.products.len() {
        return Err(StoreError::DuplicateId);
    }
    let last = if db.last_product_id < id { id } else { db.last_product_id };
    proof {
        lemma_id_pos(db.products@, id);
        lemma_inserted_wf(db.products@, db.last_product_id as int, product, last as int);
    }
    let pos = find_slot(&db.products, &product);
    db.products.insert(pos, product);
    db.last_product_id = last;
    Ok(())
}

/// Loads a stored order row with its identifier.
pub fn restore_order(db: &mut Database, order: Order) -> (r: Result<(), StoreError>)
    requires
        old(db).wf(),
    ensures
        final(db).wf(),
        order.id is None ==> r == Err::<(), StoreError>(StoreError::MissingId) && final(db)@ == old(db)@,
        order.id is Some && order.created_at is None ==> r == Err::<(), StoreError>(
            StoreError::MissingTimestamp,
        ) && final(db)@ == old(db)@,
        order.id is Some && order.created_at is Some && has_id(old(db)@.orders, order.id->Some_0) ==> r
            == Err::<(), StoreError>(StoreError::DuplicateId) && final(db)@ == old(db)@,
        order.id is Some && order.created_at is Some && !has_id(old(db)@.orders, order.id->Some_0) ==> r
            == Ok::<(), StoreError>(())
            && final(db)@ == old(db)@.order_restored(order),
{
    let id = match order.id {
        Some(id) => id,
        None => {
            return Err(StoreError::MissingId);
        },
    };
    if order.created_at.is_none() {
        return Err(StoreError::MissingTimestamp);
    }
    if find_id(&db.orders, id) < db.orders.len() {
        return Err(StoreError::DuplicateId);
    }
    let last = if db.last_order_id < id { id } else { db.last_order_id };
    proof {
        lemma_id_pos(db.orders@, id);
        lemma_inserted_wf(db.orders@, db.last_order_id as int, order, last as int);
        lemma_stamped_insert(db.orders@, order);
    }
    let pos = find_slot(&db.orders, &order);
    db.orders.insert(pos, order);
    db.last_order_id = last;
    Ok(())
}

/// Loads a stored coupon row with its identifier.
pub fn restore_coupon(db: &mut Database, coupon: Coupon) -> (r: Result<(), StoreError>)
    requires
        old(db).wf(),
    ensures
        final(db).wf(),
        coupon.id is None ==> r == Err::<(), StoreError>(StoreError::MissingId) && final(db)@ == old(db)@,
        coupon.id is Some && has_id(old(db)@.coupons, coupon.id->Some_0) ==> r == Err::<(), StoreError>(
            StoreError::DuplicateId,
        ) && final(db)@ == old(db)@,
        coupon.id is Some && !has_id(old(db)@.coupons, coupon.id->Some_0) && old(db)@.code_taken(coupon.code@)
            ==> r == Err::<(), StoreError>(StoreError::DuplicateCode) && final(db)@ == old(db)@,
        coupon.id is Some && !has_id(old(db)@.coupons, coupon.id->Some_0) && !old(db)@.code_taken(coupon.code@)
            ==> r == Ok::<(), StoreError>(()) && final(db)@ == old(db)@.coupon_restored(coupon),
{
    let id = match coupon.id {
        Some(id) => id,
        None => {
            return Err(StoreError::MissingId);
        },
    };
    if find_id(&db.coupons, id) < db.coupons.len() {
        return Err(StoreError::DuplicateId);
    }
    if code_taken(&db.coupons, &coupon.code) {
        return Err(StoreError::DuplicateCode);
    }
    let last = if db.last_coupon_id < id { id } else { db.last_coupon_id };
    proof {
        lemma_id_pos(db.coupons@, id);
        lemma_inserted_wf(db.coupons@, db.last_coupon_id as int, coupon, last as int);
        lemma_codes_unique_insert(db.coupons@, coupon);
    }
    let pos = find_slot(&db.coupons, &coupon);
    db.coupons.insert(pos, coupon);
    db.last_coupon_id = last;
    Ok(())
}

/// The products of `catalog` as created one after another from identifier `first` on.
pub open spec fn numbered(catalog: Seq<Product>, first: int) -> Seq<Product> {
    Seq::new(catalog.len(), |i: int| product_with_id(catalog[i], first + i))
}

/// Creates the catalog when the product table is empty, and returns the
/// products created.
pub fn seed_if_empty(db: &mut Database, catalog: &Vec<Product>) -> (r: Result<Vec<Product>, StoreError>)
    requires
        old(db).wf(),
    ensures
        final(db).wf(),
        final(db)@ == old(db)@.seeded(catalog@),
        old(db)@.products.len() > 0 ==> r is Ok && r->Ok_0@.len() == 0,
        old(db)@.products.len() == 0 && old(db)@.last_product_id + catalog@.len() > i32::MAX ==> r
            == Err::<Vec<Product>, StoreError>(StoreError::IdsExhausted),
        old(db)@.products.len() == 0 && old(db)@.last_product_id + catalog@.len() <= i32::MAX ==> r is Ok
            && r->Ok_0@ == numbered(catalog@, old(db)@.last_product_id + 1),
{
    if db.products.len() > 0 {
        return Ok(Vec::new());
    }
    let room: i64 = i32::MAX as i64 - db.last_product_id as i64;
    if catalog.len() as u128 > room as u128 {
        return Err(StoreError::IdsExhausted);
    }
    let ghost start = db@;
    let mut created: Vec<Product> = Vec::new();
    let mut i: usize = 0;
    assert(catalog@.take(0) =~= Seq::<Product>::empty());
    while i < catalog.len()
        invariant
            i <= catalog@.len(),
            start.wf(),
            start.last_product_id + catalog@.len() <= i32::MAX,
            db.wf(),
            db@ == start.products_created(catalog@.take(i as int)),
            db@.last_product_id == start.last_product_id + i,
            created@ == numbered(catalog@.take(i as int), start.last_product_id + 1),
        decreases catalog@.len() - i,
    {
        let item = catalog[i].copy();
        let r = create_product(db, item);
        let stored = match r {
            Ok(p) => p,
            Err(_) => {
                return Err(StoreError::IdsExhausted);
            },
        };
        created.push(stored);
        assert(catalog@.take(i + 1).drop_last() =~= catalog@.take(i as int));
        assert(created@ =~= numbered(catalog@.take(i + 1), start.last_product_id + 1));
        i = i + 1;
    }
    assert(catalog@.take(i as int) =~= catalog@);
    Ok(created)
}

/// The line items of a stored order as decoded; an order whose items could
/// not be decoded is read with none.
pub fn items_or_empty(decoded: Option<Vec<OrderItem>>) -> (r: Vec<OrderItem>)
    ensures
        decoded is Some ==> r == decoded->Some_0,
        decoded is None ==> r@.len() == 0,
{
    match decoded {
        Some(items) => items,
        None => Vec::new(),
    }
}

} // verus!
