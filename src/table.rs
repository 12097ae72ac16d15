use vstd::prelude::*;

verus! {

/// Where an identifier stands in a table's order; an absent one before all.
pub open spec fn rank(id: Option<i32>) -> int {
    match id {
        Some(i) => i as int,
        None => i32::MIN - 1,
    }
}

/// A record kept in a sorted table under a store-assigned identifier.
pub trait Row: Sized {
    spec fn key_id(&self) -> Option<i32>;

    /// The strict order in which the table lists its rows.
    spec fn precedes(&self, other: &Self) -> bool;

    fn row_id(&self) -> (r: Option<i32>)
        ensures
            r == self.key_id(),
    ;

    fn goes_before(&self, other: &Self) -> (r: bool)
        ensures
            r == self.precedes(other),
    ;

    /// `precedes` is a strict order, total on rows with distinct identifiers.
    proof fn lemma_order(a: &Self, b: &Self, c: &Self)
        ensures
            !a.precedes(a),
            a.precedes(b) && b.precedes(c) ==> a.precedes(c),
            a.key_id() != b.key_id() ==> a.precedes(b) || b.precedes(a),
    ;
}

pub open spec fn sorted<T: Row>(s: Seq<T>) -> bool {
    forall|i: int, j: int| 0 <= i < j < s.len() ==> s[i].precedes(&s[j])
}

/// Every row has an identifier, none above `last`, no two alike.
pub open spec fn ids_assigned<T: Row>(s: Seq<T>, last: int) -> bool {
    &&& forall|i: int| 0 <= i < s.len() ==> s[i].key_id() is Some && rank(s[i].key_id()) <= last
    &&& forall|i: int, j: int|
        0 <= i < s.len() && 0 <= j < s.len() && i != j ==> s[i].key_id() != s[j].key_id()
}

pub open spec fn table_wf<T: Row>(s: Seq<T>, last: int) -> bool {
    sorted(s) && ids_assigned(s, last)
}

/// Number of leading rows that precede `x`: where `x` is inserted.
pub open spec fn slot<T: Row>(s: Seq<T>, x: T) -> nat
    decreases s.len(),
{
    if s.len() > 0 && s[0].precedes(&x) {
        1 + slot(s.drop_first(), x)
    } else {
        0
    }
}

/// Index of the first row with identifier `id`; the length when there is none.
pub open spec fn id_pos<T: Row>(s: Seq<T>, id: i32) -> nat
    decreases s.len(),
{
    if s.len() > 0 && s[0].key_id() != Some(id) {
        1 + id_pos(s.drop_first(), id)
    } else {
        0
    }
}

pub open spec fn has_id<T: Row>(s: Seq<T>, id: i32) -> bool {
    id_pos(s, id) < s.len()
}

pub open spec fn inserted<T: Row>(s: Seq<T>, x: T) -> Seq<T> {
    s.insert(slot(s, x) as int, x)
}

pub open spec fn without_id<T: Row>(s: Seq<T>, id: i32) -> Seq<T> {
    if has_id(s, id) {
        s.remove(id_pos(s, id) as int)
    } else {
        s
    }
}

pub proof fn lemma_slot<T: Row>(s: Seq<T>, x: T)
    ensures
        slot(s, x) <= s.len(),
        forall|k: int| 0 <= k < slot(s, x) ==> s[k].precedes(&x),
        slot(s, x) < s.len() ==> !s[slot(s, x) as int].precedes(&x),
    decreases s.len(),
{
    if s.len() > 0 && s[0].precedes(&x) {
        lemma_slot(s.drop_first(), x);
        assert forall|k: int| 0 <= k < slot(s, x) implies s[k].precedes(&x) by {
            if k > 0 {
                assert(s[k] == s.drop_first()[k - 1]);
            }
        }
    }
}

pub proof fn lemma_id_pos<T: Row>(s: Seq<T>, id: i32)
    ensures
        id_pos(s, id) <= s.len(),
        forall|k: int| 0 <= k < id_pos(s, id) ==> s[k].key_id() != Some(id),
        id_pos(s, id) < s.len() ==> s[id_pos(s, id) as int].key_id() == Some(id),
        has_id(s, id) <==> exists|k: int| 0 <= k < s.len() && s[k].key_id() == Some(id),
    decreases s.len(),
{
    if s.len() > 0 && s[0].key_id() != Some(id) {
        lemma_id_pos(s.drop_first(), id);
        assert forall|k: int| 0 <= k < id_pos(s, id) implies s[k].key_id() != Some(id) by {
            if k > 0 {
                assert(s[k] == s.drop_first()[k - 1]);
            }
        }
        if id_pos(s, id) < s.len() {
            assert(s[id_pos(s, id) as int] == s.drop_first()[id_pos(s, id) - 1]);
        }
        if exists|k: int| 0 <= k < s.len() && s[k].key_id() == Some(id) {
            let k = choose|k: int| 0 <= k < s.len() && s[k].key_id() == Some(id);
            assert(s.drop_first()[k - 1] == s[k]);
        }
    }
}

/// Inserting at the slot keeps a sorted table sorted.
pub proof fn lemma_inserted_sorted<T: Row>(s: Seq<T>, x: T)
    requires
        sorted(s),
        forall|k: int| 0 <= k < s.len() ==> s[k].key_id() != x.key_id(),
    ensures
        sorted(inserted(s, x)),
{
    lemma_slot(s, x);
    let p = slot(s, x) as int;
    let t = inserted(s, x);
    assert forall|k: int| p <= k < s.len() implies x.precedes(&s[k]) by {
        if s[k].precedes(&x) {
            if k > p {
                T::lemma_order(&s[p], &s[k], &x);
            }
        }
        T::lemma_order(&x, &s[k], &x);
    }
    assert forall|i: int, j: int| 0 <= i < j < t.len() implies t[i].precedes(&t[j]) by {
        if i < p && j == p {
        } else if i == p {
            assert(t[j] == s[j - 1]);
        } else if j < p {
        } else if i < p {
            assert(t[j] == s[j - 1]);
            T::lemma_order(&s[i], &x, &s[j - 1]);
        } else {
            assert(t[i] == s[i - 1]);
            assert(t[j] == s[j - 1]);
        }
    }
}

pub proof fn lemma_inserted_wf<T: Row>(s: Seq<T>, last: int, x: T, new_last: int)
    requires
        table_wf(s, last),
        x.key_id() is Some,
        rank(x.key_id()) <= new_last,
        last <= new_last,
        forall|k: int| 0 <= k < s.len() ==> s[k].key_id() != x.key_id(),
    ensures
        table_wf(inserted(s, x), new_last),
        inserted(s, x).len() == s.len() + 1,
        forall|y: T| inserted(s, x).contains(y) <==> s.contains(y) || y == x,
{
    lemma_inserted_sorted(s, x);
    lemma_slot(s, x);
    let p = slot(s, x) as int;
    let t = inserted(s, x);
    assert forall|i: int, j: int|
        0 <= i < t.len() && 0 <= j < t.len() && i != j implies t[i].key_id() != t[j].key_id() by {
        if i != p && j != p {
            let a = if i < p { i } else { i - 1 };
            let b = if j < p { j } else { j - 1 };
            assert(t[i] == s[a]);
            assert(t[j] == s[b]);
        } else if i == p {
            let b = if j < p { j } else { j - 1 };
            assert(t[j] == s[b]);
        } else {
            let a = if i < p { i } else { i - 1 };
            assert(t[i] == s[a]);
        }
    }
    assert forall|i: int| 0 <= i < t.len() implies t[i].key_id() is Some && rank(t[i].key_id()) <= new_last by {
        if i < p {
        } else if i > p {
            assert(t[i] == s[i - 1]);
        }
    }
    assert forall|y: T| t.contains(y) <==> s.contains(y) || y == x by {
        if t.contains(y) {
            let i = choose|i: int| 0 <= i < t.len() && t[i] == y;
            if i < p {
                assert(s[i] == y);
            } else if i > p {
                assert(s[i - 1] == y);
            }
        }
        if s.contains(y) {
            let i = choose|i: int| 0 <= i < s.len() && s[i] == y;
            if i < p {
                assert(t[i] == y);
            } else {
                assert(t[i + 1] == y);
            }
        }
        if y == x {
            assert(t[p] == y);
        }
    }
}

/// Removing a row keeps a table well formed; rows with another identifier stay.
pub proof fn lemma_without_wf<T: Row>(s: Seq<T>, last: int, id: i32)
    requires
        table_wf(s, last),
    ensures
        table_wf(without_id(s, id), last),
        !has_id(without_id(s, id), id),
        has_id(s, id) ==> without_id(s, id).len() + 1 == s.len(),
        forall|y: T|
            without_id(s, id).contains(y) <==> s.contains(y) && y.key_id() != Some(id),
{
    lemma_id_pos(s, id);
    let t = without_id(s, id);
    let p = id_pos(s, id) as int;
    if has_id(s, id) {
        assert forall|i: int, j: int| 0 <= i < j < t.len() implies t[i].precedes(&t[j]) by {
            let a = if i < p { i } else { i + 1 };
            let b = if j < p { j } else { j + 1 };
            assert(t[i] == s[a]);
            assert(t[j] == s[b]);
        }
        assert forall|i: int, j: int|
            0 <= i < t.len() && 0 <= j < t.len() && i != j implies t[i].key_id() != t[j].key_id() by {
            let a = if i < p { i } else { i + 1 };
            let b = if j < p { j } else { j + 1 };
            assert(t[i] == s[a]);
            assert(t[j] == s[b]);
        }
        assert forall|i: int| 0 <= i < t.len() implies t[i].key_id() is Some && rank(t[i].key_id()) <= last by {
            let a = if i < p { i } else { i + 1 };
            assert(t[i] == s[a]);
        }
        assert forall|y: T| t.contains(y) <==> s.contains(y) && y.key_id() != Some(id) by {
            if t.contains(y) {
                let i = choose|i: int| 0 <= i < t.len() && t[i] == y;
                let a = if i < p { i } else { i + 1 };
                assert(t[i] == s[a]);
                assert(a != p);
            }
            if s.contains(y) && y.key_id() != Some(id) {
                let i = choose|i: int| 0 <= i < s.len() && s[i] == y;
                if i < p {
                    assert(t[i] == y);
                } else {
                    assert(i != p);
                    assert(t[i - 1] == y);
                }
            }
        }
        lemma_id_pos(t, id);
        if has_id(t, id) {
            let k = choose|k: int| 0 <= k < t.len() && t[k].key_id() == Some(id);
            let a = if k < p { k } else { k + 1 };
            assert(t[k] == s[a]);
        }
    } else {
        assert forall|y: T| t.contains(y) <==> s.contains(y) && y.key_id() != Some(id) by {
            if s.contains(y) {
                let i = choose|i: int| 0 <= i < s.len() && s[i] == y;
                assert(s[i].key_id() != Some(id));
            }
        }
    }
}

/// Position at which `x` is inserted into a table.
pub fn find_slot<T: Row>(v: &Vec<T>, x: &T) -> (r: usize)
    ensures
        r == slot(v@, *x),
        r <= v@.len(),
{
    let mut i: usize = 0;
    assert(v@.skip(0) =~= v@);
    while i < v.len() && v[i].goes_before(x)
        invariant
            i <= v@.len(),
            slot(v@, *x) == i + slot(v@.skip(i as int), *x),
        decreases v@.len() - i,
    {
        assert(v@.skip(i as int).drop_first() =~= v@.skip(i + 1));
        i = i + 1;
    }
    i
}

/// Index of the row with identifier `id`, or the length when there is none.
pub fn find_id<T: Row>(v: &Vec<T>, id: i32) -> (r: usize)
    ensures
        r == id_pos(v@, id),
        r <= v@.len(),
{
    let mut i: usize = 0;
    assert(v@.skip(0) =~= v@);
    while i < v.len() && v[i].row_id() != Some(id)
        invariant
            i <= v@.len(),
            id_pos(v@, id) == i + id_pos(v@.skip(i as int), id),
        decreases v@.len() - i,
    {
        assert(v@.skip(i as int).drop_first() =~= v@.skip(i + 1));
        i = i + 1;
    }
    i
}

} // verus!
