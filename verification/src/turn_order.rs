use vstd::prelude::*;

use crate::error::DataError;

verus! {

broadcast use vstd::seq_lib::group_filter_ensures;

/// Units are ordered from the fastest to the slowest.
pub open spec fn sorted_by_speed<T>(s: Seq<(T, i32)>) -> bool {
    forall|i: int, j: int| 0 <= i < j < s.len() ==> s[i].1 >= s[j].1
}

/// Selects the entries whose speed is `k`.
pub open spec fn has_speed<T>(k: i32) -> spec_fn((T, i32)) -> bool {
    |e: (T, i32)| e.1 == k
}

/// `r` is `s` ordered from the fastest to the slowest unit, where units of
/// equal speed keep the order they had in `s`.
pub open spec fn stably_sorted<T>(s: Seq<(T, i32)>, r: Seq<(T, i32)>) -> bool {
    &&& r.len() == s.len()
    &&& sorted_by_speed(r)
    &&& forall|k: i32| #[trigger] r.filter(has_speed::<T>(k)) == s.filter(has_speed::<T>(k))
}

/// The position that follows `cursor` in a circular list of `len` units.
pub open spec fn following(cursor: int, len: int) -> int {
    (cursor + 1) % len
}

/// The position reached from `cursor` after `n` steps around a circular list
/// of `len` units.
pub open spec fn advance_by(cursor: int, len: int, n: nat) -> int
    decreases n,
{
    if n == 0 {
        cursor
    } else {
        following(advance_by(cursor, len, (n - 1) as nat), len)
    }
}

/// The position of the current unit once the unit at `removed` has left the
/// list: a cursor behind the removed unit is shifted back once, except at 0.
pub open spec fn cursor_after_removal(cursor: int, removed: int) -> int {
    if cursor >= removed && cursor != 0 {
        cursor - 1
    } else {
        cursor
    }
}

proof fn lemma_advance_by_mod(cursor: int, len: int, n: nat)
    requires
        0 <= cursor < len,
    ensures
        advance_by(cursor, len, n) == (cursor + n) % len,
    decreases n,
{
    if n == 0 {
        vstd::arithmetic::div_mod::lemma_small_mod(cursor as nat, len as nat);
    } else {
        lemma_advance_by_mod(cursor, len, (n - 1) as nat);
        vstd::arithmetic::div_mod::lemma_add_mod_noop_right(1, cursor + n - 1, len);
    }
}

/// A full round: after as many steps as there are units, the turn is back at
/// the unit that started the round.
pub proof fn lemma_full_round(cursor: int, len: int)
    requires
        0 <= cursor < len,
    ensures
        advance_by(cursor, len, len as nat) == cursor,
{
    lemma_advance_by_mod(cursor, len, len as nat);
    vstd::arithmetic::div_mod::lemma_mod_add_multiples_vanish(cursor, len);
    vstd::arithmetic::div_mod::lemma_small_mod(cursor as nat, len as nat);
}

/// Within a round every unit gets the turn exactly once: the `len` positions
/// reached from `cursor` in fewer than `len` steps are all different.
pub proof fn lemma_round_visits_each_once(cursor: int, len: int, m: nat, n: nat)
    requires
        0 <= cursor < len,
        m < n < len,
    ensures
        advance_by(cursor, len, m) != advance_by(cursor, len, n),
{
    lemma_advance_by_mod(cursor, len, m);
    lemma_advance_by_mod(cursor, len, n);
    if cursor + n < len {
        vstd::arithmetic::div_mod::lemma_small_mod((cursor + m) as nat, len as nat);
        vstd::arithmetic::div_mod::lemma_small_mod((cursor + n) as nat, len as nat);
    } else if cursor + m >= len {
        vstd::arithmetic::div_mod::lemma_mod_add_multiples_vanish(cursor + m - len, len);
        vstd::arithmetic::div_mod::lemma_mod_add_multiples_vanish(cursor + n - len, len);
        vstd::arithmetic::div_mod::lemma_small_mod((cursor + m - len) as nat, len as nat);
        vstd::arithmetic::div_mod::lemma_small_mod((cursor + n - len) as nat, len as nat);
    } else {
        vstd::arithmetic::div_mod::lemma_small_mod((cursor + m) as nat, len as nat);
        vstd::arithmetic::div_mod::lemma_mod_add_multiples_vanish(cursor + n - len, len);
        vstd::arithmetic::div_mod::lemma_small_mod((cursor + n - len) as nat, len as nat);
    }
}

/// The turn goes round: from any unit but the last it passes to the unit
/// right after, and from the last unit back to the first.
pub proof fn lemma_following_steps(cursor: int, len: int)
    requires
        0 <= cursor < len,
    ensures
        cursor + 1 < len ==> following(cursor, len) == cursor + 1,
        cursor + 1 == len ==> following(cursor, len) == 0,
        0 <= following(cursor, len) < len,
{
    if cursor + 1 < len {
        vstd::arithmetic::div_mod::lemma_small_mod((cursor + 1) as nat, len as nat);
    } else {
        vstd::arithmetic::div_mod::lemma_mod_self_0(len);
    }
    vstd::arithmetic::div_mod::lemma_mod_bound(cursor + 1, len);
}

/// Taking a unit out of the turn order keeps the turn with the unit that had
/// it: a unit after the current one leaves the cursor where it is, a unit
/// before it shifts the cursor back by one, so that in both cases the cursor
/// still names the same unit. When the current unit itself is taken out, the
/// turn goes back to the unit before it (at the front, to the new first
/// unit). The cursor stays inside the shorter list.
pub proof fn lemma_removal_keeps_current<T>(s: Seq<(T, i32)>, cursor: int, removed: int)
    requires
        0 <= cursor < s.len(),
        0 <= removed < s.len(),
    ensures
        removed > cursor ==> cursor_after_removal(cursor, removed) == cursor,
        removed < cursor ==> cursor_after_removal(cursor, removed) == cursor - 1,
        removed != cursor ==> s.remove(removed)[cursor_after_removal(cursor, removed)] == s[cursor],
        removed == cursor && cursor > 0 ==> s.remove(removed)[cursor_after_removal(cursor, removed)]
            == s[cursor - 1],
        removed == cursor && cursor == 0 && s.len() > 1 ==> s.remove(removed)[cursor_after_removal(
            cursor,
            removed,
        )] == s[1],
        s.len() > 1 ==> 0 <= cursor_after_removal(cursor, removed) < s.len() - 1,
{
}

proof fn lemma_filter_none<A>(s: Seq<A>, p: spec_fn(A) -> bool)
    requires
        forall|i: int| 0 <= i < s.len() ==> !p(#[trigger] s[i]),
    ensures
        s.filter(p) == Seq::<A>::empty(),
    decreases s.len(),
{
    reveal(Seq::filter);
    if s.len() > 0 {
        lemma_filter_none(s.drop_last(), p);
    }
}

proof fn lemma_filter_single<A>(x: A, p: spec_fn(A) -> bool)
    ensures
        seq![x].filter(p) == (if p(x) {
            seq![x]
        } else {
            Seq::<A>::empty()
        }),
{
    Seq::lemma_filter_push(Seq::<A>::empty(), x, p);
    lemma_filter_none(Seq::<A>::empty(), p);
    assert(Seq::<A>::empty().push(x) =~= seq![x]);
}

/// Inserting `x` at the first position whose unit is not faster than `x`
/// keeps a sorted list sorted, and puts `x` before the units of its speed.
proof fn lemma_insert_sorted<T>(r: Seq<(T, i32)>, p: int, x: (T, i32))
    requires
        sorted_by_speed(r),
        0 <= p <= r.len(),
        forall|i: int| 0 <= i < p ==> #[trigger] r[i].1 > x.1,
        forall|i: int| p <= i < r.len() ==> #[trigger] r[i].1 <= x.1,
    ensures
        sorted_by_speed(r.insert(p, x)),
        forall|k: i32|
            #[trigger] r.insert(p, x).filter(has_speed::<T>(k)) == seq![x].filter(
                has_speed::<T>(k),
            ) + r.filter(has_speed::<T>(k)),
{
    let n = r.insert(p, x);
    assert(n =~= r.take(p) + seq![x] + r.skip(p));
    assert forall|k: i32| #[trigger]
        r.insert(p, x).filter(has_speed::<T>(k)) == seq![x].filter(has_speed::<T>(k)) + r.filter(
            has_speed::<T>(k),
        ) by {
        let f = has_speed::<T>(k);
        assert(r =~= r.take(p) + r.skip(p));
        Seq::filter_distributes_over_add(r.take(p) + seq![x], r.skip(p), f);
        Seq::filter_distributes_over_add(r.take(p), seq![x], f);
        Seq::filter_distributes_over_add(r.take(p), r.skip(p), f);
        lemma_filter_single(x, f);
        if k == x.1 {
            assert forall|i: int| 0 <= i < r.take(p).len() implies !f(#[trigger] r.take(p)[i]) by {
                assert(r.take(p)[i] == r[i]);
            }
            lemma_filter_none(r.take(p), f);
            assert(r.take(p).filter(f) + seq![x] + r.skip(p).filter(f) =~= seq![x] + (r.take(
                p,
            ).filter(f) + r.skip(p).filter(f)));
        } else {
            assert(r.take(p).filter(f) + Seq::<(T, i32)>::empty() + r.skip(p).filter(f)
                =~= Seq::<(T, i32)>::empty() + (r.take(p).filter(f) + r.skip(p).filter(f)));
        }
    }
}

proof fn lemma_filter_nonempty<A>(s: Seq<A>, p: spec_fn(A) -> bool) -> (i: int)
    requires
        s.filter(p).len() > 0,
    ensures
        0 <= i < s.len(),
        p(s[i]),
{
    if forall|j: int| 0 <= j < s.len() ==> !p(#[trigger] s[j]) {
        lemma_filter_none(s, p);
        assert(false);
        0
    } else {
        choose|j: int| 0 <= j < s.len() && p(#[trigger] s[j])
    }
}

proof fn lemma_sorted_same_blocks_equal<T>(r1: Seq<(T, i32)>, r2: Seq<(T, i32)>)
    requires
        r1.len() == r2.len(),
        sorted_by_speed(r1),
        sorted_by_speed(r2),
        forall|k: i32| #[trigger] r1.filter(has_speed::<T>(k)) == r2.filter(has_speed::<T>(k)),
    ensures
        r1 == r2,
    decreases r1.len(),
{
    if r1.len() == 0 {
        assert(r1 =~= r2);
    } else {
        let n = r1.len() - 1;
        let (l1, l2) = (r1.last(), r2.last());
        let (d1, d2) = (r1.drop_last(), r2.drop_last());
        assert(r1 =~= d1.push(l1));
        assert(r2 =~= d2.push(l2));
        // the last units of both lists have the same, lowest, speed
        assert(l1.1 == l2.1) by {
            Seq::lemma_filter_push(d1, l1, has_speed::<T>(l1.1));
            let i = lemma_filter_nonempty(r2, has_speed::<T>(l1.1));
            assert(r2[i].1 >= r2[n].1);
            Seq::lemma_filter_push(d2, l2, has_speed::<T>(l2.1));
            let j = lemma_filter_nonempty(r1, has_speed::<T>(l2.1));
            assert(r1[j].1 >= r1[n].1);
        }
        let m = l1.1;
        Seq::lemma_filter_push(d1, l1, has_speed::<T>(m));
        Seq::lemma_filter_push(d2, l2, has_speed::<T>(m));
        assert(r1.filter(has_speed::<T>(m)).last() == l1);
        assert(r2.filter(has_speed::<T>(m)).last() == l2);
        assert forall|k: i32| #[trigger] d1.filter(has_speed::<T>(k)) == d2.filter(has_speed::<T>(k)) by {
            Seq::lemma_filter_push(d1, l1, has_speed::<T>(k));
            Seq::lemma_filter_push(d2, l2, has_speed::<T>(k));
            if k == m {
                assert(d1.filter(has_speed::<T>(k)) =~= r1.filter(has_speed::<T>(k)).drop_last());
                assert(d2.filter(has_speed::<T>(k)) =~= r2.filter(has_speed::<T>(k)).drop_last());
            } else {
                assert(r1.filter(has_speed::<T>(k)) == r2.filter(has_speed::<T>(k)));
            }
        }
        lemma_sorted_same_blocks_equal(d1, d2);
    }
}

/// The order by speed is unique: two lists that both order the same units
/// from fastest to slowest, keeping the order of units of equal speed, are
/// the same list.
pub proof fn lemma_stable_sort_unique<T>(s: Seq<(T, i32)>, r1: Seq<(T, i32)>, r2: Seq<(T, i32)>)
    requires
        stably_sorted(s, r1),
        stably_sorted(s, r2),
    ensures
        r1 == r2,
{
    assert forall|k: i32| #[trigger] r1.filter(has_speed::<T>(k)) == r2.filter(has_speed::<T>(k)) by {
        assert(r1.filter(has_speed::<T>(k)) == s.filter(has_speed::<T>(k)));
        assert(r2.filter(has_speed::<T>(k)) == s.filter(has_speed::<T>(k)));
    }
    lemma_sorted_same_blocks_equal(r1, r2);
}

/// Orders `items` from the fastest to the slowest unit; units of equal speed
/// keep their order.
fn sort_by_speed<T>(items: Vec<(T, i32)>) -> (r: Vec<(T, i32)>)
    ensures
        stably_sorted(items@, r@),
{
    let ghost orig = items@;
    let mut items = items;
    let mut sorted: Vec<(T, i32)> = Vec::new();
    proof {
        assert forall|k: i32| #[trigger] sorted@.filter(has_speed::<T>(k)) == orig.skip(
            orig.len() as int,
        ).filter(has_speed::<T>(k)) by {
            lemma_filter_none(sorted@, has_speed::<T>(k));
            lemma_filter_none(orig.skip(orig.len() as int), has_speed::<T>(k));
        }
    }
    while items.len() > 0
        invariant
            items@ == orig.take(items@.len() as int),
            items@.len() <= orig.len(),
            sorted@.len() + items@.len() == orig.len(),
            sorted_by_speed(sorted@),
            forall|k: i32| #[trigger]
                sorted@.filter(has_speed::<T>(k)) == orig.skip(items@.len() as int).filter(
                    has_speed::<T>(k),
                ),
        decreases items@.len(),
    {
        let ghost m = items@.len() as int;
        let x = items.pop().unwrap();
        assert(x == orig[m - 1]);
        let speed = x.1;
        let mut p: usize = 0;
        while p < sorted.len() && sorted[p].1 > speed
            invariant
                p <= sorted@.len(),
                forall|i: int| 0 <= i < p ==> #[trigger] sorted@[i].1 > speed,
            decreases sorted@.len() - p,
        {
            p = p + 1;
        }
        proof {
            assert forall|i: int| p <= i < sorted@.len() implies #[trigger] sorted@[i].1 <= speed by {
                assert(sorted@[p as int].1 <= speed);
            }
            lemma_insert_sorted(sorted@, p as int, x);
            assert(orig.skip(m - 1) =~= seq![x] + orig.skip(m));
            assert forall|k: i32| #[trigger]
                sorted@.insert(p as int, x).filter(has_speed::<T>(k)) == orig.skip(m - 1).filter(
                    has_speed::<T>(k),
                ) by {
                Seq::filter_distributes_over_add(seq![x], orig.skip(m), has_speed::<T>(k));
            }
        }
        sorted.insert(p, x);
        assert(items@ =~= orig.take(items@.len() as int));
    }
    assert(orig.skip(0) =~= orig);
    sorted
}

/// The units taking part in a fight, ordered by speed, and the unit whose
/// turn it is. The list is circular: after the last unit comes the first.
#[derive(Debug)]
pub struct TurnOrderList<T> {
    unit_vec: Vec<(T, i32)>,
    index: usize,
}

impl<T> View for TurnOrderList<T> {
    type V = Seq<(T, i32)>;

    closed spec fn view(&self) -> Seq<(T, i32)> {
        self.unit_vec@
    }
}

impl<T: Clone> Clone for TurnOrderList<T> {
    /// A copy of the list, each unit cloned, with the same current position.
    fn clone(&self) -> (r: Self)
        ensures
            r@.len() == self@.len(),
            r.cursor() == self.cursor(),
            forall|i: int| 0 <= i < self@.len() ==> cloned::<(T, i32)>(self@[i], #[trigger] r@[i]),
    {
        proof {
            use_type_invariant(self);
        }
        TurnOrderList { unit_vec: self.unit_vec.clone(), index: self.index }
    }
}

impl<T> TurnOrderList<T> {
    /// The index points into the list, unless the list is empty.
    #[verifier::type_invariant]
    spec fn index_in_range(self) -> bool {
        self.index < self.unit_vec@.len() || self.unit_vec@.len() == 0
    }

    /// The position of the unit whose turn it is.
    pub closed spec fn cursor(&self) -> int {
        self.index as int
    }

    /// Creates a TurnOrderList with an empty vec and index 0.
    pub fn new() -> (r: Self)
        ensures
            r@ == Seq::<(T, i32)>::empty(),
            r.cursor() == 0,
            sorted_by_speed(r@),
    {
        TurnOrderList { unit_vec: Vec::new(), index: 0 }
    }

    /// Whether the list holds no unit.
    pub fn is_empty(&self) -> (r: bool)
        ensures
            r == (self@.len() == 0),
    {
        self.unit_vec.len() == 0
    }

    /// Orders the units from the fastest to the slowest (units of equal speed
    /// keep their order) and makes the first one current.
    pub fn new_sorted(items: Vec<(T, i32)>) -> (r: Self)
        ensures
            stably_sorted(items@, r@),
            r.cursor() == 0,
            r@.len() == items@.len(),
            forall|i: int, j: int| 0 <= i < j < r@.len() ==> r@[i].1 >= r@[j].1,
    {
        TurnOrderList { unit_vec: sort_by_speed(items), index: 0 }
    }

    /// The units in turn order.
    pub fn units(&self) -> (r: &Vec<(T, i32)>)
        ensures
            r@ == self@,
    {
        &self.unit_vec
    }

    /// Moves the turn to the next unit, wrapping around after the last one.
    fn tick_index(&mut self) -> (r: Result<(), DataError>)
        ensures
            final(self)@ == old(self)@,
            old(self)@.len() == 0 ==> r == Err::<(), DataError>(DataError::EmptyList)
                && final(self).cursor() == old(self).cursor(),
            old(self)@.len() > 0 ==> r is Ok && final(self).cursor() == following(
                old(self).cursor(),
                old(self)@.len() as int,
            ),
    {
        proof {
            use_type_invariant(&*self);
        }
        let len = self.unit_vec.len();
        if len == 0 {
            return Err(DataError::EmptyList);
        } else {
            self.index = (self.index + 1) % len;
        }
        Ok(())
    }

    /// Return the next item in the list and update the index, if the current
    /// index is at the end of the list, return the first item instead of None.
    pub fn next(&mut self) -> (r: Result<&(T, i32), DataError>)
        ensures
            final(self)@ == old(self)@,
            old(self)@.len() == 0 ==> r == Err::<&(T, i32), DataError>(DataError::EmptyList)
                && final(self).cursor() == old(self).cursor(),
            old(self)@.len() > 0 ==> final(self).cursor() == following(
                old(self).cursor(),
                old(self)@.len() as int,
            ) && r == Ok::<&(T, i32), DataError>(&old(self)@[final(self).cursor()]),
    {
        self.tick_index()?;
        proof {
            use_type_invariant(&*self);
        }
        Ok(&self.unit_vec[self.index])
    }

    /// Returns the next item without updating the index.
    pub fn peek(&self) -> (r: &T)
        requires
            self@.len() > 0,
        ensures
            *r == self@[following(self.cursor(), self@.len() as int)].0,
    {
        proof {
            use_type_invariant(self);
        }
        let len = self.unit_vec.len();
        &self.unit_vec[(self.index + 1) % len].0
    }

    /// Get the current item.
    pub fn get_current(&self) -> (r: Result<&T, DataError>)
        ensures
            self@.len() == 0 ==> r == Err::<&T, DataError>(DataError::EmptyList),
            self@.len() > 0 ==> r == Ok::<&T, DataError>(&self@[self.cursor()].0),
    {
        proof {
            use_type_invariant(self);
        }
        if self.unit_vec.len() == 0 {
            Err(DataError::EmptyList)
        } else {
            Ok(&self.unit_vec[self.index].0)
        }
    }

    /// Get the item at the given position.
    pub fn get(&self, index: usize) -> (r: Result<&T, DataError>)
        requires
            self@.len() == 0 || index < self@.len(),
        ensures
            self@.len() == 0 ==> r == Err::<&T, DataError>(DataError::EmptyList),
            self@.len() > 0 ==> r == Ok::<&T, DataError>(&self@[index as int].0),
    {
        if self.unit_vec.len() == 0 {
            Err(DataError::EmptyList)
        } else {
            Ok(&self.unit_vec[index].0)
        }
    }

    /// Takes the unit at `index` out of the list and returns it. A cursor
    /// behind it is shifted back once (it stays at 0).
    fn take_at(&mut self, index: usize) -> (r: (T, i32))
        requires
            index < old(self)@.len(),
        ensures
            r == old(self)@[index as int],
            final(self)@ == old(self)@.remove(index as int),
            final(self).cursor() == cursor_after_removal(old(self).cursor(), index as int),
    {
        proof {
            use_type_invariant(&*self);
        }
        let new_index = if self.index >= index && self.index != 0 {
            self.index - 1
        } else {
            self.index
        };
        let mut units = Vec::new();
        std::mem::swap(&mut units, &mut self.unit_vec);
        let taken = units.remove(index);
        self.index = new_index;
        self.unit_vec = units;
        taken
    }

    /// Removes the element at `ind`, or the current one when `ind` is `None`.
    /// If the removed element is not after the current one, the index is
    /// shifted back once (it stays at 0).
    pub fn remove(&mut self, ind: Option<usize>)
        requires
            match ind {
                Some(i) => i < old(self)@.len(),
                None => old(self)@.len() > 0,
            },
        ensures
            ({
                let i = match ind {
                    Some(i) => i as int,
                    None => old(self).cursor(),
                };
                &&& final(self)@ == old(self)@.remove(i)
                &&& final(self).cursor() == cursor_after_removal(old(self).cursor(), i)
            }),
            sorted_by_speed(old(self)@) ==> sorted_by_speed(final(self)@),
            ({
                let i = match ind {
                    Some(i) => i as int,
                    None => old(self).cursor(),
                };
                &&& i > old(self).cursor() ==> final(self).cursor() == old(self).cursor()
                &&& i != old(self).cursor() ==> final(self)@[final(self).cursor()] == old(self)@[old(
                    self,
                ).cursor()]
            }),
    {
        proof {
            use_type_invariant(&*self);
        }
        let index = match ind {
            Some(i) => i,
            None => self.index,
        };
        let _ = self.take_at(index);
    }

    /// Same as `remove`, but the removed element is returned.
    pub fn take(&mut self, ind: Option<usize>) -> (r: (T, i32))
        requires
            match ind {
                Some(i) => i < old(self)@.len(),
                None => old(self)@.len() > 0,
            },
        ensures
            ({
                let i = match ind {
                    Some(i) => i as int,
                    None => old(self).cursor(),
                };
                &&& r == old(self)@[i]
                &&& final(self)@ == old(self)@.remove(i)
                &&& final(self).cursor() == cursor_after_removal(old(self).cursor(), i)
            }),
            sorted_by_speed(old(self)@) ==> sorted_by_speed(final(self)@),
            ({
                let i = match ind {
                    Some(i) => i as int,
                    None => old(self).cursor(),
                };
                &&& i > old(self).cursor() ==> final(self).cursor() == old(self).cursor()
                &&& i != old(self).cursor() ==> final(self)@[final(self).cursor()] == old(self)@[old(
                    self,
                ).cursor()]
            }),
    {
        proof {
            use_type_invariant(&*self);
        }
        let index = match ind {
            Some(i) => i,
            None => self.index,
        };
        self.take_at(index)
    }

    /// The position of the unit whose turn it is.
    pub fn index(&self) -> (r: usize)
        ensures
            r == self.cursor(),
            r < self@.len() || self@.len() == 0,
    {
        proof {
            use_type_invariant(self);
        }
        self.index
    }
}

} // verus!
