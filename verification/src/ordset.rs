//! Finite sets kept as strictly increasing lists.

use vstd::prelude::*;

use crate::kinds::{BindingKind, Register};
use crate::ops::Label;

verus! {

/// A type whose values are told apart and ordered by a number.
pub trait Ranked: Copy {
    spec fn rank(self) -> int;

    /// The number of a value.
    fn rank_of(self) -> (r: u64)
        ensures
            r == self.rank(),
    ;

    proof fn rank_injective(a: Self, b: Self)
        ensures
            a.rank() == b.rank() ==> a == b,
    ;
}

pub open spec fn kind_rank(kind: BindingKind) -> int {
    match kind {
        BindingKind::Int => 0,
        BindingKind::Ref => 1,
        BindingKind::Float => 2,
    }
}

/// Registers are ordered by bank, then by index.
impl Ranked for Register {
    open spec fn rank(self) -> int {
        kind_rank(self.kind) * 256 + self.index
    }

    fn rank_of(self) -> (r: u64) {
        let bank: u64 = match self.kind {
            BindingKind::Int => 0,
            BindingKind::Ref => 1,
            BindingKind::Float => 2,
        };
        bank * 256 + self.index as u64
    }

    proof fn rank_injective(a: Register, b: Register) {
    }
}

/// The digits of `n`, moved to the left end of five places.
pub open spec fn left_justified(n: u16) -> int {
    if n < 10 {
        n * 10000
    } else if n < 100 {
        n * 1000
    } else if n < 1000 {
        n * 100
    } else if n < 10000 {
        n * 10
    } else {
        n as int
    }
}

pub open spec fn digit_count(n: u16) -> int {
    if n < 10 {
        1
    } else if n < 100 {
        2
    } else if n < 1000 {
        3
    } else if n < 10000 {
        4
    } else {
        5
    }
}

/// Labels are ordered as the decimal texts of their numbers are: digit by digit
/// from the left, and a text before its extensions.
impl Ranked for Label {
    open spec fn rank(self) -> int {
        left_justified(self.id) * 8 + digit_count(self.id)
    }

    fn rank_of(self) -> (r: u64) {
        let n = self.id as u64;
        if self.id < 10 {
            n * 80000 + 1
        } else if self.id < 100 {
            n * 8000 + 2
        } else if self.id < 1000 {
            n * 800 + 3
        } else if self.id < 10000 {
            n * 80 + 4
        } else {
            n * 8 + 5
        }
    }

    proof fn rank_injective(a: Label, b: Label) {
    }
}

/// Numbers are ordered as usual.
impl Ranked for usize {
    open spec fn rank(self) -> int {
        self as int
    }

    fn rank_of(self) -> (r: u64) {
        self as u64
    }

    proof fn rank_injective(a: usize, b: usize) {
    }
}

/// Whether the list is strictly increasing.
pub open spec fn increasing<T: Ranked>(q: Seq<T>) -> bool {
    forall|i: int, j: int| 0 <= i < j < q.len() ==> (#[trigger] q[i]).rank() < (#[trigger] q[j]).rank()
}

/// The elements of a set in increasing order.
pub open spec fn in_order<T: Ranked>(s: Set<T>) -> Seq<T> {
    choose|q: Seq<T>| increasing(q) && #[trigger] q.to_set() == s
}

/// A strictly increasing list is determined by its elements.
pub proof fn lemma_increasing_unique<T: Ranked>(a: Seq<T>, b: Seq<T>)
    requires
        increasing(a),
        increasing(b),
        a.to_set() == b.to_set(),
    ensures
        a == b,
    decreases a.len(),
{
    if a.len() == 0 {
        if b.len() > 0 {
            assert(b.to_set().contains(b[0]));
            assert(a.to_set().contains(b[0]));
        }
        assert(a =~= b);
    } else if b.len() == 0 {
        assert(a.to_set().contains(a[0]));
        assert(b.to_set().contains(a[0]));
    } else {
        let x = a.last();
        let y = b.last();
        assert(a.to_set().contains(x));
        assert(b.to_set().contains(y));
        let i = choose|i: int| 0 <= i < b.len() && b[i] == x;
        let j = choose|j: int| 0 <= j < a.len() && a[j] == y;
        assert(x.rank() <= y.rank()) by {
            if i < b.len() - 1 {
                assert(b[i].rank() < b[b.len() - 1].rank());
            }
        }
        assert(y.rank() <= x.rank()) by {
            if j < a.len() - 1 {
                assert(a[j].rank() < a[a.len() - 1].rank());
            }
        }
        T::rank_injective(x, y);
        let a1 = a.drop_last();
        let b1 = b.drop_last();
        assert(increasing(a1)) by {
            assert forall|i: int, j: int| 0 <= i < j < a1.len() implies (#[trigger] a1[i]).rank()
                < (#[trigger] a1[j]).rank() by {
                assert(a[i].rank() < a[j].rank());
            }
        }
        assert(increasing(b1)) by {
            assert forall|i: int, j: int| 0 <= i < j < b1.len() implies (#[trigger] b1[i]).rank()
                < (#[trigger] b1[j]).rank() by {
                assert(b[i].rank() < b[j].rank());
            }
        }
        assert(a1.to_set() =~= b1.to_set()) by {
            assert forall|z: T| a1.to_set().contains(z) implies b1.to_set().contains(z) by {
                let k = choose|k: int| 0 <= k < a1.len() && a1[k] == z;
                assert(a[k].rank() < a[a.len() - 1].rank());
                assert(a.to_set().contains(a[k]));
                let m = choose|m: int| 0 <= m < b.len() && b[m] == z;
                assert(m < b.len() - 1);
                assert(b1[m] == z);
            }
            assert forall|z: T| b1.to_set().contains(z) implies a1.to_set().contains(z) by {
                let k = choose|k: int| 0 <= k < b1.len() && b1[k] == z;
                assert(b[k].rank() < b[b.len() - 1].rank());
                assert(b.to_set().contains(b[k]));
                let m = choose|m: int| 0 <= m < a.len() && a[m] == z;
                assert(m < a.len() - 1);
                assert(a1[m] == z);
            }
        }
        lemma_increasing_unique(a1, b1);
        assert(a =~= a1.push(x));
        assert(b =~= b1.push(y));
    }
}

/// A strictly increasing list holds its set in order.
pub proof fn lemma_in_order<T: Ranked>(q: Seq<T>)
    requires
        increasing(q),
    ensures
        in_order(q.to_set()) == q,
{
    let p = in_order(q.to_set());
    assert(increasing(q) && q.to_set() == q.to_set());
    lemma_increasing_unique(p, q);
}

/// A set that is kept as a strictly increasing list.
pub struct OrdSet<T: Ranked> {
    pub items: Vec<T>,
}

impl<T: Ranked> View for OrdSet<T> {
    type V = Set<T>;

    open spec fn view(&self) -> Set<T> {
        self.items@.to_set()
    }
}

impl<T: Ranked> OrdSet<T> {
    /// The list is strictly increasing.
    pub open spec fn wf(&self) -> bool {
        increasing(self.items@)
    }

    /// The empty set.
    pub fn new() -> (r: OrdSet<T>)
        ensures
            r.wf(),
            r@ == Set::<T>::empty(),
            r.items@.len() == 0,
    {
        let r = OrdSet { items: Vec::new() };
        assert(r@ =~= Set::<T>::empty());
        r
    }

    /// The set of the listed elements.
    pub fn from_list(list: &[T]) -> (r: OrdSet<T>)
        ensures
            r.wf(),
            r@ == list@.to_set(),
    {
        let mut r: OrdSet<T> = OrdSet::new();
        r.add_list(list);
        assert(r@ =~= list@.to_set());
        r
    }

    /// Adds the listed elements.
    pub fn add_list(&mut self, list: &[T])
        requires
            old(self).wf(),
        ensures
            final(self).wf(),
            final(self)@ == old(self)@.union(list@.to_set()),
    {
        let mut i: usize = 0;
        assert(self@ =~= old(self)@.union(list@.take(0).to_set()));
        while i < list.len()
            invariant
                i <= list.len(),
                self.wf(),
                self@ == old(self)@.union(list@.take(i as int).to_set()),
            decreases list.len() - i,
        {
            let ghost before = list@.take(i as int);
            let ghost after = list@.take(i + 1);
            let x = list[i];
            self.insert(x);
            assert(after =~= before.push(x));
            assert(after.to_set() =~= before.to_set().insert(x)) by {
                assert(after[i as int] == x);
                assert forall|z: T| before.to_set().contains(z) implies after.to_set().contains(
                    z,
                ) by {
                    let k = choose|k: int| 0 <= k < before.len() && before[k] == z;
                    assert(after[k] == z);
                }
            }
            assert(self@ =~= old(self)@.union(after.to_set()));
            i = i + 1;
        }
        assert(list@.take(list@.len() as int) =~= list@);
    }

    /// The same set again.
    pub fn copied(&self) -> (r: OrdSet<T>)
        ensures
            r.items@ == self.items@,
    {
        let mut items: Vec<T> = Vec::new();
        let mut i: usize = 0;
        while i < self.items.len()
            invariant
                i <= self.items.len(),
                items@ == self.items@.take(i as int),
            decreases self.items.len() - i,
        {
            items.push(self.items[i]);
            i = i + 1;
        }
        assert(items@ =~= self.items@);
        OrdSet { items }
    }

    /// Index of the first element that does not come before `x`.
    fn position(&self, x: T) -> (r: usize)
        requires
            self.wf(),
        ensures
            r <= self.items@.len(),
            forall|i: int| 0 <= i < r ==> (#[trigger] self.items@[i]).rank() < x.rank(),
            forall|i: int|
                r <= i < self.items@.len() ==> x.rank() <= (#[trigger] self.items@[i]).rank(),
    {
        let key: u64 = x.rank_of();
        let mut i: usize = 0;
        while i < self.items.len()
            invariant
                i <= self.items@.len(),
                self.wf(),
                key == x.rank(),
                forall|j: int| 0 <= j < i ==> (#[trigger] self.items@[j]).rank() < x.rank(),
            decreases self.items.len() - i,
        {
            if self.items[i].rank_of() >= key {
                assert forall|j: int| i <= j < self.items@.len() implies x.rank() <= (
                #[trigger] self.items@[j]).rank() by {
                    if i < j {
                        assert(self.items@[i as int].rank() < self.items@[j].rank());
                    }
                }
                return i;
            }
            i = i + 1;
        }
        i
    }

    /// Whether `x` is in the set.
    pub fn contains(&self, x: T) -> (r: bool)
        requires
            self.wf(),
        ensures
            r == self@.contains(x),
    {
        let i: usize = self.position(x);
        if i < self.items.len() && self.items[i].rank_of() == x.rank_of() {
            proof {
                T::rank_injective(self.items@[i as int], x);
            }
            assert(self.items@[i as int] == x);
            true
        } else {
            assert forall|j: int| 0 <= j < self.items@.len() implies self.items@[j] != x by {
                if i < j {
                    assert(self.items@[i as int].rank() < self.items@[j].rank());
                }
            }
            false
        }
    }

    /// Adds `x`. Says whether it was missing.
    pub fn insert(&mut self, x: T) -> (r: bool)
        requires
            old(self).wf(),
        ensures
            final(self).wf(),
            final(self)@ == old(self)@.insert(x),
            r == !old(self)@.contains(x),
            final(self).items@.len() == old(self).items@.len() + if r {
                1int
            } else {
                0int
            },
    {
        if self.contains(x) {
            assert(self@ =~= self@.insert(x));
            return false;
        }
        let i: usize = self.position(x);
        let ghost before = self.items@;
        assert forall|j: int| i <= j < before.len() implies x.rank() < (#[trigger] before[j]).rank() by {
            T::rank_injective(before[j], x);
            assert(self@.contains(before[j]));
        }
        self.items.insert(i, x);
        let ghost after = self.items@;
        assert(after =~= before.insert(i as int, x));
        assert(increasing(after)) by {
            assert forall|a: int, b: int| 0 <= a < b < after.len() implies (#[trigger] after[a]).rank()
                < (#[trigger] after[b]).rank() by {
                let a1 = if a < i { a } else { a - 1 };
                let b1 = if b < i { b } else { b - 1 };
                if a != i && b != i {
                    assert(before[a1].rank() < before[b1].rank());
                } else if a == i {
                    assert(x.rank() < before[b1].rank());
                } else {
                    assert(before[a1].rank() < x.rank());
                }
            }
        }
        assert(after.to_set() =~= before.to_set().insert(x)) by {
            assert(after[i as int] == x);
            assert forall|z: T| before.to_set().contains(z) implies after.to_set().contains(z) by {
                let k = choose|k: int| 0 <= k < before.len() && before[k] == z;
                let k1 = if k < i { k } else { k + 1 };
                assert(after[k1] == z);
            }
            assert forall|z: T| after.to_set().contains(z) implies before.to_set().insert(
                x,
            ).contains(z) by {
                let k = choose|k: int| 0 <= k < after.len() && after[k] == z;
                if k != i {
                    let k1 = if k < i { k } else { k - 1 };
                    assert(before[k1] == z);
                }
            }
        }
        true
    }

    /// Removes `x`.
    pub fn remove(&mut self, x: T)
        requires
            old(self).wf(),
        ensures
            final(self).wf(),
            final(self)@ == old(self)@.remove(x),
    {
        let i: usize = self.position(x);
        let ghost before = self.items@;
        if i < self.items.len() && self.items[i].rank_of() == x.rank_of() {
            proof {
                T::rank_injective(self.items@[i as int], x);
            }
            let _ = self.items.remove(i);
            let ghost after = self.items@;
            assert(after =~= before.remove(i as int));
            assert(increasing(after)) by {
                assert forall|a: int, b: int| 0 <= a < b < after.len() implies (
                #[trigger] after[a]).rank() < (#[trigger] after[b]).rank() by {
                    let a1 = if a < i { a } else { a + 1 };
                    let b1 = if b < i { b } else { b + 1 };
                    assert(before[a1].rank() < before[b1].rank());
                }
            }
            assert(after.to_set() =~= before.to_set().remove(x)) by {
                assert forall|z: T| before.to_set().remove(x).contains(z) implies after.to_set().contains(
                    z,
                ) by {
                    let k = choose|k: int| 0 <= k < before.len() && before[k] == z;
                    let k1 = if k < i { k } else { k - 1 };
                    assert(after[k1] == z);
                }
                assert forall|z: T| after.to_set().contains(z) implies before.to_set().remove(
                    x,
                ).contains(z) by {
                    let k = choose|k: int| 0 <= k < after.len() && after[k] == z;
                    let k1 = if k < i { k } else { k + 1 };
                    assert(before[k1] == z);
                    if k1 < i {
                        assert(before[k1].rank() < before[i as int].rank());
                    } else {
                        assert(before[i as int].rank() < before[k1].rank());
                    }
                }
            }
        } else {
            assert forall|j: int| 0 <= j < before.len() implies before[j] != x by {
                if i < j {
                    assert(before[i as int].rank() < before[j].rank());
                }
            }
            assert(before.to_set() =~= before.to_set().remove(x));
        }
    }

    /// Adds the elements of `other`. Says whether one of them was missing.
    pub fn add_all(&mut self, other: &OrdSet<T>) -> (r: bool)
        requires
            old(self).wf(),
        ensures
            final(self).wf(),
            final(self)@ == old(self)@.union(other@),
            r == !other@.subset_of(old(self)@),
            final(self).items@.len() >= old(self).items@.len() + if r {
                1int
            } else {
                0int
            },
    {
        let mut changed = false;
        let mut i: usize = 0;
        assert(self@ =~= old(self)@.union(other.items@.take(0).to_set()));
        while i < other.items.len()
            invariant
                i <= other.items.len(),
                self.wf(),
                self@ == old(self)@.union(other.items@.take(i as int).to_set()),
                changed == !other.items@.take(i as int).to_set().subset_of(old(self)@),
                self.items@.len() >= old(self).items@.len() + if changed {
                    1int
                } else {
                    0int
                },
            decreases other.items.len() - i,
        {
            let ghost before = other.items@.take(i as int);
            let ghost after = other.items@.take(i + 1);
            let x = other.items[i];
            let added = self.insert(x);
            assert(after =~= before.push(x));
            assert(after.to_set() =~= before.to_set().insert(x)) by {
                assert(after[i as int] == x);
                assert forall|z: T| before.to_set().contains(z) implies after.to_set().contains(
                    z,
                ) by {
                    let k = choose|k: int| 0 <= k < before.len() && before[k] == z;
                    assert(after[k] == z);
                }
            }
            assert(self@ =~= old(self)@.union(after.to_set()));
            proof {
                if added {
                    assert(after.to_set().contains(x));
                    assert(!old(self)@.contains(x));
                } else if !changed {
                    assert(after.to_set().subset_of(old(self)@)) by {
                        assert forall|z: T| after.to_set().contains(z) implies old(self)@.contains(
                            z,
                        ) by {
                            if z == x {
                                assert(old(self)@.contains(x) || before.to_set().contains(x));
                            }
                        }
                    }
                } else {
                    assert(!after.to_set().subset_of(old(self)@)) by {
                        let z = choose|z: T| before.to_set().contains(z) && !old(self)@.contains(z);
                        assert(after.to_set().contains(z));
                    }
                }
            }
            changed = changed || added;
            i = i + 1;
        }
        assert(other.items@.take(other.items@.len() as int) =~= other.items@);
        changed
    }
}

// ── Every finite set has an order ────────────────────────────────────

/// An increasing list with one more element.
spec fn with_element<T: Ranked>(q: Seq<T>, x: T) -> Seq<T>
    decreases q.len(),
{
    if q.len() == 0 || q.last().rank() < x.rank() {
        q.push(x)
    } else if q.last().rank() == x.rank() {
        q
    } else {
        with_element(q.drop_last(), x).push(q.last())
    }
}

proof fn lemma_with_element<T: Ranked>(q: Seq<T>, x: T)
    requires
        increasing(q),
    ensures
        increasing(with_element(q, x)),
        with_element(q, x).to_set() == q.to_set().insert(x),
    decreases q.len(),
{
    let r = with_element(q, x);
    if q.len() == 0 || q.last().rank() < x.rank() {
        assert forall|i: int, j: int| 0 <= i < j < r.len() implies (#[trigger] r[i]).rank() < (
        #[trigger] r[j]).rank() by {
            if j < q.len() {
                assert(q[i].rank() < q[j].rank());
            } else if i < q.len() - 1 {
                assert(q[i].rank() < q[q.len() - 1].rank());
            }
        }
        assert(r.to_set() =~= q.to_set().insert(x)) by {
            assert(r[q.len() as int] == x);
            assert forall|y: T| q.to_set().contains(y) implies r.to_set().contains(y) by {
                let i = choose|i: int| 0 <= i < q.len() && q[i] == y;
                assert(r[i] == y);
            }
        }
    } else if q.last().rank() == x.rank() {
        T::rank_injective(q.last(), x);
        assert(q[q.len() - 1] == x);
        assert(q.to_set().contains(x));
        assert(q.to_set().insert(x) =~= q.to_set());
    } else {
        let rest = q.drop_last();
        assert(increasing(rest)) by {
            assert forall|i: int, j: int| 0 <= i < j < rest.len() implies (#[trigger] rest[i]).rank()
                < (#[trigger] rest[j]).rank() by {
                assert(q[i].rank() < q[j].rank());
            }
        }
        lemma_with_element(rest, x);
        let inner = with_element(rest, x);
        assert forall|i: int, j: int| 0 <= i < j < r.len() implies (#[trigger] r[i]).rank() < (
        #[trigger] r[j]).rank() by {
            if j < inner.len() {
                assert(inner[i].rank() < inner[j].rank());
            } else {
                assert(inner.to_set().contains(inner[i]));
                if inner[i] != x {
                    assert(rest.to_set().contains(inner[i]));
                    let k = choose|k: int| 0 <= k < rest.len() && rest[k] == inner[i];
                    assert(q[k].rank() < q[q.len() - 1].rank());
                }
            }
        }
        assert(r.to_set() =~= q.to_set().insert(x)) by {
            assert forall|y: T| r.to_set().contains(y) implies q.to_set().insert(x).contains(y) by {
                let i = choose|i: int| 0 <= i < r.len() && r[i] == y;
                if i < inner.len() {
                    assert(inner[i] == y);
                    assert(inner.to_set().contains(y));
                    if y != x {
                        let k = choose|k: int| 0 <= k < rest.len() && rest[k] == y;
                        assert(q[k] == y);
                    }
                } else {
                    assert(q[q.len() - 1] == y);
                }
            }
            assert forall|y: T| q.to_set().insert(x).contains(y) implies r.to_set().contains(y) by {
                if y == x || rest.to_set().contains(y) {
                    assert(inner.to_set().contains(y));
                    let k = choose|k: int| 0 <= k < inner.len() && inner[k] == y;
                    assert(r[k] == y);
                } else {
                    let k = choose|k: int| 0 <= k < q.len() && q[k] == y;
                    if k < rest.len() {
                        assert(rest[k] == y);
                    }
                    assert(r[inner.len() as int] == y);
                }
            }
        }
    }
}

proof fn lemma_list_in_order<T: Ranked>(list: Seq<T>) -> (q: Seq<T>)
    ensures
        increasing(q),
        q.to_set() == list.to_set(),
    decreases list.len(),
{
    if list.len() == 0 {
        list
    } else {
        let rest = list.drop_last();
        let q = lemma_list_in_order(rest);
        lemma_with_element(q, list.last());
        assert(list.to_set() =~= rest.to_set().insert(list.last())) by {
            assert(list[list.len() - 1] == list.last());
            assert forall|y: T| list.to_set().contains(y) implies rest.to_set().insert(
                list.last(),
            ).contains(y) by {
                let i = choose|i: int| 0 <= i < list.len() && list[i] == y;
                if i < rest.len() {
                    assert(rest[i] == y);
                }
            }
            assert forall|y: T| rest.to_set().contains(y) implies list.to_set().contains(y) by {
                let i = choose|i: int| 0 <= i < rest.len() && rest[i] == y;
                assert(list[i] == y);
            }
        }
        with_element(q, list.last())
    }
}

/// The list of a finite set in order is increasing and holds its elements.
pub proof fn law_in_order_lists_a_finite_set<T: Ranked>(s: Set<T>)
    requires
        s.finite(),
    ensures
        increasing(in_order(s)),
        in_order(s).to_set() == s,
{
    s.lemma_to_seq_to_set_id();
    assert(s.to_seq().to_set() == s);
    let q = lemma_list_in_order(s.to_seq());
    assert(increasing(q) && q.to_set() == s);
}

/// The registers are finitely many, so every set of them has an order.
pub proof fn law_in_order_lists_registers(s: Set<Register>)
    ensures
        s.finite(),
        increasing(in_order(s)),
        in_order(s).to_set() == s,
{
    let all: Seq<Register> = Seq::new(
        768,
        |i: int|
            Register {
                kind: if i < 256 {
                    BindingKind::Int
                } else if i < 512 {
                    BindingKind::Ref
                } else {
                    BindingKind::Float
                },
                index: (i % 256) as u8,
            },
    );
    vstd::seq_lib::seq_to_set_is_finite(all);
    assert(s.subset_of(all.to_set())) by {
        assert forall|r: Register| s.contains(r) implies all.to_set().contains(r) by {
            assert(all[r.rank()] == r);
        }
    }
    vstd::set_lib::lemma_set_subset_finite(all.to_set(), s);
    law_in_order_lists_a_finite_set(s);
}

} // verus!
