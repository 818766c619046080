use vstd::prelude::*;
use crate::error::GameError;

verus! {

/// Entries of a ledger: item name and quantity, in insertion order.
pub type Entries = Seq<(String, u32)>;

/// Each name at most once, and no entry with quantity zero.
pub open spec fn entries_wf(s: Entries) -> bool {
    &&& forall|i: int, j: int|
        0 <= i < s.len() && 0 <= j < s.len() && i != j ==> (#[trigger] s[i]).0@ != (#[trigger] s[j]).0@
    &&& forall|i: int| 0 <= i < s.len() ==> (#[trigger] s[i]).1 > 0
}

pub open spec fn has_entry(s: Entries, name: Seq<char>) -> bool {
    exists|i: int| 0 <= i < s.len() && (#[trigger] s[i]).0@ == name
}

/// The position of the entry of that name (meaningful when there is one).
pub open spec fn entry_index(s: Entries, name: Seq<char>) -> int {
    choose|i: int| 0 <= i < s.len() && (#[trigger] s[i]).0@ == name
}

/// The quantity held of an item: zero when it has no entry.
pub open spec fn quantity(s: Entries, name: Seq<char>) -> nat {
    if has_entry(s, name) {
        s[entry_index(s, name)].1 as nat
    } else {
        0
    }
}

/// Adding `amount` would take the quantity of the item past `u32::MAX`.
pub open spec fn add_overflows(s: Entries, name: Seq<char>, amount: u32) -> bool {
    quantity(s, name) + amount > u32::MAX
}

/// The ledger after adding `amount` of `item`: the existing entry grows in
/// place, or a new entry is appended; adding nothing changes nothing.
pub open spec fn after_add(s: Entries, item: String, amount: u32) -> Entries {
    if amount == 0 {
        s
    } else if has_entry(s, item@) {
        let i = entry_index(s, item@);
        s.update(i, (s[i].0, (s[i].1 + amount) as u32))
    } else {
        s.push((item, amount))
    }
}

/// Removing `amount` of the item fails: it has no entry, or too few units.
pub open spec fn remove_fails(s: Entries, name: Seq<char>, amount: u32) -> bool {
    !has_entry(s, name) || quantity(s, name) < amount
}

/// The ledger after a successful removal: the entry shrinks, and leaves
/// entirely once its quantity reaches zero.
pub open spec fn after_remove(s: Entries, name: Seq<char>, amount: u32) -> Entries {
    let i = entry_index(s, name);
    if s[i].1 == amount {
        s.remove(i)
    } else {
        s.update(i, (s[i].0, (s[i].1 - amount) as u32))
    }
}

proof fn lemma_index_unique(s: Entries, name: Seq<char>, i: int)
    requires
        entries_wf(s),
        0 <= i < s.len(),
        s[i].0@ == name,
    ensures
        has_entry(s, name),
        entry_index(s, name) == i,
        quantity(s, name) == s[i].1,
{
    assert(has_entry(s, name));
    let k = entry_index(s, name);
    if k != i {
        assert(s[k].0@ != s[i].0@);
    }
}

proof fn lemma_absent_after_push(s: Entries, item: String, amount: u32)
    requires
        entries_wf(s),
        !has_entry(s, item@),
        amount > 0,
    ensures
        entries_wf(s.push((item, amount))),
{
    let t = s.push((item, amount));
    assert forall|i: int, j: int|
        0 <= i < t.len() && 0 <= j < t.len() && i != j implies (#[trigger] t[i]).0@ != (
        #[trigger] t[j]).0@ by {
        if i < s.len() && j < s.len() {
            assert(t[i] == s[i] && t[j] == s[j]);
        } else if i < s.len() {
            assert(t[i] == s[i]);
        } else {
            assert(t[j] == s[j]);
        }
    }
    assert forall|i: int| 0 <= i < t.len() implies (#[trigger] t[i]).1 > 0 by {
        if i < s.len() {
            assert(t[i] == s[i]);
        }
    }
}

/// Adding an amount of an item and then removing the same amount of it gives
/// back the ledger as it was.
pub proof fn lemma_add_then_remove(s: Entries, item: String, amount: u32)
    requires
        entries_wf(s),
        !add_overflows(s, item@, amount),
    ensures
        amount > 0 ==> !remove_fails(after_add(s, item, amount), item@, amount),
        amount > 0 ==> after_remove(after_add(s, item, amount), item@, amount) == s,
        amount == 0 ==> after_add(s, item, amount) == s,
{
    if amount > 0 {
        let t = after_add(s, item, amount);
        if has_entry(s, item@) {
            let i = entry_index(s, item@);
            lemma_index_unique(s, item@, i);
            assert(entries_wf(t)) by {
                assert forall|a: int, b: int|
                    0 <= a < t.len() && 0 <= b < t.len() && a != b implies (#[trigger] t[a]).0@
                    != (#[trigger] t[b]).0@ by {
                    assert(s[a].0@ != s[b].0@);
                }
            }
            lemma_index_unique(t, item@, i);
            assert(after_remove(t, item@, amount) =~= s);
        } else {
            lemma_absent_after_push(s, item, amount);
            lemma_index_unique(t, item@, s.len() as int);
            assert(t.remove(s.len() as int) =~= s);
        }
    }
}

/// Adding an amount of an item raises its quantity by exactly that amount and
/// leaves the quantity of every other item as it was.
pub proof fn lemma_add_quantity(s: Entries, item: String, amount: u32, other: Seq<char>)
    requires
        entries_wf(s),
        !add_overflows(s, item@, amount),
    ensures
        quantity(after_add(s, item, amount), item@) == quantity(s, item@) + amount,
        other != item@ ==> quantity(after_add(s, item, amount), other) == quantity(s, other),
{
    if amount > 0 {
        let t = after_add(s, item, amount);
        if has_entry(s, item@) {
            let i = entry_index(s, item@);
            lemma_index_unique(s, item@, i);
            assert(entries_wf(t)) by {
                assert forall|a: int, b: int|
                    0 <= a < t.len() && 0 <= b < t.len() && a != b implies (#[trigger] t[a]).0@
                    != (#[trigger] t[b]).0@ by {
                    assert(s[a].0@ != s[b].0@);
                }
            }
            lemma_index_unique(t, item@, i);
            if other != item@ && has_entry(s, other) {
                let k = entry_index(s, other);
                lemma_index_unique(s, other, k);
                lemma_index_unique(t, other, k);
            }
            if other != item@ && has_entry(t, other) {
                let k = entry_index(t, other);
                assert(s[k].0@ == other);
            }
        } else {
            lemma_absent_after_push(s, item, amount);
            lemma_index_unique(t, item@, s.len() as int);
            if other != item@ && has_entry(s, other) {
                let k = entry_index(s, other);
                lemma_index_unique(s, other, k);
                lemma_index_unique(t, other, k);
            }
            if other != item@ && has_entry(t, other) {
                let k = entry_index(t, other);
                assert(s[k].0@ == other);
            }
        }
    }
}

/// The inventory ledger: each item name at most once, no zero quantities,
/// entries in the order they were first added.
pub struct Inventory {
    pub entries: Vec<(String, u32)>,
}

impl Inventory {
    pub open spec fn wf(&self) -> bool {
        entries_wf(self.entries@)
    }

    /// An empty ledger.
    pub fn new() -> (r: Inventory)
        ensures
            r.wf(),
            r.entries@ == Seq::<(String, u32)>::empty(),
    {
        Inventory { entries: Vec::new() }
    }

    /// The entries, in display order.
    pub fn snapshot(&self) -> (r: &Vec<(String, u32)>)
        ensures
            r@ == self.entries@,
    {
        &self.entries
    }

    /// The position of the entry of that name, if any.
    fn find(&self, name: &String) -> (r: Option<usize>)
        requires
            self.wf(),
        ensures
            r is Some <==> has_entry(self.entries@, name@),
            r matches Some(i) ==> i == entry_index(self.entries@, name@) && i
                < self.entries@.len(),
    {
        let mut i: usize = 0;
        while i < self.entries.len()
            invariant
                i <= self.entries@.len(),
                self.wf(),
                forall|j: int| 0 <= j < i ==> (#[trigger] self.entries@[j]).0@ != name@,
            decreases self.entries@.len() - i,
        {
            if self.entries[i].0.eq(name) {
                proof {
                    lemma_index_unique(self.entries@, name@, i as int);
                }
                return Some(i);
            }
            i += 1;
        }
        None
    }

    /// How many units of the item the ledger holds; zero when it has no entry.
    pub fn quantity_of(&self, name: &String) -> (r: u32)
        requires
            self.wf(),
        ensures
            r == quantity(self.entries@, name@),
    {
        match self.find(name) {
            Some(i) => self.entries[i].1,
            None => 0,
        }
    }

    /// Adds `amount` units of `item`: an existing entry grows in place, else a new
    /// entry is appended. Fails with `Overflow`, and changes nothing, where the
    /// quantity would leave the range of `u32`.
    pub fn add(&mut self, item: String, amount: u32) -> (r: Result<(), GameError>)
        requires
            old(self).wf(),
        ensures
            final(self).wf(),
            r == (if add_overflows(old(self).entries@, item@, amount) {
                Err(GameError::Overflow)
            } else {
                Ok(())
            }),
            r is Err ==> final(self).entries@ == old(self).entries@,
            r is Ok ==> final(self).entries@ == after_add(old(self).entries@, item, amount),
    {
        let ghost s = self.entries@;
        match self.find(&item) {
            Some(i) => {
                let q = self.entries[i].1;
                proof {
                    lemma_index_unique(s, item@, i as int);
                }
                if q > u32::MAX - amount {
                    return Err(GameError::Overflow);
                }
                if amount == 0 {
                    return Ok(());
                }
                let stored = self.entries[i].0.clone();
                self.entries[i] = (stored, q + amount);
                proof {
                    let t = self.entries@;
                    assert(t =~= after_add(s, item, amount));
                    assert forall|a: int, b: int|
                        0 <= a < t.len() && 0 <= b < t.len() && a != b implies (#[trigger] t[
                        a]).0@ != (#[trigger] t[b]).0@ by {
                        assert(s[a].0@ != s[b].0@);
                    }
                    assert forall|a: int| 0 <= a < t.len() implies (#[trigger] t[a]).1 > 0 by {
                        assert(a != i ==> t[a] == s[a]);
                    }
                }
                Ok(())
            },
            None => {
                if amount == 0 {
                    return Ok(());
                }
                proof {
                    lemma_absent_after_push(s, item, amount);
                }
                self.entries.push((item, amount));
                Ok(())
            },
        }
    }

    /// Removes `amount` units of the item; an entry that reaches zero leaves the
    /// ledger. Fails with `InsufficientQuantity`, and changes nothing, where the
    /// item has no entry or fewer units than `amount`.
    pub fn remove(&mut self, item: &String, amount: u32) -> (r: Result<(), GameError>)
        requires
            old(self).wf(),
        ensures
            final(self).wf(),
            r == (if remove_fails(old(self).entries@, item@, amount) {
                Err(GameError::InsufficientQuantity)
            } else {
                Ok(())
            }),
            r is Err ==> final(self).entries@ == old(self).entries@,
            r is Ok ==> final(self).entries@ == after_remove(old(self).entries@, item@, amount),
    {
        let ghost s = self.entries@;
        match self.find(item) {
            Some(i) => {
                let q = self.entries[i].1;
                proof {
                    lemma_index_unique(s, item@, i as int);
                }
                if q < amount {
                    return Err(GameError::InsufficientQuantity);
                }
                if q == amount {
                    self.entries.remove(i);
                    proof {
                        let t = self.entries@;
                        assert forall|a: int, b: int|
                            0 <= a < t.len() && 0 <= b < t.len() && a != b implies (
                            #[trigger] t[a]).0@ != (#[trigger] t[b]).0@ by {
                            let a2 = if a < i { a } else { a + 1 };
                            let b2 = if b < i { b } else { b + 1 };
                            assert(t[a] == s[a2] && t[b] == s[b2]);
                        }
                        assert forall|a: int| 0 <= a < t.len() implies (#[trigger] t[a]).1 > 0 by {
                            let a2 = if a < i { a } else { a + 1 };
                            assert(t[a] == s[a2]);
                        }
                    }
                } else {
                    let stored = self.entries[i].0.clone();
                    self.entries[i] = (stored, q - amount);
                    proof {
                        let t = self.entries@;
                        assert(t =~= after_remove(s, item@, amount));
                        assert forall|a: int, b: int|
                            0 <= a < t.len() && 0 <= b < t.len() && a != b implies (
                            #[trigger] t[a]).0@ != (#[trigger] t[b]).0@ by {
                            assert(s[a].0@ != s[b].0@);
                        }
                        assert forall|a: int| 0 <= a < t.len() implies (#[trigger] t[a]).1 > 0 by {
                            assert(a != i ==> t[a] == s[a]);
                        }
                    }
                }
                Ok(())
            },
            None => Err(GameError::InsufficientQuantity),
        }
    }
}

} // verus!
