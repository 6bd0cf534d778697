//! A small demonstration front end for the formatting utilities: it renders
//! numbers through [`crate::strings`] and keeps a keyed store of values that
//! read as zero until stored.

use vstd::prelude::*;

verus! {

use crate::strings::{
    spec_decimal, spec_hex, spec_hex_fixed, to_hex_string, to_hex_string_fixed, to_string,
};

/// The value stored under `key`, or zero if none was ever stored.
pub open spec fn stored_value(entries: Seq<(u128, u128)>, key: u128) -> u128
    decreases entries.len(),
{
    if entries.len() == 0 {
        0
    } else if entries.last().0 == key {
        entries.last().1
    } else {
        stored_value(entries.drop_last(), key)
    }
}

/// Whether some value is stored under `key`.
pub open spec fn has_key(entries: Seq<(u128, u128)>, key: u128) -> bool {
    exists|i: int| 0 <= i < entries.len() && entries[i].0 == key
}

/// The demonstration store. Keys are pairwise distinct.
pub struct StringsDemo {
    demo_value: Vec<(u128, u128)>,
}

impl View for StringsDemo {
    type V = Seq<(u128, u128)>;

    closed spec fn view(&self) -> Seq<(u128, u128)> {
        self.demo_value@
    }
}

/// Updating the entry at the position that holds `key` rewrites what `key`
/// reads as and leaves every other key's reading unchanged.
proof fn lemma_stored_value_update(entries: Seq<(u128, u128)>, i: int, key: u128, value: u128)
    requires
        0 <= i < entries.len(),
        entries[i].0 == key,
        forall|p: int, q: int|
            0 <= p < q < entries.len() ==> (#[trigger] entries[p]).0 != (#[trigger] entries[q]).0,
    ensures
        forall|k: u128|
            #[trigger] stored_value(entries.update(i, (key, value)), k) == if k == key {
                value
            } else {
                stored_value(entries, k)
            },
    decreases entries.len(),
{
    let updated = entries.update(i, (key, value));
    if i == entries.len() - 1 {
        assert(updated.drop_last() =~= entries.drop_last());
        assert forall|k: u128|
            #[trigger] stored_value(updated, k) == if k == key {
                value
            } else {
                stored_value(entries, k)
            } by {
            if k != key {
                assert(stored_value(updated, k) == stored_value(updated.drop_last(), k));
                assert(stored_value(entries, k) == stored_value(entries.drop_last(), k));
            }
        }
    } else {
        assert(updated.last() == entries.last());
        assert(updated.drop_last() =~= entries.drop_last().update(i, (key, value)));
        assert forall|p: int, q: int| 0 <= p < q < entries.drop_last().len() implies (
        #[trigger] entries.drop_last()[p]).0 != (#[trigger] entries.drop_last()[q]).0 by {
            assert(entries.drop_last()[p] == entries[p] && entries.drop_last()[q] == entries[q]);
        }
        assert(entries.drop_last()[i] == entries[i]);
        lemma_stored_value_update(entries.drop_last(), i, key, value);
        assert(entries.last().0 != key);
        assert forall|k: u128|
            #[trigger] stored_value(updated, k) == if k == key {
                value
            } else {
                stored_value(entries, k)
            } by {
            if k != updated.last().0 {
                assert(stored_value(updated, k) == stored_value(updated.drop_last(), k));
                assert(stored_value(entries, k) == stored_value(entries.drop_last(), k));
                assert(stored_value(updated.drop_last(), k) == stored_value(
                    entries.drop_last().update(i, (key, value)),
                    k,
                ));
            }
        }
    }
}

impl StringsDemo {
    /// An empty store.
    pub fn new() -> (r: StringsDemo)
        ensures
            r@ =~= Seq::<(u128, u128)>::empty(),
            r.inv(),
    {
        StringsDemo { demo_value: Vec::new() }
    }

    /// Well-formedness: keys are pairwise distinct.
    pub open spec fn inv(&self) -> bool {
        forall|p: int, q: int|
            0 <= p < q < self@.len() ==> (#[trigger] self@[p]).0 != (#[trigger] self@[q]).0
    }

    /// Render `value` in decimal.
    pub fn to_decimal_string(&self, value: u128) -> (r: String)
        ensures
            r@ == spec_decimal(value as int),
    {
        to_string(value)
    }

    /// Render `value` in hexadecimal with a `0x` prefix.
    pub fn to_hex_string(&self, value: u128) -> (r: String)
        ensures
            r@ == seq!['0', 'x'] + spec_hex(value as int),
    {
        to_hex_string(value)
    }

    /// Render `value` in hexadecimal, zero-padded to at least `length`
    /// digits. The width must fit the machine's size type.
    pub fn to_hex_string_fixed(&self, value: u128, length: u128) -> (r: String)
        requires
            length <= usize::MAX,
        ensures
            r@ == spec_hex_fixed(value as int, length as int),
    {
        to_hex_string_fixed(value, length as usize)
    }

    /// Store `value` under `key`, replacing any earlier value; reports
    /// success (it always succeeds).
    pub fn store_value(&mut self, key: u128, value: u128) -> (r: bool)
        requires
            old(self).inv(),
        ensures
            final(self).inv(),
            r,
            forall|k: u128|
                #[trigger] stored_value(final(self)@, k) == if k == key {
                    value
                } else {
                    stored_value(old(self)@, k)
                },
    {
        let n = self.demo_value.len();
        let mut i: usize = 0;
        while i < n
            invariant
                i <= n,
                n == self.demo_value@.len(),
                self@ == self.demo_value@,
                old(self)@ == self@,
                old(self).inv(),
                forall|j: int| 0 <= j < i ==> (#[trigger] self@[j]).0 != key,
            decreases n - i,
        {
            if self.demo_value[i].0 == key {
                self.demo_value[i].1 = value;
                proof {
                    assert(self@ =~= old(self)@.update(i as int, (key, value)));
                    lemma_stored_value_update(old(self)@, i as int, key, value);
                }
                return true;
            }
            i += 1;
        }
        self.demo_value.push((key, value));
        proof {
            assert(self@.drop_last() =~= old(self)@);
            assert forall|k: u128|
                #[trigger] stored_value(self@, k) == if k == key {
                    value
                } else {
                    stored_value(old(self)@, k)
                } by {
                if k != key {
                    assert(stored_value(self@, k) == stored_value(self@.drop_last(), k));
                }
            }
        }
        true
    }

    /// The value stored under `key`; zero if none was ever stored.
    pub fn get_value(&self, key: u128) -> (r: u128)
        requires
            self.inv(),
        ensures
            r == stored_value(self@, key),
    {
        let n = self.demo_value.len();
        let mut i: usize = 0;
        while i < n
            invariant
                i <= n,
                n == self.demo_value@.len(),
                self@ == self.demo_value@,
                self.inv(),
                forall|j: int| 0 <= j < i ==> (#[trigger] self@[j]).0 != key,
            decreases n - i,
        {
            if self.demo_value[i].0 == key {
                proof {
                    lemma_stored_value_at_index(self@, i as int, key);
                }
                return self.demo_value[i].1;
            }
            i += 1;
        }
        proof {
            lemma_stored_value_absent(self@, key);
        }
        0
    }

    /// The decimal rendering of the value stored under `key`.
    pub fn get_value_as_string(&self, key: u128) -> (r: String)
        requires
            self.inv(),
        ensures
            r@ == spec_decimal(stored_value(self@, key) as int),
    {
        let value = self.get_value(key);
        to_string(value)
    }
}

/// A key with no entry reads as zero.
proof fn lemma_stored_value_absent(entries: Seq<(u128, u128)>, key: u128)
    requires
        !has_key(entries, key),
    ensures
        stored_value(entries, key) == 0,
    decreases entries.len(),
{
    if entries.len() > 0 {
        assert(forall|i: int|
            0 <= i < entries.drop_last().len() ==> entries.drop_last()[i] == entries[i]);
        lemma_stored_value_absent(entries.drop_last(), key);
    }
}

/// Under distinct keys, the value read for `key` is exactly the one stored
/// at the position that holds `key`.
proof fn lemma_stored_value_at_index(entries: Seq<(u128, u128)>, i: int, key: u128)
    requires
        0 <= i < entries.len(),
        entries[i].0 == key,
        forall|p: int, q: int|
            0 <= p < q < entries.len() ==> (#[trigger] entries[p]).0 != (#[trigger] entries[q]).0,
    ensures
        stored_value(entries, key) == entries[i].1,
    decreases entries.len(),
{
    if i < entries.len() - 1 {
        assert(entries.last().0 != key);
        assert(forall|j: int|
            0 <= j < entries.drop_last().len() ==> entries.drop_last()[j] == entries[j]);
        lemma_stored_value_at_index(entries.drop_last(), i, key);
    }
}

} // verus!
