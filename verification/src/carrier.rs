//! The session carrier: the key-value slots that travel with one client
//! between requests. The core reads and writes them; how they are kept on
//! the wire is the business of whoever hands the carrier in.

use vstd::prelude::*;

verus! {

/// One slot of a carrier.
struct Slot {
    key: String,
    value: String,
}

/// The value of the first slot of `slots` with the key `key`, if any.
spec fn lookup(slots: Seq<Slot>, key: Seq<char>) -> Option<Seq<char>>
    decreases slots.len(),
{
    if slots.len() == 0 {
        None
    } else if slots[0].key@ == key {
        Some(slots[0].value@)
    } else {
        lookup(slots.drop_first(), key)
    }
}

/// No slot before `upto` has the key `key`.
spec fn absent_before(slots: Seq<Slot>, key: Seq<char>, upto: int) -> bool {
    forall|j: int| 0 <= j < upto ==> (#[trigger] slots[j]).key@ != key
}

/// Where the first slot with the key stands, `lookup` finds its value.
proof fn lemma_lookup_found(slots: Seq<Slot>, key: Seq<char>, at: int)
    requires
        0 <= at < slots.len(),
        absent_before(slots, key, at),
        slots[at].key@ == key,
    ensures
        lookup(slots, key) == Some(slots[at].value@),
    decreases at,
{
    if at > 0 {
        assert(slots[0].key@ != key);
        let rest = slots.drop_first();
        assert forall|j: int| 0 <= j < at - 1 implies (#[trigger] rest[j]).key@ != key by {
            assert(rest[j] == slots[j + 1]);
        }
        lemma_lookup_found(rest, key, at - 1);
    }
}

/// Where no slot has the key, `lookup` finds nothing.
proof fn lemma_lookup_absent(slots: Seq<Slot>, key: Seq<char>)
    requires
        absent_before(slots, key, slots.len() as int),
    ensures
        lookup(slots, key) is None,
    decreases slots.len(),
{
    if slots.len() > 0 {
        assert(slots[0].key@ != key);
        let rest = slots.drop_first();
        assert forall|j: int| 0 <= j < rest.len() implies (#[trigger] rest[j]).key@ != key by {
            assert(rest[j] == slots[j + 1]);
        }
        lemma_lookup_absent(rest, key);
    }
}

/// Replacing the value of a slot changes `lookup` for no other key.
proof fn lemma_lookup_after_update(slots: Seq<Slot>, at: int, slot: Slot, other: Seq<char>)
    requires
        0 <= at < slots.len(),
        slot.key@ == slots[at].key@,
        other != slot.key@,
    ensures
        lookup(slots.update(at, slot), other) == lookup(slots, other),
    decreases slots.len(),
{
    let updated = slots.update(at, slot);
    if at == 0 {
        assert(updated.drop_first() =~= slots.drop_first());
    } else {
        assert(updated[0] == slots[0]);
        assert(updated.drop_first() =~= slots.drop_first().update(at - 1, slot));
        if slots[0].key@ != other {
            lemma_lookup_after_update(slots.drop_first(), at - 1, slot, other);
        }
    }
}

/// Adding a slot at the end changes `lookup` for no key that is found
/// already, nor for any key but that of the new slot.
proof fn lemma_lookup_after_push(slots: Seq<Slot>, slot: Slot, other: Seq<char>)
    ensures
        lookup(slots, other) is Some ==> lookup(slots.push(slot), other) == lookup(slots, other),
        lookup(slots, other) is None ==> lookup(slots.push(slot), other) == if slot.key@
            == other {
            Some(slot.value@)
        } else {
            None
        },
    decreases slots.len(),
{
    let pushed = slots.push(slot);
    if slots.len() == 0 {
        assert(pushed[0] == slot);
        assert(pushed.drop_first() =~= Seq::<Slot>::empty());
        assert(lookup(pushed.drop_first(), other) is None);
    } else {
        assert(pushed[0] == slots[0]);
        assert(pushed.drop_first() =~= slots.drop_first().push(slot));
        if slots[0].key@ != other {
            lemma_lookup_after_push(slots.drop_first(), slot, other);
        }
    }
}

/// The slots of one client, each found by its key.
pub struct SessionCarrier {
    slots: Vec<Slot>,
}

impl View for SessionCarrier {
    type V = Map<Seq<char>, Seq<char>>;

    /// The values that the carrier holds, by key.
    closed spec fn view(&self) -> Map<Seq<char>, Seq<char>> {
        Map::new(
            |key: Seq<char>| lookup(self.slots@, key) is Some,
            |key: Seq<char>| lookup(self.slots@, key)->0,
        )
    }
}

impl SessionCarrier {
    /// A carrier with no slot filled.
    pub fn new() -> (carrier: SessionCarrier)
        ensures
            carrier@ == Map::<Seq<char>, Seq<char>>::empty(),
    {
        let carrier = SessionCarrier { slots: Vec::new() };
        assert(carrier@ =~= Map::<Seq<char>, Seq<char>>::empty());
        carrier
    }

    /// The place of the first slot with the key `key`, or the number of
    /// slots where there is none.
    fn position(&self, key: &String) -> (at: usize)
        ensures
            at <= self.slots@.len(),
            absent_before(self.slots@, key@, at as int),
            at < self.slots@.len() ==> self.slots@[at as int].key@ == key@,
    {
        let mut at: usize = 0;
        while at < self.slots.len() && self.slots[at].key != *key
            invariant
                at <= self.slots@.len(),
                absent_before(self.slots@, key@, at as int),
            decreases self.slots@.len() - at,
        {
            at = at + 1;
        }
        at
    }

    /// The value in the slot `key`, if the slot is filled.
    pub fn get(&self, key: &str) -> (value: Option<String>)
        ensures
            match value {
                Some(v) => self@.contains_key(key@) && self@[key@] == v@,
                None => !self@.contains_key(key@),
            },
    {
        let key = key.to_owned();
        let at = self.position(&key);
        if at < self.slots.len() {
            proof {
                lemma_lookup_found(self.slots@, key@, at as int);
            }
            Some(self.slots[at].value.clone())
        } else {
            proof {
                lemma_lookup_absent(self.slots@, key@);
            }
            None
        }
    }

    /// Fills the slot `key` with `value`, in place of what it held.
    pub fn set(&mut self, key: &str, value: String)
        ensures
            final(self)@ == old(self)@.insert(key@, value@),
    {
        let key = key.to_owned();
        let at = self.position(&key);
        let ghost before = self.slots@;
        let ghost slot = Slot { key, value };
        if at < self.slots.len() {
            self.slots.set(at, Slot { key, value });
            proof {
                lemma_lookup_found(self.slots@, key@, at as int);
                assert forall|other: Seq<char>| other != key@ implies lookup(self.slots@, other)
                    == lookup(before, other) by {
                    lemma_lookup_after_update(before, at as int, slot, other);
                }
            }
        } else {
            self.slots.push(Slot { key, value });
            proof {
                lemma_lookup_absent(before, key@);
                assert forall|other: Seq<char>|
                    lookup(self.slots@, other) == if other == key@ {
                        Some(value@)
                    } else {
                        lookup(before, other)
                    } by {
                    lemma_lookup_after_push(before, slot, other);
                }
            }
        }
        assert(self@ =~= old(self)@.insert(key@, value@));
    }
}

} // verus!
