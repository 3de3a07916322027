//! The inventory: how many of each item the player holds.
use vstd::prelude::*;

verus! {

/// A `hashbrown::HashMap` from item ids to quantities.
#[verifier::external_body]
#[derive(Debug)]
pub struct Counts {
    map: hashbrown::HashMap<String, u16>,
}

/// The entries of the map: each item id that it holds, as its characters,
/// with the quantity stored under it.
pub uninterp spec fn counts_of(t: Counts) -> Map<Seq<char>, u16>;

/// `hashbrown::HashMap::new`: a map without entries.
#[verifier::external_body]
fn counts_new() -> (table: Counts)
    ensures
        counts_of(table) =~= Map::empty(),
{
    Counts { map: hashbrown::HashMap::new() }
}

/// `hashbrown::HashMap::insert`: afterwards the map holds `q` under `id`,
/// in place of what it held there, and every other entry as before.
#[verifier::external_body]
fn counts_insert(t: &mut Counts, id: String, q: u16)
    ensures
        counts_of(*final(t)) == counts_of(*old(t)).insert(id@, q),
{
    t.map.insert(id, q);
}

/// `hashbrown::HashMap::get`: the quantity stored under `id`, or `None`
/// where the map holds nothing under it.
#[verifier::external_body]
fn counts_get(t: &Counts, id: &str) -> (r: Option<u16>)
    ensures
        match r {
            Some(q) => counts_of(*t).contains_key(id@) && counts_of(*t)[id@] == q,
            None => !counts_of(*t).contains_key(id@),
        },
{
    t.map.get(id).copied()
}

/// `Clone::clone` of `hashbrown::HashMap`: a map with the same entries.
#[verifier::external_body]
fn counts_clone(t: &Counts) -> (table: Counts)
    ensures
        counts_of(table) == counts_of(*t),
{
    Counts { map: t.map.clone() }
}

/// The quantity that the inventory `m` gives for `id`: the one stored, or
/// 0 where none is.
pub open spec fn quantity(m: Map<Seq<char>, u16>, id: Seq<char>) -> u16 {
    if m.contains_key(id) {
        m[id]
    } else {
        0
    }
}

/// One more than `q`, but never more than the largest quantity.
pub open spec fn one_more(q: u16) -> u16 {
    if q == u16::MAX {
        q
    } else {
        (q + 1) as u16
    }
}

/// One less than `q`, but never less than 0.
pub open spec fn one_less(q: u16) -> u16 {
    if q == 0 {
        q
    } else {
        (q - 1) as u16
    }
}

/// The inventory `m` after `times` items `id` were put into it.
pub open spec fn put_many(m: Map<Seq<char>, u16>, id: Seq<char>, times: nat) -> Map<
    Seq<char>,
    u16,
>
    decreases times,
{
    if times == 0 {
        m
    } else {
        let before = put_many(m, id, (times - 1) as nat);
        before.insert(id, one_more(quantity(before, id)))
    }
}

/// The inventory `m` after `times` items `id` were taken out of it.
pub open spec fn pop_many(m: Map<Seq<char>, u16>, id: Seq<char>, times: nat) -> Map<
    Seq<char>,
    u16,
>
    decreases times,
{
    if times == 0 {
        m
    } else {
        let before = pop_many(m, id, (times - 1) as nat);
        before.insert(id, one_less(quantity(before, id)))
    }
}

/// The quantities of the items that the player holds. An item that was
/// never put in has the quantity 0. A quantity neither falls below 0 nor
/// rises above `u16::MAX`: at either end it stays where it is.
#[derive(Debug)]
pub struct Inventory {
    items: Counts,
}

impl View for Inventory {
    type V = Map<Seq<char>, u16>;

    closed spec fn view(&self) -> Map<Seq<char>, u16> {
        counts_of(self.items)
    }
}

impl Default for Inventory {
    fn default() -> (inv: Inventory)
        ensures
            inv@ =~= Map::empty(),
    {
        Inventory::new()
    }
}

impl Clone for Inventory {
    fn clone(&self) -> (inv: Inventory)
        ensures
            inv@ == self@,
    {
        Inventory { items: counts_clone(&self.items) }
    }
}

impl Inventory {
    /// An inventory without items.
    pub fn new() -> (inv: Inventory)
        ensures
            inv@ =~= Map::empty(),
    {
        Inventory { items: counts_new() }
    }

    /// Puts one more item `id` into the inventory and returns how many
    /// there are now. At `u16::MAX` the quantity stays.
    pub fn put(&mut self, id: String) -> (q: u16)
        ensures
            q == one_more(quantity(old(self)@, id@)),
            final(self)@ == old(self)@.insert(id@, q),
    {
        let before = self.get(&id);
        let q = if before == u16::MAX {
            before
        } else {
            before + 1
        };
        counts_insert(&mut self.items, id, q);
        q
    }

    /// Takes one item `id` out of the inventory and returns how many are
    /// left. At 0 the quantity stays.
    pub fn pop(&mut self, id: String) -> (q: u16)
        ensures
            q == one_less(quantity(old(self)@, id@)),
            final(self)@ == old(self)@.insert(id@, q),
    {
        let before = self.get(&id);
        let q = if before == 0 {
            before
        } else {
            before - 1
        };
        counts_insert(&mut self.items, id, q);
        q
    }

    /// How many items `id` the inventory holds.
    pub fn get(&self, id: &String) -> (q: u16)
        ensures
            q == quantity(self@, id@),
    {
        match counts_get(&self.items, id.as_str()) {
            Some(q) => q,
            None => 0,
        }
    }
}

/// After any number of `put`s of one item its quantity is the quantity
/// before plus that number, cut off at `u16::MAX`; every other item keeps
/// its quantity.
pub proof fn lemma_put_saturates(m: Map<Seq<char>, u16>, id: Seq<char>, times: nat)
    ensures
        quantity(put_many(m, id, times), id) == if quantity(m, id) + times > u16::MAX {
            u16::MAX as int
        } else {
            quantity(m, id) + times
        },
        forall|other: Seq<char>|
            other != id ==> quantity(put_many(m, id, times), other) == quantity(m, other),
    decreases times,
{
    if times > 0 {
        lemma_put_saturates(m, id, (times - 1) as nat);
    }
}

/// After any number of `pop`s of one item its quantity is the quantity
/// before minus that number, cut off at 0: taking from an item of which
/// there is none leaves it at 0. Every other item keeps its quantity.
pub proof fn lemma_pop_saturates(m: Map<Seq<char>, u16>, id: Seq<char>, times: nat)
    ensures
        quantity(pop_many(m, id, times), id) == if quantity(m, id) - times < 0 {
            0
        } else {
            quantity(m, id) - times
        },
        forall|other: Seq<char>|
            other != id ==> quantity(pop_many(m, id, times), other) == quantity(m, other),
    decreases times,
{
    if times > 0 {
        lemma_pop_saturates(m, id, (times - 1) as nat);
    }
}

} // verus!
