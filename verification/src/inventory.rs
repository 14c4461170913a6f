//! Item counts, the equipped tool, recipe gating and the store.
//!
//! The inventory tracks a coin balance and a count per item kind, plus the
//! single currently equipped tool or seed. Recipes are a fixed data table
//! mapping each house part to its resource cost; `recipe_satisfied` gates
//! both the build UI affordance and the actual placement, and the debit on
//! placement is atomic (nothing is consumed unless every requirement is
//! met).

use vstd::prelude::*;

verus! {

/// Price of one unit of beans at the store.
pub const BEANS_PRICE: i64 = 20;

/// Price of one bag of potato seeds at the store.
pub const POTATO_SEEDS_PRICE: i64 = 10;

/// Coins a fresh inventory starts with.
pub const STARTING_COINS: i64 = 100;

/// A kind of item that can be held in the inventory.
#[derive(Clone, Copy, PartialEq, Eq, Structural, Hash, Debug)]
pub enum InventoryObject {
    Axe,
    Pickaxe,
    Hoe,
    Wood,
    Rocks,
    Beans,
    PotatoSeeds,
}

/// A buildable part of the house; each part has its own recipe.
#[derive(Clone, Copy, PartialEq, Eq, Structural, Hash, Debug)]
pub enum House {
    Corner1,
    Corner2,
    Corner3,
    Corner4,
    Wall1,
    Wall2,
    Wall3,
    Door,
}

/// The resource cost of a house part: a list of `(item, quantity)`
/// requirements. Every part costs one wood and one rock, except the door,
/// which costs one wood.
pub open spec fn spec_recipe(part: House) -> Seq<(InventoryObject, int)> {
    match part {
        House::Door => seq![(InventoryObject::Wood, 1int)],
        _ => seq![(InventoryObject::Wood, 1int), (InventoryObject::Rocks, 1int)],
    }
}

/// Total quantity of item `o` demanded by the requirement list `s`.
pub open spec fn qty_in(s: Seq<(InventoryObject, int)>, o: InventoryObject) -> int
    decreases s.len(),
{
    if s.len() == 0 {
        0
    } else {
        qty_in(s.drop_last(), o) + if s.last().0 == o {
            s.last().1
        } else {
            0
        }
    }
}

/// The store price of item `o`, if the store sells it.
pub open spec fn spec_price(o: InventoryObject) -> Option<int> {
    match o {
        InventoryObject::Beans => Some(BEANS_PRICE as int),
        InventoryObject::PotatoSeeds => Some(POTATO_SEEDS_PRICE as int),
        _ => None,
    }
}

/// In every recipe the required items are pairwise distinct and the
/// quantities non-negative.
proof fn lemma_recipe_table(part: House)
    ensures
        forall|i: int, j: int|
            0 <= i < j < spec_recipe(part).len() ==> (#[trigger] spec_recipe(part)[i]).0 != (
            #[trigger] spec_recipe(part)[j]).0,
        forall|i: int| 0 <= i < spec_recipe(part).len() ==> (#[trigger] spec_recipe(part)[i]).1 >= 0,
{
}

/// A requirement list that never mentions `o` demands none of it.
proof fn lemma_qty_in_absent(s: Seq<(InventoryObject, int)>, o: InventoryObject)
    requires
        forall|j: int| 0 <= j < s.len() ==> (#[trigger] s[j]).0 != o,
    ensures
        qty_in(s, o) == 0,
    decreases s.len(),
{
    if s.len() > 0 {
        lemma_qty_in_absent(s.drop_last(), o);
    }
}

/// Extending a prefix of a requirement list by one entry adds that entry's
/// quantity when it names `o`.
proof fn lemma_qty_in_take_step(s: Seq<(InventoryObject, int)>, i: int, o: InventoryObject)
    requires
        0 <= i < s.len(),
    ensures
        qty_in(s.take(i + 1), o) == qty_in(s.take(i), o) + if s[i].0 == o {
            s[i].1
        } else {
            0int
        },
{
    assert(s.take(i + 1).drop_last() =~= s.take(i));
    assert(s.take(i + 1).last() == s[i]);
}

/// If the items of `s` are distinct, the quantities non-negative, and a
/// count `c` covers every requirement of `s` that names `o`, then `c`
/// covers the total demand of `s` for `o`.
proof fn lemma_qty_in_covered(s: Seq<(InventoryObject, int)>, o: InventoryObject, c: int)
    requires
        forall|i: int, j: int| 0 <= i < j < s.len() ==> (#[trigger] s[i]).0 != (#[trigger] s[j]).0,
        forall|i: int| 0 <= i < s.len() ==> (#[trigger] s[i]).1 >= 0,
        c >= 0,
        forall|i: int| 0 <= i < s.len() && (#[trigger] s[i]).0 == o ==> c >= s[i].1,
    ensures
        c - qty_in(s, o) >= 0,
    decreases s.len(),
{
    if s.len() > 0 {
        if s.last().0 == o {
            lemma_qty_in_absent(s.drop_last(), o);
        } else {
            lemma_qty_in_covered(s.drop_last(), o, c);
        }
    }
}

/// Tracks coins, per-item counts and the single equipped tool or seed.
pub struct Inventory {
    coins: i64,
    equipped: Option<InventoryObject>,
    axe: i64,
    pickaxe: i64,
    hoe: i64,
    wood: i64,
    rocks: i64,
    beans: i64,
    potato_seeds: i64,
}

impl Inventory {
    /// The coin balance.
    pub closed spec fn spec_coins(self) -> int {
        self.coins as int
    }

    /// The equipped tool or seed, if any (at most one item is ever
    /// equipped, by construction).
    pub closed spec fn spec_equipped(self) -> Option<InventoryObject> {
        self.equipped
    }

    /// How many units of item `o` the inventory holds.
    pub closed spec fn spec_count(self, o: InventoryObject) -> int {
        match o {
            InventoryObject::Axe => self.axe as int,
            InventoryObject::Pickaxe => self.pickaxe as int,
            InventoryObject::Hoe => self.hoe as int,
            InventoryObject::Wood => self.wood as int,
            InventoryObject::Rocks => self.rocks as int,
            InventoryObject::Beans => self.beans as int,
            InventoryObject::PotatoSeeds => self.potato_seeds as int,
        }
    }

    /// All counts and the coin balance are non-negative.
    pub open spec fn wf(self) -> bool {
        &&& self.spec_coins() >= 0
        &&& self.spec_count(InventoryObject::Axe) >= 0
        &&& self.spec_count(InventoryObject::Pickaxe) >= 0
        &&& self.spec_count(InventoryObject::Hoe) >= 0
        &&& self.spec_count(InventoryObject::Wood) >= 0
        &&& self.spec_count(InventoryObject::Rocks) >= 0
        &&& self.spec_count(InventoryObject::Beans) >= 0
        &&& self.spec_count(InventoryObject::PotatoSeeds) >= 0
    }

    /// Every requirement of the recipe for `part` is covered by the
    /// current counts.
    pub open spec fn spec_recipe_satisfied(self, part: House) -> bool {
        forall|i: int|
            0 <= i < spec_recipe(part).len() ==> self.spec_count(
                #[trigger] spec_recipe(part)[i].0,
            ) >= spec_recipe(part)[i].1
    }

    /// The starting inventory: 100 coins, one of each tool, no materials
    /// or seeds, nothing equipped.
    pub fn new() -> (inv: Inventory)
        ensures
            inv.spec_coins() == STARTING_COINS,
            inv.spec_equipped() is None,
            inv.spec_count(InventoryObject::Axe) == 1,
            inv.spec_count(InventoryObject::Pickaxe) == 1,
            inv.spec_count(InventoryObject::Hoe) == 1,
            inv.spec_count(InventoryObject::Wood) == 0,
            inv.spec_count(InventoryObject::Rocks) == 0,
            inv.spec_count(InventoryObject::Beans) == 0,
            inv.spec_count(InventoryObject::PotatoSeeds) == 0,
            inv.wf(),
    {
        Inventory {
            coins: STARTING_COINS,
            equipped: None,
            axe: 1,
            pickaxe: 1,
            hoe: 1,
            wood: 0,
            rocks: 0,
            beans: 0,
            potato_seeds: 0,
        }
    }

    /// The current count of item `o`.
    pub fn count(&self, o: InventoryObject) -> (r: i64)
        ensures
            r == self.spec_count(o),
    {
        match o {
            InventoryObject::Axe => self.axe,
            InventoryObject::Pickaxe => self.pickaxe,
            InventoryObject::Hoe => self.hoe,
            InventoryObject::Wood => self.wood,
            InventoryObject::Rocks => self.rocks,
            InventoryObject::Beans => self.beans,
            InventoryObject::PotatoSeeds => self.potato_seeds,
        }
    }

    /// The current coin balance.
    pub fn coins(&self) -> (r: i64)
        ensures
            r == self.spec_coins(),
    {
        self.coins
    }

    /// The equipped item, if any.
    pub fn equipped(&self) -> (r: Option<InventoryObject>)
        ensures
            r == self.spec_equipped(),
    {
        self.equipped
    }

    /// True iff item `o` is the equipped one.
    pub fn is_equipped(&self, o: InventoryObject) -> (r: bool)
        ensures
            r == (self.spec_equipped() == Some(o)),
    {
        match self.equipped {
            Some(e) => e == o,
            None => false,
        }
    }

    /// Some tool or seed is equipped.
    pub fn using_object(&self) -> (r: bool)
        ensures
            r == (self.spec_equipped() is Some),
    {
        self.equipped.is_some()
    }

    /// Equip item `o`, replacing whatever was equipped before; counts and
    /// coins are untouched.
    pub fn equip(&mut self, o: InventoryObject)
        ensures
            final(self).spec_equipped() == Some(o),
            forall|q: InventoryObject| final(self).spec_count(q) == old(self).spec_count(q),
            final(self).spec_coins() == old(self).spec_coins(),
            old(self).wf() ==> final(self).wf(),
    {
        self.equipped = Some(o);
    }

    /// Add one unit of item `o` (a pickup folded into the counts).
    pub fn add_item(&mut self, o: InventoryObject)
        requires
            old(self).spec_count(o) < i64::MAX,
        ensures
            final(self).spec_count(o) == old(self).spec_count(o) + 1,
            forall|q: InventoryObject|
                q != o ==> final(self).spec_count(q) == old(self).spec_count(q),
            final(self).spec_coins() == old(self).spec_coins(),
            final(self).spec_equipped() == old(self).spec_equipped(),
            old(self).wf() ==> final(self).wf(),
    {
        match o {
            InventoryObject::Axe => self.axe = self.axe + 1,
            InventoryObject::Pickaxe => self.pickaxe = self.pickaxe + 1,
            InventoryObject::Hoe => self.hoe = self.hoe + 1,
            InventoryObject::Wood => self.wood = self.wood + 1,
            InventoryObject::Rocks => self.rocks = self.rocks + 1,
            InventoryObject::Beans => self.beans = self.beans + 1,
            InventoryObject::PotatoSeeds => self.potato_seeds = self.potato_seeds + 1,
        }
    }

    /// Remove `qty` units of item `o`; refused (reporting `false`, nothing
    /// changed) when the count would go negative.
    pub fn consume(&mut self, o: InventoryObject, qty: i64) -> (r: bool)
        requires
            qty >= 0,
        ensures
            r == (old(self).spec_count(o) >= qty),
            r ==> final(self).spec_count(o) == old(self).spec_count(o) - qty,
            !r ==> final(self).spec_count(o) == old(self).spec_count(o),
            forall|q: InventoryObject|
                q != o ==> final(self).spec_count(q) == old(self).spec_count(q),
            final(self).spec_coins() == old(self).spec_coins(),
            final(self).spec_equipped() == old(self).spec_equipped(),
            old(self).wf() ==> final(self).wf(),
    {
        if self.count(o) < qty {
            return false;
        }
        match o {
            InventoryObject::Axe => self.axe = self.axe - qty,
            InventoryObject::Pickaxe => self.pickaxe = self.pickaxe - qty,
            InventoryObject::Hoe => self.hoe = self.hoe - qty,
            InventoryObject::Wood => self.wood = self.wood - qty,
            InventoryObject::Rocks => self.rocks = self.rocks - qty,
            InventoryObject::Beans => self.beans = self.beans - qty,
            InventoryObject::PotatoSeeds => self.potato_seeds = self.potato_seeds - qty,
        }
        true
    }

    /// The requirement list of the recipe for `part`, as a data table.
    pub fn recipe(&self, part: House) -> (r: Vec<(InventoryObject, i64)>)
        ensures
            r@.len() == spec_recipe(part).len(),
            forall|i: int|
                0 <= i < r@.len() ==> (#[trigger] r@[i]).0 == spec_recipe(part)[i].0 && r@[i].1
                    == spec_recipe(part)[i].1,
    {
        let mut r: Vec<(InventoryObject, i64)> = Vec::new();
        r.push((InventoryObject::Wood, 1));
        match part {
            House::Door => {},
            _ => {
                r.push((InventoryObject::Rocks, 1));
            },
        }
        r
    }

    /// True iff every `(item, qty)` requirement of the recipe for `part`
    /// has `count(item) >= qty`.
    pub fn recipe_satisfied(&self, part: House) -> (r: bool)
        ensures
            r == self.spec_recipe_satisfied(part),
    {
        let reqs = self.recipe(part);
        let n = reqs.len();
        let mut i: usize = 0;
        while i < n
            invariant
                0 <= i <= n,
                forall|j: int|
                    0 <= j < i ==> self.spec_count(#[trigger] spec_recipe(part)[j].0)
                        >= spec_recipe(part)[j].1,
            decreases n - i,
        {
            let (o, qty) = reqs[i];
            if self.count(o) < qty {
                return false;
            }
            i += 1;
        }
        true
    }

    /// Place the house part `part`: if (and only if) its recipe is
    /// satisfied, debit every required item atomically. With insufficient
    /// materials nothing is consumed and `false` is reported.
    pub fn place_part(&mut self, part: House) -> (r: bool)
        requires
            old(self).wf(),
        ensures
            r == old(self).spec_recipe_satisfied(part),
            r ==> forall|o: InventoryObject|
                #[trigger] final(self).spec_count(o) == old(self).spec_count(o) - qty_in(
                    spec_recipe(part),
                    o,
                ),
            !r ==> forall|o: InventoryObject|
                #[trigger] final(self).spec_count(o) == old(self).spec_count(o),
            final(self).spec_coins() == old(self).spec_coins(),
            final(self).spec_equipped() == old(self).spec_equipped(),
            final(self).wf(),
    {
        if !self.recipe_satisfied(part) {
            return false;
        }
        let ghost rr = spec_recipe(part);
        proof {
            lemma_recipe_table(part);
        }
        let reqs = self.recipe(part);
        let n = reqs.len();
        let mut i: usize = 0;
        while i < n
            invariant
                0 <= i <= n,
                forall|q: InventoryObject|
                    #[trigger] self.spec_count(q) == old(self).spec_count(q) - qty_in(
                        rr.take(i as int),
                        q,
                    ),
                self.spec_coins() == old(self).spec_coins(),
                self.spec_equipped() == old(self).spec_equipped(),
            decreases n - i,
        {
            let (o, qty) = reqs[i];
            proof {
                assert(qty_in(rr.take(i as int), o) == 0) by {
                    lemma_distinct_prefix_absent(rr, i as int, o);
                }
                assert(old(self).spec_count(o) >= qty);
            }
            let ok = self.consume(o, qty);
            proof {
                assert(ok);
                assert forall|q: InventoryObject|
                    #[trigger] self.spec_count(q) == old(self).spec_count(q) - qty_in(
                        rr.take(i as int + 1),
                        q,
                    ) by {
                    lemma_qty_in_take_step(rr, i as int, q);
                }
            }
            i += 1;
        }
        proof {
            assert(rr.take(n as int) =~= rr);
            assert forall|q: InventoryObject| self.spec_count(q) >= 0 by {
                lemma_qty_in_covered(rr, q, old(self).spec_count(q));
            }
        }
        true
    }

    /// Buy one unit of item `o` from the store: if the store sells it and
    /// the coin balance covers its price, debit the coins and add the item;
    /// otherwise nothing changes.
    pub fn buy(&mut self, o: InventoryObject) -> (r: bool)
        requires
            old(self).spec_count(o) < i64::MAX,
        ensures
            spec_price(o) is None ==> r == false,
            spec_price(o) matches Some(p) ==> r == (old(self).spec_coins() >= p),
            r ==> final(self).spec_coins() == old(self).spec_coins() - spec_price(o)->Some_0,
            r ==> final(self).spec_count(o) == old(self).spec_count(o) + 1,
            r ==> forall|q: InventoryObject|
                q != o ==> final(self).spec_count(q) == old(self).spec_count(q),
            r ==> final(self).spec_equipped() == old(self).spec_equipped(),
            !r ==> *final(self) == *old(self),
            old(self).wf() ==> final(self).wf(),
    {
        let price: i64 = match o {
            InventoryObject::Beans => BEANS_PRICE,
            InventoryObject::PotatoSeeds => POTATO_SEEDS_PRICE,
            _ => {
                return false;
            },
        };
        if self.coins >= price {
            self.coins = self.coins - price;
            self.add_item(o);
            true
        } else {
            false
        }
    }
}

/// In a requirement list with pairwise-distinct items, a prefix that stops
/// before the entry naming `o` demands none of it.
proof fn lemma_distinct_prefix_absent(s: Seq<(InventoryObject, int)>, i: int, o: InventoryObject)
    requires
        0 <= i < s.len(),
        s[i].0 == o,
        forall|a: int, b: int| 0 <= a < b < s.len() ==> (#[trigger] s[a]).0 != (#[trigger] s[b]).0,
    ensures
        qty_in(s.take(i), o) == 0,
{
    lemma_qty_in_absent(s.take(i), o);
}

} // verus!
