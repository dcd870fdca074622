//! Two items that trade places: one is read while the other is written.

use vstd::prelude::*;

verus! {

/// A pair of items with a switch that says which one plays which part.
pub struct Flipper<T> {
    one: T,
    two: T,
    active: bool,
}

impl<T> Flipper<T> {
    /// The item that was handed in first.
    pub closed spec fn first(self) -> T {
        self.one
    }

    /// The item that was handed in second.
    pub closed spec fn second(self) -> T {
        self.two
    }

    /// Whether the switch is on. It starts off.
    pub closed spec fn active(self) -> bool {
        self.active
    }

    /// What `item_one` hands out: the first item while the switch is on, the
    /// second while it is off.
    pub open spec fn current_one(self) -> T {
        if self.active() {
            self.first()
        } else {
            self.second()
        }
    }

    /// What `item_two` hands out: always the item that `item_one` does not.
    pub open spec fn current_two(self) -> T {
        if self.active() {
            self.second()
        } else {
            self.first()
        }
    }

    /// A pair with the switch off.
    pub fn new(one: T, two: T) -> (r: Self)
        ensures
            r.first() == one,
            r.second() == two,
            !r.active(),
    {
        Self { one, two, active: false }
    }

    /// The item in the first part.
    pub fn item_one(&self) -> (r: &T)
        ensures
            *r == self.current_one(),
    {
        if self.active {
            &self.one
        } else {
            &self.two
        }
    }

    /// The item in the second part.
    pub fn item_two(&self) -> (r: &T)
        ensures
            *r == self.current_two(),
    {
        if self.active {
            &self.two
        } else {
            &self.one
        }
    }

    /// Turns the switch: the two items trade parts, and neither changes.
    pub fn flip(&mut self)
        ensures
            final(self).first() == old(self).first(),
            final(self).second() == old(self).second(),
            final(self).active() == !old(self).active(),
            final(self).current_one() == old(self).current_two(),
            final(self).current_two() == old(self).current_one(),
    {
        self.active = !self.active;
    }
}

/// The two parts are always played by the two items, each by one.
pub proof fn law_parts_cover_items<T>(f: Flipper<T>)
    ensures
        (f.current_one() == f.first() && f.current_two() == f.second()) || (f.current_one()
            == f.second() && f.current_two() == f.first()),
{
}

/// Two pairs that hold the same items with opposite switches hand out each
/// other's parts: what one reads, the other writes.
pub proof fn law_flip_trades_parts<T>(before: Flipper<T>, after: Flipper<T>)
    requires
        after.first() == before.first(),
        after.second() == before.second(),
        after.active() == !before.active(),
    ensures
        after.current_one() == before.current_two(),
        after.current_two() == before.current_one(),
{
}

} // verus!
