//! Invisible elements that inject damage.
//!
//! Effects such as a corner radius change no surface, so nothing would repaint
//! when they change. One element per window stands for them; bumping it
//! damages the window's whole area once.

use vstd::prelude::*;

use crate::geometry::{Point, Rectangle, Size};

verus! {

/// A commit counter one step further; it wraps around.
pub open spec fn next_commit(commit: usize) -> usize {
    if commit == usize::MAX {
        0
    } else {
        (commit + 1) as usize
    }
}

/// An element that draws nothing and can be damaged.
#[derive(Clone, Copy, Debug, PartialEq, Eq, Structural)]
pub struct ExtraDamage {
    id: u64,
    commit: usize,
    geometry: Rectangle,
}

impl ExtraDamage {
    /// Tells elements apart, and one element from frame to frame.
    pub closed spec fn identity(self) -> u64 {
        self.id
    }

    /// The number of times the element was damaged.
    pub closed spec fn commits(self) -> usize {
        self.commit
    }

    /// Where the element lies.
    pub closed spec fn area(self) -> Rectangle {
        self.geometry
    }

    /// The element once it has been damaged.
    pub closed spec fn damaged(self) -> ExtraDamage {
        ExtraDamage { commit: next_commit(self.commit), ..self }
    }

    /// The element at another place.
    pub closed spec fn placed(self, geometry: Rectangle) -> ExtraDamage {
        ExtraDamage { geometry, ..self }
    }

    /// An element that was never damaged, nowhere yet.
    pub closed spec fn fresh(id: u64) -> ExtraDamage {
        ExtraDamage {
            id,
            commit: 0,
            geometry: Rectangle { loc: Point { x: 0, y: 0 }, size: Size { w: 0, h: 0 } },
        }
    }

    /// A new element.
    pub fn new(id: u64) -> (damage: Self)
        ensures
            damage == ExtraDamage::fresh(id),
            damage.identity() == id,
            damage.commits() == 0,
            damage.area() == (Rectangle { loc: Point { x: 0, y: 0 }, size: Size { w: 0, h: 0 } }),
    {
        ExtraDamage {
            id,
            commit: 0,
            geometry: Rectangle { loc: Point { x: 0, y: 0 }, size: Size { w: 0, h: 0 } },
        }
    }

    /// Damages the whole area on the next frame.
    pub fn damage_all(&mut self)
        ensures
            *final(self) == old(self).damaged(),
            final(self).identity() == old(self).identity(),
            final(self).commits() == next_commit(old(self).commits()),
            final(self).area() == old(self).area(),
    {
        self.commit = self.commit.wrapping_add(1);
    }

    /// The element to draw at `geometry`, which is relative to the output.
    pub fn render(&self, geometry: Rectangle) -> (element: Self)
        ensures
            element == self.placed(geometry),
            element.identity() == self.identity(),
            element.commits() == self.commits(),
            element.area() == geometry,
    {
        let mut this: ExtraDamage = *self;
        this.geometry = geometry;
        this
    }

    /// The element's identity.
    pub fn id(&self) -> (id: u64)
        ensures
            id == self.identity(),
    {
        self.id
    }

    /// The number of times the element was damaged, as damage trackers see it.
    pub fn current_commit(&self) -> (commit: usize)
        ensures
            commit == self.commits(),
    {
        self.commit
    }

    /// Where the element lies.
    pub fn geometry(&self) -> (area: Rectangle)
        ensures
            area == self.area(),
    {
        self.geometry
    }
}

/// A new element has the identity that it was given, was never damaged, and
/// takes up no area.
pub proof fn lemma_fresh(id: u64)
    ensures
        ExtraDamage::fresh(id).identity() == id,
        ExtraDamage::fresh(id).commits() == 0,
        ExtraDamage::fresh(id).area() == (Rectangle {
            loc: Point { x: 0, y: 0 },
            size: Size { w: 0, h: 0 },
        }),
{
}

/// Damage leaves the identity and the place, and moves the counter on.
pub proof fn lemma_damaged(damage: ExtraDamage)
    ensures
        damage.damaged().identity() == damage.identity(),
        damage.damaged().commits() == next_commit(damage.commits()),
        damage.damaged().area() == damage.area(),
{
}

/// Placing an element leaves the identity and the counter. Only the last place
/// counts, and it makes no difference whether damage comes before or after.
pub proof fn lemma_placed(damage: ExtraDamage, first: Rectangle, last: Rectangle)
    ensures
        damage.placed(last).identity() == damage.identity(),
        damage.placed(last).commits() == damage.commits(),
        damage.placed(last).area() == last,
        damage.placed(first).placed(last) == damage.placed(last),
        damage.placed(last).damaged() == damage.damaged().placed(last),
{
}

/// Elements are told apart by their identity, their counter and their place:
/// those in which these agree are the same.
pub proof fn lemma_same(one: ExtraDamage, other: ExtraDamage)
    requires
        one.identity() == other.identity(),
        one.commits() == other.commits(),
        one.area() == other.area(),
    ensures
        one == other,
{
}

/// Whether a damage tracker that last saw the counter at `seen` repaints an
/// element.
pub open spec fn repaints(seen: usize, element: ExtraDamage) -> bool {
    element.commits() != seen
}

/// Bumping an element makes it repaint once: on the next frame wherever that
/// lies, and not on the one after.
pub proof fn damage_repaints_once(damage: ExtraDamage, next: Rectangle, after: Rectangle)
    ensures
        ({
            let drawn = damage.damaged().placed(next);
            &&& !repaints(damage.commits(), damage.placed(next))
            &&& repaints(damage.commits(), drawn)
            &&& !repaints(drawn.commits(), damage.damaged().placed(after))
            &&& drawn.identity() == damage.identity()
            &&& drawn.area() == next
        }),
{
}

/// What can be read of an element: a new one was never damaged and has no area,
/// damaging one moves its counter on by one, and placing one moves it there.
/// Nothing else about an element changes, its identity never.
pub proof fn elements_count_their_damage(
    id: u64,
    new: ExtraDamage,
    damage: &mut ExtraDamage,
    at: Rectangle,
    placed: ExtraDamage,
)
    requires
        call_ensures(ExtraDamage::new, (id,), new),
        call_ensures(ExtraDamage::damage_all, (damage,), ()),
        call_ensures(ExtraDamage::render, (&*old(damage), at), placed),
    ensures
        forall|n: u64| #[trigger] call_ensures(ExtraDamage::id, (&new,), n) ==> n == id,
        forall|n: usize| #[trigger]
            call_ensures(ExtraDamage::current_commit, (&new,), n) ==> n == 0,
        forall|area: Rectangle| #[trigger]
            call_ensures(ExtraDamage::geometry, (&new,), area) ==> area.size.w == 0 && area.size.h
                == 0,
        forall|a: usize, b: usize|
            #[trigger] call_ensures(ExtraDamage::current_commit, (&*old(damage),), a)
                && #[trigger] call_ensures(ExtraDamage::current_commit, (&*final(damage),), b) ==> b
                == if a == usize::MAX {
                0
            } else {
                a + 1
            },
        forall|a: u64, b: u64|
            #[trigger] call_ensures(ExtraDamage::id, (&*old(damage),), a)
                && #[trigger] call_ensures(ExtraDamage::id, (&*final(damage),), b) ==> b == a,
        forall|a: Rectangle, b: Rectangle|
            #[trigger] call_ensures(ExtraDamage::geometry, (&*old(damage),), a)
                && #[trigger] call_ensures(ExtraDamage::geometry, (&*final(damage),), b) ==> b == a,
        forall|area: Rectangle| #[trigger]
            call_ensures(ExtraDamage::geometry, (&placed,), area) ==> area == at,
        forall|a: usize, b: usize|
            #[trigger] call_ensures(ExtraDamage::current_commit, (&*old(damage),), a)
                && #[trigger] call_ensures(ExtraDamage::current_commit, (&placed,), b) ==> b == a,
        forall|a: u64, b: u64|
            #[trigger] call_ensures(ExtraDamage::id, (&*old(damage),), a)
                && #[trigger] call_ensures(ExtraDamage::id, (&placed,), b) ==> b == a,
{
}

} // verus!
