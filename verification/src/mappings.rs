//! Scripts bound to the directions of a D-pad and to the triggers.

use crate::text;
use vstd::prelude::*;

verus! {

/// D-pad directions
#[derive(Debug, Clone, Copy, PartialEq, Eq, Hash, Structural)]
pub enum DpadDirection {
    Up,
    Down,
    Left,
    Right,
}

/// Trigger buttons
#[derive(Debug, Clone, Copy, PartialEq, Eq, Hash, Structural)]
pub enum Trigger {
    /// Left trigger (brake, axis 10).
    LT,
    /// Right trigger (gas, axis 9).
    RT,
}

/// The scripts bound to D-pad directions, at most one for each.
#[derive(Debug)]
pub struct DpadMap {
    pub up: Option<String>,
    pub down: Option<String>,
    pub left: Option<String>,
    pub right: Option<String>,
}

/// The scripts bound to triggers, at most one for each.
#[derive(Debug)]
pub struct TriggerMap {
    pub lt: Option<String>,
    pub rt: Option<String>,
}

impl DpadMap {
    /// The script bound to a direction.
    pub open spec fn slot(&self, dir: DpadDirection) -> Option<Seq<char>> {
        match dir {
            DpadDirection::Up => text::opt_view(self.up),
            DpadDirection::Down => text::opt_view(self.down),
            DpadDirection::Left => text::opt_view(self.left),
            DpadDirection::Right => text::opt_view(self.right),
        }
    }

    /// No direction is bound.
    pub fn new() -> (r: Self)
        ensures
            r@ == Map::<DpadDirection, Seq<char>>::empty(),
    {
        let r = DpadMap { up: None, down: None, left: None, right: None };
        assert(r@ =~= Map::empty());
        r
    }

    /// Binds a direction, in place of what it was bound to.
    pub fn insert(&mut self, dir: DpadDirection, script: String)
        ensures
            final(self)@ == old(self)@.insert(dir, script@),
    {
        match dir {
            DpadDirection::Up => {
                self.up = Some(script);
            },
            DpadDirection::Down => {
                self.down = Some(script);
            },
            DpadDirection::Left => {
                self.left = Some(script);
            },
            DpadDirection::Right => {
                self.right = Some(script);
            },
        }
        assert(self@ =~= old(self)@.insert(dir, script@));
    }

    /// The script bound to a direction.
    pub fn get(&self, dir: DpadDirection) -> (r: Option<&String>)
        ensures
            match r {
                Some(script) => self@.contains_key(dir) && self@[dir] == script@,
                None => !self@.contains_key(dir),
            },
    {
        match dir {
            DpadDirection::Up => self.up.as_ref(),
            DpadDirection::Down => self.down.as_ref(),
            DpadDirection::Left => self.left.as_ref(),
            DpadDirection::Right => self.right.as_ref(),
        }
    }

    /// How many directions are bound.
    pub fn len(&self) -> (r: usize)
        ensures
            r == self@.dom().len(),
    {
        let mut n: usize = 0;
        let ghost mut seen: Set<DpadDirection> = Set::empty();
        if self.up.is_some() {
            n += 1;
            proof {
                seen = seen.insert(DpadDirection::Up);
            }
        }
        if self.down.is_some() {
            n += 1;
            proof {
                seen = seen.insert(DpadDirection::Down);
            }
        }
        if self.left.is_some() {
            n += 1;
            proof {
                seen = seen.insert(DpadDirection::Left);
            }
        }
        if self.right.is_some() {
            n += 1;
            proof {
                seen = seen.insert(DpadDirection::Right);
            }
        }
        assert(self@.dom() =~= seen) by {
            assert forall|d: DpadDirection| self@.dom().contains(d) <==> seen.contains(d) by {
                match d {
                    DpadDirection::Up => {},
                    DpadDirection::Down => {},
                    DpadDirection::Left => {},
                    DpadDirection::Right => {},
                }
            }
        }
        n
    }

    /// Whether no direction is bound.
    pub fn is_empty(&self) -> (r: bool)
        ensures
            r == self@.is_empty(),
    {
        let r: bool = self.up.is_none() && self.down.is_none() && self.left.is_none()
            && self.right.is_none();
        proof {
            if r {
                assert forall|d: DpadDirection| !self@.dom().contains(d) by {
                    match d {
                        DpadDirection::Up => {},
                        DpadDirection::Down => {},
                        DpadDirection::Left => {},
                        DpadDirection::Right => {},
                    }
                }
                assert(self@.dom() =~= Set::empty());
            } else {
                assert(self@.dom().contains(DpadDirection::Up) || self@.dom().contains(
                    DpadDirection::Down,
                ) || self@.dom().contains(DpadDirection::Left) || self@.dom().contains(
                    DpadDirection::Right,
                ));
            }
        }
        r
    }
}

impl View for DpadMap {
    type V = Map<DpadDirection, Seq<char>>;

    open spec fn view(&self) -> Map<DpadDirection, Seq<char>> {
        Map::new(|d: DpadDirection| self.slot(d) is Some, |d: DpadDirection| self.slot(d)->0)
    }
}

impl Clone for DpadMap {
    fn clone(&self) -> (r: Self)
        ensures
            r@ == self@,
    {
        let r = DpadMap {
            up: self.up.clone(),
            down: self.down.clone(),
            left: self.left.clone(),
            right: self.right.clone(),
        };
        assert(r@ =~= self@);
        r
    }
}

impl TriggerMap {
    /// The script bound to a trigger.
    pub open spec fn slot(&self, trigger: Trigger) -> Option<Seq<char>> {
        match trigger {
            Trigger::LT => text::opt_view(self.lt),
            Trigger::RT => text::opt_view(self.rt),
        }
    }

    /// No trigger is bound.
    pub fn new() -> (r: Self)
        ensures
            r@ == Map::<Trigger, Seq<char>>::empty(),
    {
        let r = TriggerMap { lt: None, rt: None };
        assert(r@ =~= Map::empty());
        r
    }

    /// Binds a trigger, in place of what it was bound to.
    pub fn insert(&mut self, trigger: Trigger, script: String)
        ensures
            final(self)@ == old(self)@.insert(trigger, script@),
    {
        match trigger {
            Trigger::LT => {
                self.lt = Some(script);
            },
            Trigger::RT => {
                self.rt = Some(script);
            },
        }
        assert(self@ =~= old(self)@.insert(trigger, script@));
    }

    /// The script bound to a trigger.
    pub fn get(&self, trigger: Trigger) -> (r: Option<&String>)
        ensures
            match r {
                Some(script) => self@.contains_key(trigger) && self@[trigger] == script@,
                None => !self@.contains_key(trigger),
            },
    {
        match trigger {
            Trigger::LT => self.lt.as_ref(),
            Trigger::RT => self.rt.as_ref(),
        }
    }

    /// How many triggers are bound.
    pub fn len(&self) -> (r: usize)
        ensures
            r == self@.dom().len(),
    {
        let mut n: usize = 0;
        let ghost mut seen: Set<Trigger> = Set::empty();
        if self.lt.is_some() {
            n += 1;
            proof {
                seen = seen.insert(Trigger::LT);
            }
        }
        if self.rt.is_some() {
            n += 1;
            proof {
                seen = seen.insert(Trigger::RT);
            }
        }
        assert(self@.dom() =~= seen) by {
            assert forall|t: Trigger| self@.dom().contains(t) <==> seen.contains(t) by {
                match t {
                    Trigger::LT => {},
                    Trigger::RT => {},
                }
            }
        }
        n
    }

    /// Whether no trigger is bound.
    pub fn is_empty(&self) -> (r: bool)
        ensures
            r == self@.is_empty(),
    {
        let r: bool = self.lt.is_none() && self.rt.is_none();
        proof {
            if r {
                assert forall|t: Trigger| !self@.dom().contains(t) by {
                    match t {
                        Trigger::LT => {},
                        Trigger::RT => {},
                    }
                }
                assert(self@.dom() =~= Set::empty());
            } else {
                assert(self@.dom().contains(Trigger::LT) || self@.dom().contains(Trigger::RT));
            }
        }
        r
    }
}

impl View for TriggerMap {
    type V = Map<Trigger, Seq<char>>;

    open spec fn view(&self) -> Map<Trigger, Seq<char>> {
        Map::new(|t: Trigger| self.slot(t) is Some, |t: Trigger| self.slot(t)->0)
    }
}

impl Clone for TriggerMap {
    fn clone(&self) -> (r: Self)
        ensures
            r@ == self@,
    {
        let r = TriggerMap { lt: self.lt.clone(), rt: self.rt.clone() };
        assert(r@ =~= self@);
        r
    }
}

} // verus!
