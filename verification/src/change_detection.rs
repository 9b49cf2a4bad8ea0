//! Noticing that an ECS world has changed since it was last looked at, by
//! its change tick.

use vstd::prelude::*;
use std::collections::HashSet;

verus! {

broadcast use vstd::std_specs::hash::group_hash_axioms;

/// The tick a world was last seen at, and the components and resources
/// whose changes matter, by their component indices.
#[derive(Debug)]
pub struct EcsChangeDetector {
    last_change_tick: u32,
    tracked_components: HashSet<usize>,
    tracked_resources: HashSet<usize>,
}

/// What `check_changes` reports when the world is at `current` and was last
/// seen at `last`: no change on the first look (`last` is 0), none when
/// the tick has not moved, a change otherwise.
pub open spec fn changed(last: u32, current: u32) -> bool {
    last != 0 && current != last
}

impl EcsChangeDetector {
    /// The tick the world was last seen at; 0 before the first look.
    pub closed spec fn tick(&self) -> u32 {
        self.last_change_tick
    }

    /// The tracked components.
    pub closed spec fn components(&self) -> Set<usize> {
        self.tracked_components@
    }

    /// The tracked resources.
    pub closed spec fn resources(&self) -> Set<usize> {
        self.tracked_resources@
    }

    /// A detector that has not looked yet and tracks nothing.
    pub fn new() -> (d: Self)
        ensures
            d.tick() == 0,
            d.components() == Set::<usize>::empty(),
            d.resources() == Set::<usize>::empty(),
    {
        EcsChangeDetector {
            last_change_tick: 0,
            tracked_components: HashSet::new(),
            tracked_resources: HashSet::new(),
        }
    }

    /// Tracks the component of index `component_id`, when the world knows
    /// the component.
    pub fn track_component(&mut self, component_id: Option<usize>)
        ensures
            final(self).tick() == old(self).tick(),
            final(self).resources() == old(self).resources(),
            final(self).components() == match component_id {
                Some(id) => old(self).components().insert(id),
                None => old(self).components(),
            },
    {
        if let Some(id) = component_id {
            self.tracked_components.insert(id);
        }
    }

    /// Tracks the resource of index `resource_id`, when the world knows the
    /// resource.
    pub fn track_resource(&mut self, resource_id: Option<usize>)
        ensures
            final(self).tick() == old(self).tick(),
            final(self).components() == old(self).components(),
            final(self).resources() == match resource_id {
                Some(id) => old(self).resources().insert(id),
                None => old(self).resources(),
            },
    {
        if let Some(id) = resource_id {
            self.tracked_resources.insert(id);
        }
    }

    /// Whether the world, now at `current_tick`, has changed since the last
    /// look; the world is seen at `current_tick` from then on.
    pub fn check_changes(&mut self, current_tick: u32) -> (b: bool)
        ensures
            b == changed(old(self).tick(), current_tick),
            final(self).tick() == current_tick,
            final(self).components() == old(self).components(),
            final(self).resources() == old(self).resources(),
    {
        if self.last_change_tick == 0 {
            self.last_change_tick = current_tick;
            return false;
        }
        if current_tick == self.last_change_tick {
            return false;
        }
        let has_changes = current_tick != self.last_change_tick;
        self.last_change_tick = current_tick;
        has_changes
    }

    /// Takes the world, now at `current_tick`, as seen.
    pub fn reset(&mut self, current_tick: u32)
        ensures
            final(self).tick() == current_tick,
            final(self).components() == old(self).components(),
            final(self).resources() == old(self).resources(),
    {
        self.last_change_tick = current_tick;
    }
}

impl Default for EcsChangeDetector {
    fn default() -> (d: Self)
        ensures
            d.tick() == 0,
            d.components() == Set::<usize>::empty(),
            d.resources() == Set::<usize>::empty(),
    {
        Self::new()
    }
}

/// Law: the first look reports no change, whatever the tick.
pub proof fn law_first_check_reports_nothing(current: u32)
    ensures
        !changed(0, current),
{
}

/// Law: looking twice at the same tick reports no change the second time.
pub proof fn law_repeated_check_reports_nothing(current: u32)
    ensures
        !changed(current, current),
{
}

} // verus!
