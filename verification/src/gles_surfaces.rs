//! Bookkeeping of the surfaces that the GLES integration draws: their
//! textures, sizes, positions and visibility.

use vstd::prelude::*;
use std::collections::HashMap;

verus! {

broadcast use vstd::std_specs::hash::group_hash_axioms;

/// A drawable surface backed by a GL texture.
#[derive(Debug, Clone, Copy, PartialEq, Eq, Structural)]
pub struct Surface {
    pub id: u64,
    pub texture_id: u32,
    pub width: u32,
    pub height: u32,
    pub x: i32,
    pub y: i32,
    pub visible: bool,
}

/// The surfaces by identifier; identifiers are handed out from 1 upwards.
#[derive(Debug)]
pub struct SurfaceManager {
    surfaces: HashMap<u64, Surface>,
    next_surface_id: u64,
}

impl SurfaceManager {
    #[verifier::type_invariant]
    closed spec fn inv(self) -> bool {
        &&& self.next_surface_id >= 1
        &&& forall|k: u64| #[trigger] self.surfaces@.contains_key(k) ==> k < self.next_surface_id && self.surfaces@[k].id == k
    }

    /// The surfaces by identifier.
    pub closed spec fn surfaces(&self) -> Map<u64, Surface> {
        self.surfaces@
    }

    /// The identifier the next surface gets.
    pub closed spec fn next_id(&self) -> u64 {
        self.next_surface_id
    }

    /// A manager with no surfaces; the first identifier is 1.
    pub fn new() -> (m: Self)
        ensures
            m.surfaces() == Map::<u64, Surface>::empty(),
            m.next_id() == 1,
    {
        SurfaceManager { surfaces: HashMap::new(), next_surface_id: 1 }
    }

    /// The identifier the next surface gets.
    pub fn next_surface_id(&self) -> (n: u64)
        ensures
            n == self.next_id(),
    {
        self.next_surface_id
    }

    /// Records a visible surface at the origin, drawn from `texture_id`, under
    /// a fresh identifier, and returns that identifier.
    pub fn create_surface(&mut self, width: u32, height: u32, texture_id: u32) -> (id: u64)
        requires
            old(self).next_id() < u64::MAX,
        ensures
            id == old(self).next_id(),
            !old(self).surfaces().contains_key(id),
            final(self).next_id() == old(self).next_id() + 1,
            final(self).surfaces() == old(self).surfaces().insert(id, Surface { id, texture_id, width, height, x: 0, y: 0, visible: true }),
    {
        proof {
            use_type_invariant(&*self);
        }
        let surface_id = self.next_surface_id;
        let surface = Surface { id: surface_id, texture_id, width, height, x: 0, y: 0, visible: true };
        self.next_surface_id = surface_id + 1;
        let mut surfaces = HashMap::new();
        std::mem::swap(&mut surfaces, &mut self.surfaces);
        surfaces.insert(surface_id, surface);
        self.surfaces = surfaces;
        surface_id
    }

    /// Forgets the surface `surface_id` and hands it back, so that its
    /// texture can be released.
    pub fn destroy_surface(&mut self, surface_id: u64) -> (r: Option<Surface>)
        ensures
            final(self).surfaces() == old(self).surfaces().remove(surface_id),
            final(self).next_id() == old(self).next_id(),
            match r {
                Some(s) => old(self).surfaces().contains_key(surface_id) && s == old(self).surfaces()[surface_id],
                None => !old(self).surfaces().contains_key(surface_id),
            },
    {
        proof {
            use_type_invariant(&*self);
        }
        let mut surfaces = HashMap::new();
        std::mem::swap(&mut surfaces, &mut self.surfaces);
        let r = surfaces.remove(&surface_id);
        self.surfaces = surfaces;
        r
    }

    /// Moves the surface `surface_id`, if there is one, to `(x, y)`.
    pub fn update_surface_position(&mut self, surface_id: u64, x: i32, y: i32)
        ensures
            final(self).next_id() == old(self).next_id(),
            final(self).surfaces() == if old(self).surfaces().contains_key(surface_id) {
                old(self).surfaces().insert(surface_id, Surface { x, y, ..old(self).surfaces()[surface_id] })
            } else {
                old(self).surfaces()
            },
    {
        proof {
            use_type_invariant(&*self);
        }
        let mut surfaces = HashMap::new();
        std::mem::swap(&mut surfaces, &mut self.surfaces);
        match surfaces.remove(&surface_id) {
            Some(s) => {
                surfaces.insert(surface_id, Surface { x, y, ..s });
            },
            None => {},
        }
        proof {
            if old(self).surfaces().contains_key(surface_id) {
                assert(surfaces@ =~= old(self).surfaces().insert(surface_id, Surface { x, y, ..old(self).surfaces()[surface_id] }));
            } else {
                assert(surfaces@ =~= old(self).surfaces());
            }
        }
        self.surfaces = surfaces;
    }

    /// Shows or hides the surface `surface_id`, if there is one.
    pub fn set_surface_visibility(&mut self, surface_id: u64, visible: bool)
        ensures
            final(self).next_id() == old(self).next_id(),
            final(self).surfaces() == if old(self).surfaces().contains_key(surface_id) {
                old(self).surfaces().insert(surface_id, Surface { visible, ..old(self).surfaces()[surface_id] })
            } else {
                old(self).surfaces()
            },
    {
        proof {
            use_type_invariant(&*self);
        }
        let mut surfaces = HashMap::new();
        std::mem::swap(&mut surfaces, &mut self.surfaces);
        match surfaces.remove(&surface_id) {
            Some(s) => {
                surfaces.insert(surface_id, Surface { visible, ..s });
            },
            None => {},
        }
        proof {
            if old(self).surfaces().contains_key(surface_id) {
                assert(surfaces@ =~= old(self).surfaces().insert(surface_id, Surface { visible, ..old(self).surfaces()[surface_id] }));
            } else {
                assert(surfaces@ =~= old(self).surfaces());
            }
        }
        self.surfaces = surfaces;
    }

    /// The surface `surface_id`, if there is one.
    pub fn get_surface(&self, surface_id: u64) -> (r: Option<&Surface>)
        ensures
            match r {
                Some(s) => self.surfaces().contains_key(surface_id) && *s == self.surfaces()[surface_id],
                None => !self.surfaces().contains_key(surface_id),
            },
    {
        self.surfaces.get(&surface_id)
    }

    /// The identifiers of all surfaces, each once, in no particular order.
    pub fn list_surfaces(&self) -> (v: Vec<u64>)
        ensures
            v@.no_duplicates(),
            v@.to_set() == self.surfaces().dom(),
    {
        let mut out: Vec<u64> = Vec::new();
        let ghost m = self.surfaces@;
        for entry in it: self.surfaces.iter()
            invariant
                m == self.surfaces@,
                it.seq().no_duplicates(),
                forall|i: int| 0 <= i < it.seq().len() ==> m.contains_key(*it.seq()[i].0) && m[*it.seq()[i].0] == *it.seq()[i].1,
                out@.len() == it.index(),
                forall|i: int| 0 <= i < it.index() ==> out@[i] == *it.seq()[i].0,
                out@.no_duplicates(),
                forall|i: int| 0 <= i < out@.len() ==> m.contains_key(#[trigger] out@[i]),
                forall|k: u64| #[trigger] m.contains_key(k) ==> out@.contains(k)
                    || exists|j: int| it.index() <= j < it.seq().len() && *it.seq()[j].0 == k,
        {
            let (k, _) = entry;
            let ghost idx = it.index();
            let ghost prev = out@;
            proof {
                assert forall|i: int| 0 <= i < prev.len() implies prev[i] != *k by {
                    if prev[i] == *k {
                        assert(m[*it.seq()[i].0] == *it.seq()[i].1);
                        assert(m[*it.seq()[idx].0] == *it.seq()[idx].1);
                        assert(it.seq()[i] == it.seq()[idx]);
                    }
                }
            }
            out.push(*k);
            proof {
                assert(out@[idx] == *k);
                assert forall|q: u64| #[trigger] m.contains_key(q) implies out@.contains(q)
                    || exists|j: int| idx + 1 <= j < it.seq().len() && *it.seq()[j].0 == q by {
                    if prev.contains(q) {
                        let w = choose|w: int| 0 <= w < prev.len() && prev[w] == q;
                        assert(out@[w] == q);
                    } else {
                        let j = choose|j: int| idx <= j < it.seq().len() && *it.seq()[j].0 == q;
                        if j == idx {
                            assert(out@[idx] == q);
                        }
                    }
                }
            }
        }
        proof {
            assert forall|k: u64| out@.to_set().contains(k) <==> m.dom().contains(k) by {
                if m.contains_key(k) {
                    assert(out@.contains(k));
                }
                if out@.to_set().contains(k) {
                    let j = choose|j: int| 0 <= j < out@.len() && out@[j] == k;
                    assert(m.contains_key(out@[j]));
                }
            }
            assert(out@.to_set() =~= m.dom());
        }
        out
    }

    /// The visible surfaces, each once, in no particular order.
    pub fn visible_surfaces(&self) -> (v: Vec<Surface>)
        ensures
            forall|i: int| 0 <= i < v@.len() ==> #[trigger] self.surfaces().contains_key(v@[i].id)
                && self.surfaces()[v@[i].id] == v@[i] && v@[i].visible,
            forall|k: u64| #[trigger] self.surfaces().contains_key(k) && self.surfaces()[k].visible
                ==> v@.contains(self.surfaces()[k]),
            forall|i: int, j: int| 0 <= i < j < v@.len() ==> v@[i].id != v@[j].id,
    {
        proof {
            use_type_invariant(self);
        }
        let mut out: Vec<Surface> = Vec::new();
        let ghost m = self.surfaces@;
        for entry in it: self.surfaces.iter()
            invariant_except_break
                forall|i: int| 0 <= i < out@.len() ==> exists|j: int| 0 <= j < it.index() && #[trigger] out@[i] == *it.seq()[j].1,
            invariant
                m == self.surfaces@,
                forall|k: u64| #[trigger] m.contains_key(k) ==> m[k].id == k,
                it.seq().no_duplicates(),
                forall|i: int| 0 <= i < it.seq().len() ==> m.contains_key(*it.seq()[i].0) && m[*it.seq()[i].0] == *it.seq()[i].1,
                forall|i: int| 0 <= i < out@.len() ==> #[trigger] m.contains_key(out@[i].id) && m[out@[i].id] == out@[i] && out@[i].visible,
                forall|k: u64| #[trigger] m.contains_key(k) && m[k].visible ==> out@.contains(m[k])
                    || exists|j: int| it.index() <= j < it.seq().len() && *it.seq()[j].0 == k,
                forall|i: int, j: int| 0 <= i < j < out@.len() ==> out@[i].id != out@[j].id,
        {
            let (k, s) = entry;
            let ghost idx = it.index();
            let ghost prev = out@;
            if s.visible {
                proof {
                    assert(m[*k] == *s);
                    assert forall|i: int| 0 <= i < prev.len() implies prev[i].id != s.id by {
                        let j = choose|j: int| 0 <= j < idx && prev[i] == *it.seq()[j].1;
                        if prev[i].id == s.id {
                            assert(m[*it.seq()[j].0] == *it.seq()[j].1);
                            assert(*it.seq()[j].0 == prev[i].id);
                            assert(it.seq()[j] == it.seq()[idx]);
                        }
                    }
                }
                out.push(*s);
                proof {
                    assert(out@[prev.len() as int] == *s);
                    assert forall|i: int| 0 <= i < out@.len() implies exists|j: int| 0 <= j < idx + 1 && #[trigger] out@[i] == *it.seq()[j].1 by {
                        if i < prev.len() {
                            assert(out@[i] == prev[i]);
                        } else {
                            assert(out@[i] == *it.seq()[idx].1);
                        }
                    }
                }
            }
            proof {
                assert forall|q: u64| #[trigger] m.contains_key(q) && m[q].visible implies out@.contains(m[q])
                    || exists|j: int| idx + 1 <= j < it.seq().len() && *it.seq()[j].0 == q by {
                    if prev.contains(m[q]) {
                        let w = choose|w: int| 0 <= w < prev.len() && prev[w] == m[q];
                        assert(out@[w] == m[q]);
                    } else {
                        let j = choose|j: int| idx <= j < it.seq().len() && *it.seq()[j].0 == q;
                        if j == idx {
                            assert(m[*it.seq()[idx].0] == *it.seq()[idx].1);
                            assert(out@[prev.len() as int] == m[q]);
                        }
                    }
                }
            }
        }
        proof {
            assert forall|k: u64| #[trigger] m.contains_key(k) && m[k].visible implies out@.contains(m[k]) by {
                assert(m.contains_key(k) && m[k].visible);
            }
        }
        out
    }
}

} // verus!
