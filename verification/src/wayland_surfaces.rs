//! The Wayland surfaces of the compositor: their buffers, mapping state and
//! damage, and the order in which they are drawn. A surface's scale and
//! opacity are floating-point values that the caller keeps beside it.

use vstd::prelude::*;
use std::collections::HashMap;
use crate::coordinates::{Logical, Rectangle, Transform};
use crate::errors::SurfaceError;
use crate::ids::ObjectId;
use crate::surfaces::{
    copy_rects, kids, without, BlendMode, LayerManager, SimpleTexture, SubsurfaceTree, SurfaceDamageTracker,
    SurfaceState, TextureSource, state_z_index,
};
use crate::texture::BlitzTexture;

verus! {

broadcast use vstd::std_specs::hash::group_hash_axioms;

/// Whether two textures are copies of one another: same identity, size,
/// format and DMA-BUF.
pub open spec fn same_texture(a: BlitzTexture, b: BlitzTexture) -> bool {
    &&& a.spec_id() == b.spec_id()
    &&& a.spec_width() == b.spec_width()
    &&& a.spec_height() == b.spec_height()
    &&& a.spec_format() == b.spec_format()
    &&& a.spec_dmabuf() == b.spec_dmabuf()
}

/// Whether two texture sources are copies of one another.
pub open spec fn same_source(a: TextureSource, b: TextureSource) -> bool {
    match (a, b) {
        (TextureSource::Simple(x), TextureSource::Simple(y)) => same_texture(x.texture, y.texture),
    }
}

/// A copy of a texture source.
fn copy_source(s: &TextureSource) -> (r: TextureSource)
    ensures
        same_source(r, *s),
{
    match s {
        TextureSource::Simple(t) => TextureSource::Simple(SimpleTexture { texture: t.texture.clone() }),
    }
}

/// A client surface: its buffer, whether it is shown, how it is turned and
/// blended, the regions damaged since the last clear, and how many buffers
/// it has had.
#[derive(Debug)]
pub struct WaylandSurface {
    id: ObjectId,
    texture_source: Option<TextureSource>,
    state: SurfaceState,
    transform: Transform,
    damage_regions: Vec<Rectangle<i32, Logical>>,
    blend_mode: BlendMode,
    buffer_age: u32,
}

impl WaylandSurface {
    pub closed spec fn spec_id(&self) -> ObjectId {
        self.id
    }

    pub closed spec fn spec_texture(&self) -> Option<TextureSource> {
        self.texture_source
    }

    pub closed spec fn spec_state(&self) -> SurfaceState {
        self.state
    }

    pub closed spec fn spec_transform(&self) -> Transform {
        self.transform
    }

    pub closed spec fn spec_damage(&self) -> Seq<Rectangle<i32, Logical>> {
        self.damage_regions@
    }

    pub closed spec fn spec_blend_mode(&self) -> BlendMode {
        self.blend_mode
    }

    pub closed spec fn spec_buffer_age(&self) -> u32 {
        self.buffer_age
    }

    /// A fresh surface: unmapped, untransformed, normally blended, with no
    /// buffer and no damage.
    pub fn new(id: ObjectId) -> (s: Self)
        ensures
            s.spec_id() == id,
            s.spec_texture() is None,
            s.spec_state() == SurfaceState::Unmapped,
            s.spec_transform() == Transform::Normal,
            s.spec_damage() == Seq::<Rectangle<i32, Logical>>::empty(),
            s.spec_blend_mode() == BlendMode::Normal,
            s.spec_buffer_age() == 0,
    {
        WaylandSurface {
            id,
            texture_source: None,
            state: SurfaceState::Unmapped,
            transform: Transform::Normal,
            damage_regions: Vec::new(),
            blend_mode: BlendMode::Normal,
            buffer_age: 0,
        }
    }

    /// The surface's identifier.
    pub fn id(&self) -> (i: ObjectId)
        ensures
            i == self.spec_id(),
    {
        self.id
    }

    /// The surface's buffer, if it has one.
    pub fn texture_source(&self) -> (t: Option<&TextureSource>)
        ensures
            match self.spec_texture() {
                Some(x) => t == Some(&x),
                None => t is None,
            },
    {
        self.texture_source.as_ref()
    }

    /// Attaches a new buffer; the buffer count goes up by one.
    pub fn set_texture(&mut self, texture: BlitzTexture)
        requires
            old(self).spec_buffer_age() < u32::MAX,
        ensures
            final(self).spec_texture() == Some(TextureSource::Simple(SimpleTexture { texture })),
            final(self).spec_buffer_age() == old(self).spec_buffer_age() + 1,
            final(self).spec_id() == old(self).spec_id(),
            final(self).spec_state() == old(self).spec_state(),
            final(self).spec_transform() == old(self).spec_transform(),
            final(self).spec_damage() == old(self).spec_damage(),
            final(self).spec_blend_mode() == old(self).spec_blend_mode(),
    {
        self.texture_source = Some(TextureSource::Simple(SimpleTexture { texture }));
        self.buffer_age = self.buffer_age + 1;
    }

    /// The damaged regions, in the order they were added.
    pub fn get_damage_regions(&self) -> (v: Vec<Rectangle<i32, Logical>>)
        ensures
            v@ == self.spec_damage(),
    {
        copy_rects(&self.damage_regions)
    }

    /// Records a damaged region.
    pub fn add_damage_region(&mut self, region: Rectangle<i32, Logical>)
        ensures
            final(self).spec_damage() == old(self).spec_damage().push(region),
            final(self).spec_id() == old(self).spec_id(),
            final(self).spec_texture() == old(self).spec_texture(),
            final(self).spec_state() == old(self).spec_state(),
            final(self).spec_transform() == old(self).spec_transform(),
            final(self).spec_blend_mode() == old(self).spec_blend_mode(),
            final(self).spec_buffer_age() == old(self).spec_buffer_age(),
    {
        self.damage_regions.push(region);
    }

    /// Forgets the damaged regions.
    pub fn clear_damage_regions(&mut self)
        ensures
            final(self).spec_damage() == Seq::<Rectangle<i32, Logical>>::empty(),
            final(self).spec_id() == old(self).spec_id(),
            final(self).spec_texture() == old(self).spec_texture(),
            final(self).spec_state() == old(self).spec_state(),
            final(self).spec_transform() == old(self).spec_transform(),
            final(self).spec_blend_mode() == old(self).spec_blend_mode(),
            final(self).spec_buffer_age() == old(self).spec_buffer_age(),
    {
        self.damage_regions.clear();
    }

    /// Sets how the surface is blended.
    pub fn set_blend_mode(&mut self, blend_mode: BlendMode)
        ensures
            final(self).spec_blend_mode() == blend_mode,
            final(self).spec_id() == old(self).spec_id(),
            final(self).spec_texture() == old(self).spec_texture(),
            final(self).spec_state() == old(self).spec_state(),
            final(self).spec_transform() == old(self).spec_transform(),
            final(self).spec_damage() == old(self).spec_damage(),
            final(self).spec_buffer_age() == old(self).spec_buffer_age(),
    {
        self.blend_mode = blend_mode;
    }

    /// Shows the surface.
    pub fn map_surface(&mut self)
        ensures
            final(self).spec_state() == SurfaceState::Mapped,
            final(self).spec_id() == old(self).spec_id(),
            final(self).spec_texture() == old(self).spec_texture(),
            final(self).spec_transform() == old(self).spec_transform(),
            final(self).spec_damage() == old(self).spec_damage(),
            final(self).spec_blend_mode() == old(self).spec_blend_mode(),
            final(self).spec_buffer_age() == old(self).spec_buffer_age(),
    {
        self.state = SurfaceState::Mapped;
    }

    /// Hides the surface and forgets its damage.
    pub fn unmap_surface(&mut self)
        ensures
            final(self).spec_state() == SurfaceState::Unmapped,
            final(self).spec_damage() == Seq::<Rectangle<i32, Logical>>::empty(),
            final(self).spec_id() == old(self).spec_id(),
            final(self).spec_texture() == old(self).spec_texture(),
            final(self).spec_transform() == old(self).spec_transform(),
            final(self).spec_blend_mode() == old(self).spec_blend_mode(),
            final(self).spec_buffer_age() == old(self).spec_buffer_age(),
    {
        self.state = SurfaceState::Unmapped;
        self.clear_damage_regions();
    }
}

/// A surface ready to be drawn: its buffer, transform, height, damage and
/// blending.
#[derive(Debug)]
pub struct RenderElement {
    pub surface_id: ObjectId,
    pub texture_source: TextureSource,
    pub transform: Transform,
    pub z_index: i32,
    pub damage_regions: Vec<Rectangle<i32, Logical>>,
    pub blend_mode: BlendMode,
}

/// Whether `e` draws the surface `s`.
pub open spec fn draws(e: RenderElement, s: WaylandSurface) -> bool {
    &&& e.surface_id == s.spec_id()
    &&& s.spec_texture() matches Some(t) && same_source(e.texture_source, t)
    &&& e.transform == s.spec_transform()
    &&& e.z_index == state_z_index(s.spec_state())
    &&& e.damage_regions@ == s.spec_damage()
    &&& e.blend_mode == s.spec_blend_mode()
}

/// Whether a surface is drawn: it is mapped and has a buffer.
pub open spec fn drawn(s: WaylandSurface) -> bool {
    s.spec_state() == SurfaceState::Mapped && s.spec_texture() is Some
}

/// The surfaces of the compositor by identifier, with their damage, layers
/// and subsurface tree.
#[derive(Debug)]
pub struct WaylandSurfaceManager {
    surfaces: HashMap<u64, WaylandSurface>,
    damage_tracker: SurfaceDamageTracker,
    layer_manager: LayerManager,
    subsurface_tree: SubsurfaceTree,
}

impl WaylandSurfaceManager {
    #[verifier::type_invariant]
    closed spec fn inv(self) -> bool {
        forall|k: u64| #[trigger] self.surfaces@.contains_key(k) ==> self.surfaces@[k].spec_id()@ == k
    }

    /// The surfaces, by the number of their identifier.
    pub closed spec fn surface_map(&self) -> Map<u64, WaylandSurface> {
        self.surfaces@
    }

    /// The damage of the surfaces.
    pub closed spec fn damage(&self) -> SurfaceDamageTracker {
        self.damage_tracker
    }

    /// The layer-shell surfaces.
    pub closed spec fn layers(&self) -> LayerManager {
        self.layer_manager
    }

    /// The subsurface tree.
    pub closed spec fn tree(&self) -> SubsurfaceTree {
        self.subsurface_tree
    }

    /// A manager with no surfaces, no damage, no layers and no subsurfaces.
    pub fn new() -> (m: Self)
        ensures
            m.surface_map() == Map::<u64, WaylandSurface>::empty(),
            m.damage().pending() == Map::<u64, Seq<Rectangle<i32, Logical>>>::empty(),
            m.damage().accumulated() == Seq::<Rectangle<i32, Logical>>::empty(),
            m.tree().children() == Map::<u64, Seq<ObjectId>>::empty(),
            m.tree().parents() == Map::<u64, ObjectId>::empty(),
    {
        WaylandSurfaceManager {
            surfaces: HashMap::new(),
            damage_tracker: SurfaceDamageTracker::new(),
            layer_manager: LayerManager::new(),
            subsurface_tree: SubsurfaceTree::new(),
        }
    }

    /// Applies a commit of `surface_id`: its pending damage is consumed.
    /// Unknown surfaces are refused and nothing changes.
    pub fn commit_surface(&mut self, surface_id: ObjectId) -> (r: Result<(), SurfaceError>)
        ensures
            r is Ok <==> old(self).surface_map().contains_key(surface_id@),
            r matches Err(e) ==> e == SurfaceError::SurfaceNotFound,
            final(self).surface_map() == old(self).surface_map(),
            final(self).damage().pending() == if r is Ok {
                old(self).damage().pending().remove(surface_id@)
            } else {
                old(self).damage().pending()
            },
            final(self).damage().accumulated() == old(self).damage().accumulated(),
            final(self).layers() == old(self).layers(),
            final(self).tree() == old(self).tree(),
    {
        proof {
            use_type_invariant(&*self);
        }
        if !self.surfaces.contains_key(&surface_id.raw()) {
            return Err(SurfaceError::SurfaceNotFound);
        }
        let mut damage = SurfaceDamageTracker::new();
        std::mem::swap(&mut damage, &mut self.damage_tracker);
        damage.commit_surface_damage(surface_id);
        self.damage_tracker = damage;
        Ok(())
    }

    /// Reports damage of `surface_id`, known or not.
    pub fn track_damage(&mut self, surface_id: ObjectId, damage: &[Rectangle<i32, Logical>])
        ensures
            final(self).surface_map() == old(self).surface_map(),
            final(self).damage().pending() == old(self).damage().pending().insert(surface_id@, damage@),
            final(self).damage().accumulated() == old(self).damage().accumulated() + damage@,
            final(self).layers() == old(self).layers(),
            final(self).tree() == old(self).tree(),
    {
        proof {
            use_type_invariant(&*self);
        }
        let mut copy: Vec<Rectangle<i32, Logical>> = Vec::new();
        let mut i: usize = 0;
        while i < damage.len()
            invariant
                i <= damage@.len(),
                copy@ == damage@.subrange(0, i as int),
            decreases damage@.len() - i,
        {
            copy.push(damage[i]);
            i += 1;
            assert(copy@ =~= damage@.subrange(0, i as int));
        }
        assert(copy@ =~= damage@);
        let mut tracker = SurfaceDamageTracker::new();
        std::mem::swap(&mut tracker, &mut self.damage_tracker);
        tracker.track_surface_damage(surface_id, copy);
        self.damage_tracker = tracker;
    }

    /// Records a fresh surface under `surface_id`, replacing any surface
    /// recorded there.
    pub fn add_surface(&mut self, surface_id: ObjectId)
        ensures
            final(self).surface_map().dom() == old(self).surface_map().dom().insert(surface_id@),
            forall|k: u64| k != surface_id@ && #[trigger] old(self).surface_map().contains_key(k)
                ==> final(self).surface_map()[k] == old(self).surface_map()[k],
            ({
                let s = final(self).surface_map()[surface_id@];
                &&& s.spec_id() == surface_id
                &&& s.spec_texture() is None
                &&& s.spec_state() == SurfaceState::Unmapped
                &&& s.spec_damage().len() == 0
                &&& s.spec_buffer_age() == 0
            }),
            final(self).damage() == old(self).damage(),
            final(self).layers() == old(self).layers(),
            final(self).tree() == old(self).tree(),
    {
        proof {
            use_type_invariant(&*self);
        }
        let surface = WaylandSurface::new(surface_id);
        let mut surfaces = HashMap::new();
        std::mem::swap(&mut surfaces, &mut self.surfaces);
        surfaces.insert(surface_id.raw(), surface);
        self.surfaces = surfaces;
    }

    /// Forgets `surface_id`: the surface, its pending damage and its place
    /// in the subsurface tree.
    pub fn remove_surface(&mut self, surface_id: ObjectId)
        ensures
            final(self).surface_map() == old(self).surface_map().remove(surface_id@),
            final(self).damage().pending() == old(self).damage().pending().remove(surface_id@),
            final(self).damage().accumulated() == old(self).damage().accumulated(),
            final(self).tree().parents() == old(self).tree().parents().remove(surface_id@),
            ({
                let c1 = old(self).tree().children().remove(surface_id@);
                final(self).tree().children() == if old(self).tree().parents().contains_key(surface_id@)
                    && c1.contains_key(old(self).tree().parents()[surface_id@]@) {
                    let q = old(self).tree().parents()[surface_id@]@;
                    c1.insert(q, without(c1[q], surface_id))
                } else {
                    c1
                }
            }),
            final(self).layers() == old(self).layers(),
    {
        proof {
            use_type_invariant(&*self);
        }
        let mut surfaces = HashMap::new();
        std::mem::swap(&mut surfaces, &mut self.surfaces);
        surfaces.remove(&surface_id.raw());
        self.surfaces = surfaces;
        let mut damage = SurfaceDamageTracker::new();
        std::mem::swap(&mut damage, &mut self.damage_tracker);
        damage.remove_surface(surface_id);
        self.damage_tracker = damage;
        let mut tree = SubsurfaceTree::new();
        std::mem::swap(&mut tree, &mut self.subsurface_tree);
        tree.remove_surface(surface_id);
        self.subsurface_tree = tree;
    }

    /// The number of surfaces.
    pub fn surface_count(&self) -> (n: usize)
        ensures
            n == self.surface_map().len(),
    {
        self.surfaces.len()
    }

    /// The surface `surface_id`, if there is one.
    pub fn find_surface_by_id(&self, surface_id: ObjectId) -> (r: Option<&WaylandSurface>)
        ensures
            match r {
                Some(s) => self.surface_map().contains_key(surface_id@) && *s == self.surface_map()[surface_id@],
                None => !self.surface_map().contains_key(surface_id@),
            },
    {
        self.surfaces.get(&surface_id.raw())
    }

    /// Attaches `texture` to `surface_id` and shows the surface; unknown
    /// surfaces are refused and nothing changes.
    pub fn set_surface_texture(&mut self, surface_id: ObjectId, texture: BlitzTexture) -> (r: Result<(), SurfaceError>)
        requires
            old(self).surface_map().contains_key(surface_id@) ==> old(self).surface_map()[surface_id@].spec_buffer_age() < u32::MAX,
        ensures
            r is Ok <==> old(self).surface_map().contains_key(surface_id@),
            r matches Err(e) ==> e == SurfaceError::SurfaceNotFound,
            r is Err ==> final(self).surface_map() == old(self).surface_map(),
            r is Ok ==> {
                let (before, after) = (old(self).surface_map()[surface_id@], final(self).surface_map()[surface_id@]);
                &&& final(self).surface_map().dom() == old(self).surface_map().dom()
                &&& forall|k: u64| k != surface_id@ && #[trigger] old(self).surface_map().contains_key(k)
                    ==> final(self).surface_map()[k] == old(self).surface_map()[k]
                &&& after.spec_texture() == Some(TextureSource::Simple(SimpleTexture { texture }))
                &&& after.spec_state() == SurfaceState::Mapped
                &&& after.spec_buffer_age() == before.spec_buffer_age() + 1
                &&& after.spec_id() == before.spec_id()
                &&& after.spec_transform() == before.spec_transform()
                &&& after.spec_damage() == before.spec_damage()
                &&& after.spec_blend_mode() == before.spec_blend_mode()
            },
            final(self).damage() == old(self).damage(),
            final(self).layers() == old(self).layers(),
            final(self).tree() == old(self).tree(),
    {
        proof {
            use_type_invariant(&*self);
        }
        let key = surface_id.raw();
        let mut surfaces = HashMap::new();
        std::mem::swap(&mut surfaces, &mut self.surfaces);
        match surfaces.remove(&key) {
            Some(mut surface) => {
                surface.set_texture(texture);
                surface.map_surface();
                surfaces.insert(key, surface);
                self.surfaces = surfaces;
                proof {
                    assert(self.surface_map().dom() =~= old(self).surface_map().dom());
                }
                Ok(())
            },
            None => {
                self.surfaces = surfaces;
                proof {
                    assert(self.surface_map() =~= old(self).surface_map());
                }
                Err(SurfaceError::SurfaceNotFound)
            },
        }
    }

    /// The stacking height of a surface: mapped ones above minimized ones,
    /// minimized above unmapped.
    pub fn calculate_z_index(&self, surface: &WaylandSurface) -> (z: i32)
        ensures
            z == state_z_index(surface.spec_state()),
    {
        surface.state.z_index()
    }

    /// The element that draws `surface`, when it has a buffer.
    fn create_render_element(&self, surface: &WaylandSurface) -> (r: Option<RenderElement>)
        ensures
            match r {
                Some(e) => draws(e, *surface),
                None => surface.spec_texture() is None,
            },
    {
        match &surface.texture_source {
            Some(source) => Some(RenderElement {
                surface_id: surface.id,
                texture_source: copy_source(source),
                transform: surface.transform,
                z_index: self.calculate_z_index(surface),
                damage_regions: copy_rects(&surface.damage_regions),
                blend_mode: surface.blend_mode,
            }),
            None => None,
        }
    }

    /// The elements of all shown surfaces that have a buffer, each once,
    /// lowest first.
    pub fn render_all_surfaces(&self) -> (v: Vec<RenderElement>)
        ensures
            forall|i: int| 0 <= i < v@.len() ==> #[trigger] self.surface_map().contains_key(v@[i].surface_id@)
                && drawn(self.surface_map()[v@[i].surface_id@])
                && draws(v@[i], self.surface_map()[v@[i].surface_id@]),
            forall|k: u64| #[trigger] self.surface_map().contains_key(k) && drawn(self.surface_map()[k])
                ==> exists|i: int| 0 <= i < v@.len() && v@[i].surface_id@ == k,
            forall|i: int, j: int| 0 <= i < j < v@.len() ==> v@[i].surface_id != v@[j].surface_id,
            forall|i: int, j: int| 0 <= i < j < v@.len() ==> v@[i].z_index <= v@[j].z_index,
    {
        proof {
            use_type_invariant(self);
        }
        let mut out: Vec<RenderElement> = Vec::new();
        let ghost m = self.surfaces@;
        for entry in it: self.surfaces.iter()
            invariant_except_break
                forall|i: int| 0 <= i < out@.len() ==> exists|j: int| 0 <= j < it.index() && #[trigger] out@[i].surface_id@ == *it.seq()[j].0,
            invariant
                m == self.surfaces@,
                forall|k: u64| #[trigger] m.contains_key(k) ==> m[k].spec_id()@ == k,
                it.seq().no_duplicates(),
                forall|i: int| 0 <= i < it.seq().len() ==> m.contains_key(*it.seq()[i].0) && m[*it.seq()[i].0] == *it.seq()[i].1,
                forall|i: int| 0 <= i < out@.len() ==> #[trigger] m.contains_key(out@[i].surface_id@)
                    && drawn(m[out@[i].surface_id@]) && draws(out@[i], m[out@[i].surface_id@]),
                forall|k: u64| #[trigger] m.contains_key(k) && drawn(m[k]) ==> (exists|i: int| 0 <= i < out@.len() && out@[i].surface_id@ == k)
                    || exists|j: int| it.index() <= j < it.seq().len() && *it.seq()[j].0 == k,
                forall|i: int, j: int| 0 <= i < j < out@.len() ==> out@[i].surface_id != out@[j].surface_id,
        {
            let (k, surface) = entry;
            let ghost idx = it.index();
            let ghost prev = out@;
            proof {
                assert(m[*k] == *surface);
            }
            let shown = match surface.state {
                SurfaceState::Mapped => true,
                _ => false,
            };
            if shown {
                match self.create_render_element(surface) {
                    Some(element) => {
                        proof {
                            assert forall|i: int| 0 <= i < prev.len() implies prev[i].surface_id != element.surface_id by {
                                let j = choose|j: int| 0 <= j < idx && #[trigger] prev[i].surface_id@ == *it.seq()[j].0;
                                if prev[i].surface_id == element.surface_id {
                                    assert(m[*it.seq()[j].0] == *it.seq()[j].1);
                                    assert(*it.seq()[j].0 == *k);
                                    assert(it.seq()[j] == it.seq()[idx]);
                                }
                            }
                        }
                        out.push(element);
                        proof {
                            assert forall|i: int| 0 <= i < out@.len() implies exists|j: int| 0 <= j < idx + 1
                                && #[trigger] out@[i].surface_id@ == *it.seq()[j].0 by {
                                if i < prev.len() {
                                    assert(out@[i] == prev[i]);
                                    let j = choose|j: int| 0 <= j < idx && #[trigger] prev[i].surface_id@ == *it.seq()[j].0;
                                    assert(out@[i].surface_id@ == *it.seq()[j].0);
                                } else {
                                    assert(out@[i].surface_id@ == *it.seq()[idx].0);
                                }
                            }
                        }
                    },
                    None => {},
                }
            }
            proof {
                assert forall|q: u64| #[trigger] m.contains_key(q) && drawn(m[q]) implies (exists|i: int| 0 <= i < out@.len() && out@[i].surface_id@ == q)
                    || exists|j: int| idx + 1 <= j < it.seq().len() && *it.seq()[j].0 == q by {
                    if exists|i: int| 0 <= i < prev.len() && prev[i].surface_id@ == q {
                        let w = choose|w: int| 0 <= w < prev.len() && prev[w].surface_id@ == q;
                        assert(out@[w] == prev[w]);
                    } else {
                        let j = choose|j: int| idx <= j < it.seq().len() && *it.seq()[j].0 == q;
                        if j == idx {
                            assert(m[*it.seq()[idx].0] == *it.seq()[idx].1);
                            assert(out@[prev.len() as int].surface_id@ == q);
                        }
                    }
                }
            }
        }
        proof {
            assert forall|i: int, j: int| 0 <= i < j < out@.len() implies out@[i].z_index <= out@[j].z_index by {
                assert(m.contains_key(out@[i].surface_id@));
                assert(m.contains_key(out@[j].surface_id@));
            }
            assert forall|k: u64| #[trigger] m.contains_key(k) && drawn(m[k]) implies exists|i: int| 0 <= i < out@.len() && out@[i].surface_id@ == k by {
                assert(m.contains_key(k) && drawn(m[k]));
            }
        }
        out
    }
}

impl Default for WaylandSurfaceManager {
    fn default() -> (m: Self)
        ensures
            m.surface_map() == Map::<u64, WaylandSurface>::empty(),
    {
        Self::new()
    }
}

} // verus!
