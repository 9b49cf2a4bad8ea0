//! Bookkeeping of Wayland surfaces: layer-shell layers, the tree of
//! subsurfaces, damage tracking, and the order in which elements are drawn.

use vstd::prelude::*;
use std::collections::HashMap;
use crate::coordinates::{Logical, Rectangle};
use crate::ids::ObjectId;
use crate::texture::BlitzTexture;

verus! {

broadcast use vstd::std_specs::hash::group_hash_axioms;

/// Where a surface's pixels come from.
#[derive(Debug, Clone)]
pub enum TextureSource {
    Simple(SimpleTexture),
}

/// A surface texture held directly.
#[derive(Debug, Clone)]
pub struct SimpleTexture {
    pub texture: BlitzTexture,
}

/// Whether a surface is shown.
#[derive(Debug, Clone, Copy, PartialEq, Eq, Structural)]
pub enum SurfaceState {
    Unmapped,
    Mapped,
    Minimized,
}

/// How a surface is blended onto what lies below it.
#[derive(Debug, Clone, Copy, PartialEq, Eq, Structural)]
pub enum BlendMode {
    Normal,
    Multiply,
    Screen,
    Overlay,
    SoftLight,
    HardLight,
}

/// Stacking height of a surface in each state.
pub open spec fn state_z_index(s: SurfaceState) -> int {
    match s {
        SurfaceState::Mapped => 100,
        SurfaceState::Minimized => 0,
        SurfaceState::Unmapped => -1,
    }
}

impl SurfaceState {
    /// Stacking height of a surface in this state: mapped surfaces above
    /// minimized ones, minimized above unmapped ones.
    pub fn z_index(&self) -> (z: i32)
        ensures
            z == state_z_index(*self),
    {
        match self {
            SurfaceState::Mapped => 100,
            SurfaceState::Minimized => 0,
            SurfaceState::Unmapped => -1,
        }
    }
}

/// The four layers of the layer-shell protocol, from bottom to top.
#[derive(Debug, Clone, Copy, PartialEq, Eq, Structural)]
pub enum Layer {
    Background,
    Bottom,
    Top,
    Overlay,
}

/// The space a layer surface reserves at the edge of the output.
#[derive(Debug, Clone, Copy, PartialEq, Eq, Structural)]
pub enum ExclusiveZone {
    Neutral,
    Exclusive(i32),
}

/// A surface of the layer-shell protocol.
#[derive(Debug)]
pub struct LayerSurface {
    pub surface_id: ObjectId,
    pub layer: Layer,
    pub exclusive_zone: ExclusiveZone,
}

/// A layer surface ready to be drawn at height `z_index`.
#[derive(Debug, Clone, Copy)]
pub struct LayerRenderElement {
    pub surface_id: ObjectId,
    pub layer: Layer,
    pub exclusive_zone: ExclusiveZone,
    pub z_index: i32,
}

/// Stacking height of each layer.
pub open spec fn layer_z(layer: Layer) -> int {
    match layer {
        Layer::Background => -1000,
        Layer::Bottom => -500,
        Layer::Top => 500,
        Layer::Overlay => 1000,
    }
}

/// The element that draws `s` as part of the list of `layer`.
pub open spec fn layer_element(s: LayerSurface, layer: Layer) -> LayerRenderElement {
    LayerRenderElement { surface_id: s.surface_id, layer: s.layer, exclusive_zone: s.exclusive_zone, z_index: layer_z(layer) as i32 }
}

/// The elements that draw the surfaces of one layer list, in order.
pub open spec fn layer_elements(s: Seq<LayerSurface>, layer: Layer) -> Seq<LayerRenderElement> {
    s.map_values(|x: LayerSurface| layer_element(x, layer))
}

/// The surfaces of each layer, in the order they were added.
#[derive(Debug)]
pub struct LayerManager {
    background_layer: Vec<LayerSurface>,
    bottom_layer: Vec<LayerSurface>,
    top_layer: Vec<LayerSurface>,
    overlay_layer: Vec<LayerSurface>,
}

impl LayerManager {
    /// The surfaces added to `layer`, in order.
    pub closed spec fn surfaces_of(&self, layer: Layer) -> Seq<LayerSurface> {
        match layer {
            Layer::Background => self.background_layer@,
            Layer::Bottom => self.bottom_layer@,
            Layer::Top => self.top_layer@,
            Layer::Overlay => self.overlay_layer@,
        }
    }

    /// All elements in drawing order: background, bottom, top, overlay.
    pub open spec fn elements_in_order(&self) -> Seq<LayerRenderElement> {
        layer_elements(self.surfaces_of(Layer::Background), Layer::Background)
            + layer_elements(self.surfaces_of(Layer::Bottom), Layer::Bottom)
            + layer_elements(self.surfaces_of(Layer::Top), Layer::Top)
            + layer_elements(self.surfaces_of(Layer::Overlay), Layer::Overlay)
    }

    /// A manager with every layer empty.
    pub fn new() -> (m: Self)
        ensures
            forall|l: Layer| #[trigger] m.surfaces_of(l).len() == 0,
    {
        LayerManager {
            background_layer: Vec::new(),
            bottom_layer: Vec::new(),
            top_layer: Vec::new(),
            overlay_layer: Vec::new(),
        }
    }

    /// Adds `surface` at the end of the list of `layer`.
    pub fn add_layer_surface(&mut self, surface: LayerSurface, layer: Layer)
        ensures
            final(self).surfaces_of(layer) == old(self).surfaces_of(layer).push(surface),
            forall|l: Layer| l != layer ==> #[trigger] final(self).surfaces_of(l) == old(self).surfaces_of(l),
    {
        match layer {
            Layer::Background => self.background_layer.push(surface),
            Layer::Bottom => self.bottom_layer.push(surface),
            Layer::Top => self.top_layer.push(surface),
            Layer::Overlay => self.overlay_layer.push(surface),
        }
    }

    /// The elements of every layer in drawing order, bottom layer first.
    pub fn render_layers_in_order(&self) -> (v: Vec<LayerRenderElement>)
        ensures
            v@ == self.elements_in_order(),
    {
        let mut elements = self.render_layer(&self.background_layer, Layer::Background);
        let mut bottom = self.render_layer(&self.bottom_layer, Layer::Bottom);
        let mut top = self.render_layer(&self.top_layer, Layer::Top);
        let mut overlay = self.render_layer(&self.overlay_layer, Layer::Overlay);
        elements.append(&mut bottom);
        elements.append(&mut top);
        elements.append(&mut overlay);
        elements
    }

    fn render_layer(&self, surfaces: &Vec<LayerSurface>, layer: Layer) -> (v: Vec<LayerRenderElement>)
        ensures
            v@ == layer_elements(surfaces@, layer),
    {
        let n = surfaces.len();
        let mut out: Vec<LayerRenderElement> = Vec::new();
        let mut i: usize = 0;
        while i < n
            invariant
                n == surfaces@.len(),
                i <= n,
                out@ == layer_elements(surfaces@.subrange(0, i as int), layer),
            decreases n - i,
        {
            let s = &surfaces[i];
            let e = LayerRenderElement {
                surface_id: s.surface_id,
                layer: s.layer,
                exclusive_zone: s.exclusive_zone,
                z_index: self.layer_z_index(layer),
            };
            let ghost before = out@;
            out.push(e);
            proof {
                assert(surfaces@.subrange(0, i + 1) =~= surfaces@.subrange(0, i as int).push(surfaces@[i as int]));
                assert(out@ =~= layer_elements(surfaces@.subrange(0, i + 1), layer));
            }
            i += 1;
        }
        proof {
            assert(surfaces@.subrange(0, n as int) =~= surfaces@);
        }
        out
    }

    fn layer_z_index(&self, layer: Layer) -> (z: i32)
        ensures
            z == layer_z(layer),
    {
        match layer {
            Layer::Background => -1000,
            Layer::Bottom => -500,
            Layer::Top => 500,
            Layer::Overlay => 1000,
        }
    }
}

/// Law: the layers are drawn from bottom to top: the heights of the
/// elements that `render_layers_in_order` yields never decrease.
pub proof fn law_layers_drawn_bottom_to_top(m: LayerManager)
    ensures
        forall|i: int, j: int| 0 <= i < j < m.elements_in_order().len()
            ==> m.elements_in_order()[i].z_index <= m.elements_in_order()[j].z_index,
{
    let a = layer_elements(m.surfaces_of(Layer::Background), Layer::Background);
    let b = layer_elements(m.surfaces_of(Layer::Bottom), Layer::Bottom);
    let c = layer_elements(m.surfaces_of(Layer::Top), Layer::Top);
    let d = layer_elements(m.surfaces_of(Layer::Overlay), Layer::Overlay);
    let s = m.elements_in_order();
    assert forall|i: int| 0 <= i < s.len() implies #[trigger] s[i].z_index == (
        if i < a.len() { -1000int } else if i < a.len() + b.len() { -500int }
        else if i < a.len() + b.len() + c.len() { 500int } else { 1000int }) by {
        if i < a.len() {
            assert(s[i] == a[i]);
        } else if i < a.len() + b.len() {
            assert(s[i] == b[i - a.len()]);
        } else if i < a.len() + b.len() + c.len() {
            assert(s[i] == c[i - a.len() - b.len()]);
        } else {
            assert(s[i] == d[i - a.len() - b.len() - c.len()]);
        }
    }
}

/// A subsurface ready to be drawn `depth` levels below the root of its tree.
#[derive(Debug, Clone, Copy)]
pub struct SubsurfaceRenderElement {
    pub surface_id: ObjectId,
    pub depth: i32,
    pub parent_id: Option<ObjectId>,
}

/// The children recorded for `id`, in the order they were added.
pub open spec fn kids(c: Map<u64, Seq<ObjectId>>, id: ObjectId) -> Seq<ObjectId> {
    if c.contains_key(id@) { c[id@] } else { Seq::empty() }
}

/// `s` without the occurrences of `id`, in order.
pub open spec fn without(s: Seq<ObjectId>, id: ObjectId) -> Seq<ObjectId>
    decreases s.len(),
{
    if s.len() == 0 {
        s
    } else if s.last() == id {
        without(s.drop_last(), id)
    } else {
        without(s.drop_last(), id).push(s.last())
    }
}

/// Whether every path of children from `id` has fewer than `k` steps;
/// such a tree has no cycle below `id`.
pub open spec fn height_within(c: Map<u64, Seq<ObjectId>>, id: ObjectId, k: nat) -> bool
    decreases k, 0int,
{
    if k == 0 {
        false
    } else {
        forest_height_within(c, kids(c, id), (k - 1) as nat)
    }
}

/// `height_within` for each of `ids`.
pub open spec fn forest_height_within(c: Map<u64, Seq<ObjectId>>, ids: Seq<ObjectId>, k: nat) -> bool
    decreases k, ids.len(),
{
    if ids.len() == 0 {
        true
    } else {
        forest_height_within(c, ids.drop_last(), k) && height_within(c, ids.last(), k)
    }
}

/// Each tree of a forest of bounded height is of bounded height.
pub proof fn lemma_forest_height(c: Map<u64, Seq<ObjectId>>, ids: Seq<ObjectId>, k: nat, i: int)
    requires
        forest_height_within(c, ids, k),
        0 <= i < ids.len(),
    ensures
        height_within(c, ids[i], k),
    decreases ids.len(),
{
    if i < ids.len() - 1 {
        lemma_forest_height(c, ids.drop_last(), k, i);
    }
}

/// The element that draws `id` at `depth`, naming its recorded parent.
pub open spec fn subsurface_element(p: Map<u64, ObjectId>, id: ObjectId, depth: int) -> SubsurfaceRenderElement {
    SubsurfaceRenderElement {
        surface_id: id,
        depth: depth as i32,
        parent_id: if p.contains_key(id@) { Some(p[id@]) } else { None },
    }
}

/// The elements of the tree below `id`, parent before children, children
/// in the order they were added, explored at most `k` levels deep.
pub open spec fn subtree_elements(c: Map<u64, Seq<ObjectId>>, p: Map<u64, ObjectId>, id: ObjectId, depth: int, k: nat)
    -> Seq<SubsurfaceRenderElement>
    decreases k, 0int,
{
    if k == 0 {
        Seq::empty()
    } else {
        seq![subsurface_element(p, id, depth)] + forest_elements(c, p, kids(c, id), depth + 1, (k - 1) as nat)
    }
}

/// The elements of the trees below each of `ids`, one tree after another.
pub open spec fn forest_elements(c: Map<u64, Seq<ObjectId>>, p: Map<u64, ObjectId>, ids: Seq<ObjectId>, depth: int, k: nat)
    -> Seq<SubsurfaceRenderElement>
    decreases k, ids.len(),
{
    if ids.len() == 0 {
        Seq::empty()
    } else {
        forest_elements(c, p, ids.drop_last(), depth, k) + subtree_elements(c, p, ids.last(), depth, k)
    }
}

/// The order of a tree's elements does not depend on how deep the search
/// may go, as long as it may reach the bottom.
pub proof fn lemma_subtree_fuel(c: Map<u64, Seq<ObjectId>>, p: Map<u64, ObjectId>, id: ObjectId, depth: int, k1: nat, k2: nat)
    requires
        height_within(c, id, k1),
        height_within(c, id, k2),
    ensures
        subtree_elements(c, p, id, depth, k1) == subtree_elements(c, p, id, depth, k2),
    decreases k1, 0int,
{
    let ks = kids(c, id);
    lemma_forest_fuel(c, p, ks, depth + 1, (k1 - 1) as nat, (k2 - 1) as nat);
}

/// Forest version of `lemma_subtree_fuel`.
pub proof fn lemma_forest_fuel(c: Map<u64, Seq<ObjectId>>, p: Map<u64, ObjectId>, ids: Seq<ObjectId>, depth: int, k1: nat, k2: nat)
    requires
        forest_height_within(c, ids, k1),
        forest_height_within(c, ids, k2),
    ensures
        forest_elements(c, p, ids, depth, k1) == forest_elements(c, p, ids, depth, k2),
    decreases k1, ids.len(),
{
    if ids.len() > 0 {
        lemma_forest_fuel(c, p, ids.drop_last(), depth, k1, k2);
        lemma_subtree_fuel(c, p, ids.last(), depth, k1, k2);
    }
}

/// Which surfaces are subsurfaces of which.
#[derive(Debug)]
pub struct SubsurfaceTree {
    parent_child_map: HashMap<u64, Vec<ObjectId>>,
    child_parent_map: HashMap<u64, ObjectId>,
}

impl SubsurfaceTree {
    /// The children recorded under each parent's identifier.
    pub closed spec fn children(&self) -> Map<u64, Seq<ObjectId>> {
        self.parent_child_map@.map_values(|v: Vec<ObjectId>| v@)
    }

    /// The parent recorded for each child's identifier.
    pub closed spec fn parents(&self) -> Map<u64, ObjectId> {
        self.child_parent_map@
    }

    /// A tree with no relations.
    pub fn new() -> (t: Self)
        ensures
            t.children() == Map::<u64, Seq<ObjectId>>::empty(),
            t.parents() == Map::<u64, ObjectId>::empty(),
    {
        let t = SubsurfaceTree { parent_child_map: HashMap::new(), child_parent_map: HashMap::new() };
        assert(t.children() =~= Map::<u64, Seq<ObjectId>>::empty());
        t
    }

    /// Records `child` as the last child of `parent`, and `parent` as the
    /// parent of `child`.
    pub fn add_subsurface(&mut self, parent: ObjectId, child: ObjectId)
        ensures
            final(self).children() == old(self).children().insert(parent@, kids(old(self).children(), parent).push(child)),
            final(self).parents() == old(self).parents().insert(child@, parent),
    {
        let key = parent.raw();
        let mut list = match self.parent_child_map.remove(&key) {
            Some(v) => v,
            None => Vec::new(),
        };
        let ghost before = list@;
        assert(before == kids(old(self).children(), parent));
        list.push(child);
        self.parent_child_map.insert(key, list);
        self.child_parent_map.insert(child.raw(), parent);
        assert(self.children() =~= old(self).children().insert(parent@, kids(old(self).children(), parent).push(child)));
    }

    /// The children recorded for `parent`, if any were.
    pub fn get_children(&self, parent: ObjectId) -> (r: Option<&Vec<ObjectId>>)
        ensures
            match r {
                Some(v) => self.children().contains_key(parent@) && v@ == self.children()[parent@],
                None => !self.children().contains_key(parent@),
            },
    {
        self.parent_child_map.get(&parent.raw())
    }

    /// Forgets `surface_id`'s children, its parent, and its place among the
    /// children of its recorded parent.
    pub fn remove_surface(&mut self, surface_id: ObjectId)
        ensures
            final(self).parents() == old(self).parents().remove(surface_id@),
            ({
                let c1 = old(self).children().remove(surface_id@);
                final(self).children() == if old(self).parents().contains_key(surface_id@)
                    && c1.contains_key(old(self).parents()[surface_id@]@) {
                    let q = old(self).parents()[surface_id@]@;
                    c1.insert(q, without(c1[q], surface_id))
                } else {
                    c1
                }
            }),
    {
        let key = surface_id.raw();
        self.parent_child_map.remove(&key);
        assert(self.children() =~= old(self).children().remove(surface_id@));
        match self.child_parent_map.remove(&key) {
            Some(parent) => {
                let pkey = parent.raw();
                match self.parent_child_map.remove(&pkey) {
                    Some(list) => {
                        let kept = remove_all(&list, surface_id);
                        self.parent_child_map.insert(pkey, kept);
                        assert(self.children() =~= old(self).children().remove(surface_id@).insert(
                            pkey, without(list@, surface_id)));
                    },
                    None => {
                        assert(self.children() =~= old(self).children().remove(surface_id@));
                    },
                }
            },
            None => {},
        }
    }

    /// The elements of the tree below `root_surface`: each surface before its
    /// children, children in the order they were added, depth counted from
    /// the root.
    pub fn render_subsurface_tree(&self, root_surface: ObjectId) -> (v: Vec<SubsurfaceRenderElement>)
        requires
            exists|k: nat| k <= i32::MAX && height_within(self.children(), root_surface, k),
        ensures
            forall|k: nat| height_within(self.children(), root_surface, k)
                ==> v@ == subtree_elements(self.children(), self.parents(), root_surface, 0, k),
    {
        let ghost k = choose|k: nat| k <= i32::MAX && height_within(self.children(), root_surface, k);
        let mut elements: Vec<SubsurfaceRenderElement> = Vec::new();
        self.render_subsurface_recursive(root_surface, 0, &mut elements, Ghost(k));
        proof {
            assert(elements@ =~= subtree_elements(self.children(), self.parents(), root_surface, 0, k));
            assert forall|k2: nat| height_within(self.children(), root_surface, k2)
                implies elements@ == subtree_elements(self.children(), self.parents(), root_surface, 0, k2) by {
                lemma_subtree_fuel(self.children(), self.parents(), root_surface, 0, k, k2);
            }
        }
        elements
    }

    fn render_subsurface_recursive(&self, surface_id: ObjectId, depth: i32, elements: &mut Vec<SubsurfaceRenderElement>, Ghost(k): Ghost<nat>)
        requires
            height_within(self.children(), surface_id, k),
            0 <= depth,
            depth + k <= i32::MAX + 1,
        ensures
            final(elements)@ == old(elements)@ + subtree_elements(self.children(), self.parents(), surface_id, depth as int, k),
        decreases k,
    {
        let parent_id = match self.child_parent_map.get(&surface_id.raw()) {
            Some(p) => Some(*p),
            None => None,
        };
        let ghost start = elements@;
        elements.push(SubsurfaceRenderElement { surface_id, depth, parent_id });
        let ghost c = self.children();
        let ghost p = self.parents();
        let ghost head = start.push(subsurface_element(p, surface_id, depth as int));
        assert(elements@ == head);
        match self.parent_child_map.get(&surface_id.raw()) {
            Some(children) => {
                let ghost ks = kids(c, surface_id);
                assert(children@ == ks);
                let n = children.len();
                let mut j: usize = 0;
                while j < n
                    invariant
                        n == children@.len(),
                        children@ == ks,
                        ks == kids(c, surface_id),
                        c == self.children(),
                        p == self.parents(),
                        height_within(c, surface_id, k),
                        0 <= depth,
                        depth + k <= i32::MAX + 1,
                        j <= n,
                        elements@ == head + forest_elements(c, p, ks.subrange(0, j as int), depth + 1, (k - 1) as nat),
                    decreases n - j,
                {
                    proof {
                        lemma_forest_height(c, ks, (k - 1) as nat, j as int);
                    }
                    let ghost mid = elements@;
                    self.render_subsurface_recursive(children[j], depth + 1, elements, Ghost((k - 1) as nat));
                    proof {
                        let sub = ks.subrange(0, j + 1);
                        assert(sub.drop_last() =~= ks.subrange(0, j as int));
                        assert(sub.last() == ks[j as int]);
                        assert(elements@ =~= head + forest_elements(c, p, sub, depth + 1, (k - 1) as nat));
                    }
                    j += 1;
                }
                assert(ks.subrange(0, n as int) =~= ks);
                assert(elements@ =~= start + subtree_elements(c, p, surface_id, depth as int, k));
            },
            None => {
                assert(kids(c, surface_id) =~= Seq::<ObjectId>::empty());
                assert(elements@ =~= start + subtree_elements(c, p, surface_id, depth as int, k));
            },
        }
    }
}

/// `list` without the occurrences of `id`, in order.
fn remove_all(list: &Vec<ObjectId>, id: ObjectId) -> (r: Vec<ObjectId>)
    ensures
        r@ == without(list@, id),
{
    let n = list.len();
    let mut out: Vec<ObjectId> = Vec::new();
    let mut i: usize = 0;
    while i < n
        invariant
            n == list@.len(),
            i <= n,
            out@ == without(list@.subrange(0, i as int), id),
        decreases n - i,
    {
        let x = list[i];
        proof {
            assert(list@.subrange(0, i + 1).drop_last() =~= list@.subrange(0, i as int));
            assert(list@.subrange(0, i + 1).last() == x);
        }
        if x != id {
            out.push(x);
        }
        i += 1;
    }
    assert(list@.subrange(0, n as int) =~= list@);
    out
}

/// Damaged regions of each surface since its last commit, and all damage
/// reported since the last clear.
#[derive(Debug)]
pub struct SurfaceDamageTracker {
    surface_damages: HashMap<u64, Vec<Rectangle<i32, Logical>>>,
    accumulated_damage: Vec<Rectangle<i32, Logical>>,
}

/// A copy of a list of integer rectangles.
pub(crate) fn copy_rects(v: &Vec<Rectangle<i32, Logical>>) -> (r: Vec<Rectangle<i32, Logical>>)
    ensures
        r@ == v@,
{
    let n = v.len();
    let mut out: Vec<Rectangle<i32, Logical>> = Vec::new();
    let mut i: usize = 0;
    while i < n
        invariant
            n == v@.len(),
            i <= n,
            out@ == v@.subrange(0, i as int),
        decreases n - i,
    {
        let r = v[i];
        out.push(r);
        proof {
            assert(out@ =~= v@.subrange(0, i + 1));
        }
        i += 1;
    }
    assert(v@.subrange(0, n as int) =~= v@);
    out
}

impl SurfaceDamageTracker {
    /// The damage waiting for each surface's next commit.
    pub closed spec fn pending(&self) -> Map<u64, Seq<Rectangle<i32, Logical>>> {
        self.surface_damages@.map_values(|v: Vec<Rectangle<i32, Logical>>| v@)
    }

    /// All damage reported since the last clear, in order.
    pub closed spec fn accumulated(&self) -> Seq<Rectangle<i32, Logical>> {
        self.accumulated_damage@
    }

    /// A tracker with no damage.
    pub fn new() -> (t: Self)
        ensures
            t.pending() == Map::<u64, Seq<Rectangle<i32, Logical>>>::empty(),
            t.accumulated() == Seq::<Rectangle<i32, Logical>>::empty(),
    {
        let t = SurfaceDamageTracker { surface_damages: HashMap::new(), accumulated_damage: Vec::new() };
        assert(t.pending() =~= Map::<u64, Seq<Rectangle<i32, Logical>>>::empty());
        t
    }

    /// Replaces the pending damage of `surface_id` by `damage`, and adds
    /// `damage` to the accumulated damage.
    pub fn track_surface_damage(&mut self, surface_id: ObjectId, damage: Vec<Rectangle<i32, Logical>>)
        ensures
            final(self).pending() == old(self).pending().insert(surface_id@, damage@),
            final(self).accumulated() == old(self).accumulated() + damage@,
    {
        let copy = copy_rects(&damage);
        self.surface_damages.insert(surface_id.raw(), copy);
        assert(self.pending() =~= old(self).pending().insert(surface_id@, damage@));
        let n = damage.len();
        let mut i: usize = 0;
        while i < n
            invariant
                n == damage@.len(),
                i <= n,
                self.pending() == old(self).pending().insert(surface_id@, damage@),
                self.accumulated() == old(self).accumulated() + damage@.subrange(0, i as int),
            decreases n - i,
        {
            let r = damage[i];
            self.accumulated_damage.push(r);
            proof {
                assert(damage@.subrange(0, i + 1) =~= damage@.subrange(0, i as int).push(r));
                assert(self.accumulated() =~= old(self).accumulated() + damage@.subrange(0, i + 1));
            }
            i += 1;
        }
        assert(damage@.subrange(0, n as int) =~= damage@);
    }

    /// Drops the pending damage of `surface_id`: its commit consumed it.
    pub fn commit_surface_damage(&mut self, surface_id: ObjectId)
        ensures
            final(self).pending() == old(self).pending().remove(surface_id@),
            final(self).accumulated() == old(self).accumulated(),
    {
        self.surface_damages.remove(&surface_id.raw());
        assert(self.pending() =~= old(self).pending().remove(surface_id@));
    }

    /// All damage reported since the last clear.
    pub fn get_accumulated_damage(&self) -> (s: &[Rectangle<i32, Logical>])
        ensures
            s@ == self.accumulated(),
    {
        self.accumulated_damage.as_slice()
    }

    /// Forgets the accumulated damage.
    pub fn clear_accumulated_damage(&mut self)
        ensures
            final(self).pending() == old(self).pending(),
            final(self).accumulated() == Seq::<Rectangle<i32, Logical>>::empty(),
    {
        self.accumulated_damage.clear();
    }

    /// Forgets the pending damage of a surface that went away.
    pub fn remove_surface(&mut self, surface_id: ObjectId)
        ensures
            final(self).pending() == old(self).pending().remove(surface_id@),
            final(self).accumulated() == old(self).accumulated(),
    {
        self.surface_damages.remove(&surface_id.raw());
        assert(self.pending() =~= old(self).pending().remove(surface_id@));
    }
}

/// What drawing order reads of a surface's render element: the surface and
/// its stacking height.
#[derive(Debug, Clone, Copy)]
pub struct SurfaceEntry {
    pub surface_id: ObjectId,
    pub z_index: i32,
}

/// The kind of thing a final render element draws.
#[derive(Debug, Clone, Copy)]
pub enum RenderElementType {
    Surface,
    Layer(Layer),
    Subsurface(i32),
}

/// One element of the final drawing order.
#[derive(Debug, Clone, Copy)]
pub struct FinalRenderElement {
    pub surface_id: ObjectId,
    pub element_type: RenderElementType,
    pub z_index: i32,
}

/// The elements of `s` at height `z`, in order.
pub open spec fn with_z(s: Seq<FinalRenderElement>, z: i32) -> Seq<FinalRenderElement>
    decreases s.len(),
{
    if s.len() == 0 {
        s
    } else if s.last().z_index == z {
        with_z(s.drop_last(), z).push(s.last())
    } else {
        with_z(s.drop_last(), z)
    }
}

/// Whether heights never decrease along `s`.
pub open spec fn sorted_by_z(s: Seq<FinalRenderElement>) -> bool {
    forall|i: int, j: int| 0 <= i < j < s.len() ==> s[i].z_index <= s[j].z_index
}

/// `r` is `s` sorted by height, elements of equal height kept in the order of `s`.
pub open spec fn stable_sort_by_z(r: Seq<FinalRenderElement>, s: Seq<FinalRenderElement>) -> bool {
    &&& sorted_by_z(r)
    &&& forall|z: i32| #[trigger] with_z(r, z) == with_z(s, z)
}

/// Selecting by height distributes over concatenation.
pub proof fn lemma_with_z_concat(a: Seq<FinalRenderElement>, b: Seq<FinalRenderElement>, z: i32)
    ensures
        with_z(a + b, z) == with_z(a, z) + with_z(b, z),
    decreases b.len(),
{
    if b.len() == 0 {
        assert(a + b =~= a);
        assert(with_z(a, z) + with_z(b, z) =~= with_z(a, z));
    } else {
        lemma_with_z_concat(a, b.drop_last(), z);
        assert((a + b).drop_last() =~= a + b.drop_last());
        assert((a + b).last() == b.last());
        if b.last().z_index == z {
            assert(with_z(a, z) + with_z(b, z) =~= (with_z(a, z) + with_z(b.drop_last(), z)).push(b.last()));
        }
    }
}

/// No element of `s` is at height `z` when all are above it.
pub proof fn lemma_with_z_above(s: Seq<FinalRenderElement>, z: i32)
    requires
        forall|i: int| 0 <= i < s.len() ==> s[i].z_index > z,
    ensures
        with_z(s, z) == Seq::<FinalRenderElement>::empty(),
    decreases s.len(),
{
    if s.len() > 0 {
        lemma_with_z_above(s.drop_last(), z);
    }
}

/// `v` sorted by height; elements of equal height keep their order.
pub fn sort_by_z(v: &Vec<FinalRenderElement>) -> (r: Vec<FinalRenderElement>)
    ensures
        stable_sort_by_z(r@, v@),
{
    let n = v.len();
    let mut out: Vec<FinalRenderElement> = Vec::new();
    let mut i: usize = 0;
    while i < n
        invariant
            n == v@.len(),
            i <= n,
            sorted_by_z(out@),
            forall|z: i32| #[trigger] with_z(out@, z) == with_z(v@.subrange(0, i as int), z),
        decreases n - i,
    {
        let x = v[i];
        let len = out.len();
        let mut pos: usize = 0;
        while pos < len && out[pos].z_index <= x.z_index
            invariant
                len == out@.len(),
                pos <= len,
                forall|j: int| 0 <= j < pos ==> out@[j].z_index <= x.z_index,
            decreases len - pos,
        {
            pos += 1;
        }
        let ghost old_out = out@;
        proof {
            assert forall|j: int| pos <= j < len implies old_out[j].z_index > x.z_index by {
                if pos < len {
                    assert(old_out[pos as int].z_index > x.z_index);
                    assert(old_out[pos as int].z_index <= old_out[j].z_index);
                }
            }
        }
        out.insert(pos, x);
        proof {
            let a = old_out.subrange(0, pos as int);
            let b = old_out.subrange(pos as int, len as int);
            assert(old_out =~= a + b);
            assert(out@ =~= a + seq![x] + b);
            let pre = v@.subrange(0, i as int);
            let pre1 = v@.subrange(0, i + 1);
            assert(pre1.drop_last() =~= pre);
            assert(pre1.last() == x);
            assert forall|z: i32| #[trigger] with_z(out@, z) == with_z(pre1, z) by {
                lemma_with_z_concat(a + seq![x], b, z);
                lemma_with_z_concat(a, seq![x], z);
                lemma_with_z_concat(a, b, z);
                let sx = seq![x];
                assert(sx.drop_last() =~= Seq::<FinalRenderElement>::empty());
                assert(sx.last() == x);
                assert(with_z(Seq::<FinalRenderElement>::empty(), z) =~= Seq::<FinalRenderElement>::empty());
                if z == x.z_index {
                    assert(with_z(sx, z) =~= sx);
                } else {
                    assert(with_z(sx, z) =~= Seq::<FinalRenderElement>::empty());
                }
                assert(with_z(out@, z) =~= with_z(a, z) + with_z(sx, z) + with_z(b, z));
                if z == x.z_index {
                    assert forall|j: int| 0 <= j < b.len() implies b[j].z_index > z by {
                        assert(b[j] == old_out[pos + j]);
                    }
                    lemma_with_z_above(b, z);
                    assert(with_z(out@, z) =~= with_z(a, z).push(x));
                    assert(with_z(old_out, z) =~= with_z(a, z));
                } else {
                    assert(with_z(out@, z) =~= with_z(a, z) + with_z(b, z));
                }
            }
            assert forall|p: int, q: int| 0 <= p < q < out@.len() implies out@[p].z_index <= out@[q].z_index by {
                if q < pos {
                } else if q == pos {
                    assert(out@[p] == old_out[p]);
                } else if p < pos {
                    assert(out@[q] == old_out[q - 1]);
                    assert(old_out[q - 1].z_index > x.z_index);
                } else if p == pos {
                    assert(out@[q] == old_out[q - 1]);
                } else {
                    assert(out@[p] == old_out[p - 1]);
                    assert(out@[q] == old_out[q - 1]);
                }
            }
        }
        i += 1;
    }
    assert(v@.subrange(0, n as int) =~= v@);
    out
}

/// The final element that draws a layer element.
pub open spec fn final_of_layer(e: LayerRenderElement) -> FinalRenderElement {
    FinalRenderElement { surface_id: e.surface_id, element_type: RenderElementType::Layer(e.layer), z_index: e.z_index }
}

/// The final element that draws a surface.
pub open spec fn final_of_surface(e: SurfaceEntry) -> FinalRenderElement {
    FinalRenderElement { surface_id: e.surface_id, element_type: RenderElementType::Surface, z_index: e.z_index }
}

/// The final element that draws a subsurface, ten height units per level.
pub open spec fn final_of_subsurface(e: SubsurfaceRenderElement) -> FinalRenderElement {
    FinalRenderElement {
        surface_id: e.surface_id,
        element_type: RenderElementType::Subsurface(e.depth),
        z_index: (e.depth * 10) as i32,
    }
}

/// Collects surface, layer and subsurface elements and puts them in one
/// drawing order.
#[derive(Debug)]
pub struct MultiSurfaceRenderer {
    surface_elements: Vec<SurfaceEntry>,
    layer_elements: Vec<LayerRenderElement>,
    subsurface_elements: Vec<SubsurfaceRenderElement>,
}

impl MultiSurfaceRenderer {
    pub closed spec fn surfaces(&self) -> Seq<SurfaceEntry> {
        self.surface_elements@
    }

    pub closed spec fn layers(&self) -> Seq<LayerRenderElement> {
        self.layer_elements@
    }

    pub closed spec fn subsurfaces(&self) -> Seq<SubsurfaceRenderElement> {
        self.subsurface_elements@
    }

    /// The elements before ordering: layers, then surfaces, then subsurfaces,
    /// each in the order they were added.
    pub open spec fn collected(&self) -> Seq<FinalRenderElement> {
        self.layers().map_values(|e: LayerRenderElement| final_of_layer(e))
            + self.surfaces().map_values(|e: SurfaceEntry| final_of_surface(e))
            + self.subsurfaces().map_values(|e: SubsurfaceRenderElement| final_of_subsurface(e))
    }

    /// A renderer with nothing to draw.
    pub fn new() -> (r: Self)
        ensures
            r.surfaces().len() == 0,
            r.layers().len() == 0,
            r.subsurfaces().len() == 0,
    {
        MultiSurfaceRenderer { surface_elements: Vec::new(), layer_elements: Vec::new(), subsurface_elements: Vec::new() }
    }

    /// Adds a surface to draw.
    pub fn add_surface_element(&mut self, element: SurfaceEntry)
        ensures
            final(self).surfaces() == old(self).surfaces().push(element),
            final(self).layers() == old(self).layers(),
            final(self).subsurfaces() == old(self).subsurfaces(),
    {
        self.surface_elements.push(element);
    }

    /// Adds a layer element to draw.
    pub fn add_layer_element(&mut self, element: LayerRenderElement)
        ensures
            final(self).layers() == old(self).layers().push(element),
            final(self).surfaces() == old(self).surfaces(),
            final(self).subsurfaces() == old(self).subsurfaces(),
    {
        self.layer_elements.push(element);
    }

    /// Adds a subsurface element to draw.
    pub fn add_subsurface_element(&mut self, element: SubsurfaceRenderElement)
        ensures
            final(self).subsurfaces() == old(self).subsurfaces().push(element),
            final(self).surfaces() == old(self).surfaces(),
            final(self).layers() == old(self).layers(),
    {
        self.subsurface_elements.push(element);
    }

    /// All elements in drawing order: by height, and at equal height layers
    /// before surfaces before subsurfaces, each in the order they were added.
    pub fn render_all_in_order(&mut self) -> (v: Vec<FinalRenderElement>)
        requires
            forall|i: int| 0 <= i < old(self).subsurfaces().len()
                ==> i32::MIN <= #[trigger] old(self).subsurfaces()[i].depth * 10 <= i32::MAX,
        ensures
            final(self).surfaces() == old(self).surfaces(),
            final(self).layers() == old(self).layers(),
            final(self).subsurfaces() == old(self).subsurfaces(),
            stable_sort_by_z(v@, old(self).collected()),
    {
        let mut all: Vec<FinalRenderElement> = Vec::new();
        let nl = self.layer_elements.len();
        let mut i: usize = 0;
        while i < nl
            invariant
                nl == self.layer_elements@.len(),
                i <= nl,
                all@ == self.layers().subrange(0, i as int).map_values(|e: LayerRenderElement| final_of_layer(e)),
            decreases nl - i,
        {
            let e = self.layer_elements[i];
            all.push(FinalRenderElement { surface_id: e.surface_id, element_type: RenderElementType::Layer(e.layer), z_index: e.z_index });
            proof {
                assert(all@ =~= self.layers().subrange(0, i + 1).map_values(|e: LayerRenderElement| final_of_layer(e)));
            }
            i += 1;
        }
        let ghost part1 = all@;
        assert(part1 =~= self.layers().map_values(|e: LayerRenderElement| final_of_layer(e)));
        let ns = self.surface_elements.len();
        let mut i: usize = 0;
        while i < ns
            invariant
                ns == self.surface_elements@.len(),
                i <= ns,
                all@ == part1 + self.surfaces().subrange(0, i as int).map_values(|e: SurfaceEntry| final_of_surface(e)),
            decreases ns - i,
        {
            let e = self.surface_elements[i];
            all.push(FinalRenderElement { surface_id: e.surface_id, element_type: RenderElementType::Surface, z_index: e.z_index });
            proof {
                assert(all@ =~= part1 + self.surfaces().subrange(0, i + 1).map_values(|e: SurfaceEntry| final_of_surface(e)));
            }
            i += 1;
        }
        let ghost part2 = all@;
        assert(part2 =~= part1 + self.surfaces().map_values(|e: SurfaceEntry| final_of_surface(e)));
        let nb = self.subsurface_elements.len();
        let mut i: usize = 0;
        while i < nb
            invariant
                nb == self.subsurface_elements@.len(),
                i <= nb,
                forall|j: int| 0 <= j < self.subsurfaces().len()
                    ==> i32::MIN <= #[trigger] self.subsurfaces()[j].depth * 10 <= i32::MAX,
                all@ == part2 + self.subsurfaces().subrange(0, i as int).map_values(|e: SubsurfaceRenderElement| final_of_subsurface(e)),
            decreases nb - i,
        {
            let e = self.subsurface_elements[i];
            assert(i32::MIN <= self.subsurfaces()[i as int].depth * 10 <= i32::MAX);
            all.push(FinalRenderElement { surface_id: e.surface_id, element_type: RenderElementType::Subsurface(e.depth), z_index: e.depth * 10 });
            proof {
                assert(all@ =~= part2 + self.subsurfaces().subrange(0, i + 1).map_values(|e: SubsurfaceRenderElement| final_of_subsurface(e)));
            }
            i += 1;
        }
        assert(all@ =~= self.collected());
        sort_by_z(&all)
    }
}

} // verus!
