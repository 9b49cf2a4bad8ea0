use blitz_integration::coordinates::{Logical, Point, Rectangle, Size, Transform};
use blitz_integration::errors::{FormatConversionError, SurfaceError};
use blitz_integration::surfaces::{BlendMode, TextureSource};
use blitz_integration::wayland_surfaces::{WaylandSurface, WaylandSurfaceManager};
use blitz_integration::format::{ConversionPipeline, FormatConverter};
use blitz_integration::ids::{IdAllocator, ObjectId, OutputId};
use blitz_integration::keys::{
    egui_key, key_event_to_egui, pointer_actions, smithay_button_to_blitz_button, smithay_keyboard_to_blitz,
    smithay_keycode_to_blitz_code, smithay_keycode_to_blitz_key, smithay_modifiers_to_blitz_modifiers, EguiEvent,
    EguiKey, KeyCode, KeyLocation, KeyState, LogicalKey, MouseButton, PointerAction, ime_event_text, ImeEvent,
};
use blitz_integration::render_setup::{choose_config, texture_step, TextureStep};
use blitz_integration::resources::{MemoryPressureMonitor, MemoryUsage, ResourceManager};
use blitz_integration::surfaces::{
    ExclusiveZone, Layer, LayerManager, LayerSurface, MultiSurfaceRenderer, RenderElementType, SubsurfaceTree,
    SurfaceDamageTracker, SurfaceEntry, SurfaceState,
};
use blitz_integration::texture::{BlitzFrame, BlitzFramebuffer, BlitzTexture, DmaBufInfo};

#[test]
fn ids_count_up_from_one() {
    let mut ids = IdAllocator::new();
    let a = ObjectId::new(&mut ids);
    let b = ObjectId::new(&mut ids);
    let o = OutputId::new(&mut ids);
    assert_eq!((a.raw(), b.raw()), (1, 2));
    assert_ne!(a, b);
    let _ = o;
}

#[test]
fn textures_report_what_they_were_made_with() {
    let mut ids = IdAllocator::new();
    let t = BlitzTexture::new(640, 480, "ARGB8888".to_string(), &mut ids);
    assert_eq!(t.dimensions(), (640, 480));
    assert_eq!(t.format(), "ARGB8888");
    assert!(!t.is_dmabuf());
    assert!(t.dmabuf_info().is_none());
    let info = DmaBufInfo::new(5, 64, 32, "XRGB8888".to_string(), 256);
    let d = BlitzTexture::from_dmabuf(64, 32, "XRGB8888".to_string(), info, &mut ids);
    assert!(d.is_dmabuf());
    assert_eq!(d.dmabuf_info().unwrap().fd, 5);
    assert_ne!(t.id(), d.id());
    let fb = BlitzFramebuffer::new(d.clone());
    assert_eq!(fb.dimensions(), (64, 32));
    let mut frame = BlitzFrame::new();
    frame.set_current_surface(ObjectId::new(&mut ids));
}

#[test]
fn format_conversion_rules() {
    let mut c = FormatConverter::new().unwrap();
    assert_eq!(c.supported_formats(), &vec!["ARGB8888", "XRGB8888", "RGBA8888", "BGRA8888"]);
    assert_eq!(c.convert_format("ARGB8888", "RGBA8888").unwrap(), "RGBA8888");
    assert_eq!(c.convert_format("XRGB8888", "RGBA8888").unwrap(), "RGBA8888");
    assert_eq!(c.convert_format("ABGR8888", "x").unwrap(), "BGRA8888");
    assert_eq!(c.convert_format("RGB565", "x").unwrap(), "RGB565");
    match c.convert_format("NV12", "x") {
        Err(FormatConversionError::UnsupportedSourceFormat(f)) => assert_eq!(f, "NV12"),
        _ => panic!("NV12 is not supported"),
    }
    c.add_format_support("NV12".to_string());
    c.add_format_support("NV12".to_string());
    c.add_format_support("ARGB8888".to_string());
    assert_eq!(c.supported_formats().len(), 5);
    let pipeline = ConversionPipeline { name: "p".to_string(), src_format: "A".to_string(), dst_format: "B".to_string() };
    let mut dst = [1u8, 2, 3];
    assert!(pipeline.convert(&[9, 9], &mut dst).is_ok());
    assert_eq!(dst, [1, 2, 3]);
}

#[test]
fn transforms_swap_sizes_on_quarter_turns() {
    let s: Size<i32, Logical> = Size::new(10, 20);
    let t = Transform::_90.transform_size(s);
    assert_eq!((t.w, t.h), (20, 10));
    let n = Transform::Flipped180.transform_size(s);
    assert_eq!((n.w, n.h), (10, 20));
    let m = Transform::_270.axis_map();
    assert!(m.swap && !m.negate_x && m.negate_y);
    let r: Rectangle<i32, Logical> = Rectangle::from_loc_and_size(Point::new(1, 2), Size::from((3, 4)));
    assert_eq!((r.loc.x, r.loc.y, r.size.w, r.size.h), (1, 2, 3, 4));
}

#[test]
fn layers_are_drawn_bottom_to_top() {
    let mut ids = IdAllocator::new();
    let mut m = LayerManager::new();
    let top = ObjectId::new(&mut ids);
    let bg = ObjectId::new(&mut ids);
    let over = ObjectId::new(&mut ids);
    m.add_layer_surface(LayerSurface { surface_id: top, layer: Layer::Top, exclusive_zone: ExclusiveZone::Neutral }, Layer::Top);
    m.add_layer_surface(LayerSurface { surface_id: bg, layer: Layer::Background, exclusive_zone: ExclusiveZone::Exclusive(30) }, Layer::Background);
    m.add_layer_surface(LayerSurface { surface_id: over, layer: Layer::Overlay, exclusive_zone: ExclusiveZone::Neutral }, Layer::Overlay);
    let v = m.render_layers_in_order();
    let order: Vec<(ObjectId, i32)> = v.iter().map(|e| (e.surface_id, e.z_index)).collect();
    assert_eq!(order, vec![(bg, -1000), (top, 500), (over, 1000)]);
}

#[test]
fn subsurface_tree_is_walked_depth_first() {
    let mut ids = IdAllocator::new();
    let root = ObjectId::new(&mut ids);
    let a = ObjectId::new(&mut ids);
    let b = ObjectId::new(&mut ids);
    let c = ObjectId::new(&mut ids);
    let mut t = SubsurfaceTree::new();
    t.add_subsurface(root, a);
    t.add_subsurface(a, c);
    t.add_subsurface(root, b);
    assert_eq!(t.get_children(root).unwrap(), &vec![a, b]);
    let v = t.render_subsurface_tree(root);
    let seen: Vec<(ObjectId, i32, Option<ObjectId>)> = v.iter().map(|e| (e.surface_id, e.depth, e.parent_id)).collect();
    assert_eq!(seen, vec![(root, 0, None), (a, 1, Some(root)), (c, 2, Some(a)), (b, 1, Some(root))]);
    t.remove_surface(a);
    assert_eq!(t.get_children(root).unwrap(), &vec![b]);
    assert!(t.get_children(a).is_none());
}

#[test]
fn damage_accumulates_until_cleared() {
    let mut ids = IdAllocator::new();
    let s = ObjectId::new(&mut ids);
    let mut d = SurfaceDamageTracker::new();
    let r: Rectangle<i32, Logical> = Rectangle::from_loc_and_size(Point::new(0, 0), Size::new(5, 5));
    d.track_surface_damage(s, vec![r, r]);
    d.track_surface_damage(s, vec![r]);
    assert_eq!(d.get_accumulated_damage().len(), 3);
    d.commit_surface_damage(s);
    assert_eq!(d.get_accumulated_damage().len(), 3);
    d.clear_accumulated_damage();
    assert!(d.get_accumulated_damage().is_empty());
    d.remove_surface(s);
}

#[test]
fn final_order_is_stable_by_height() {
    let mut ids = IdAllocator::new();
    let s1 = ObjectId::new(&mut ids);
    let s2 = ObjectId::new(&mut ids);
    let l = ObjectId::new(&mut ids);
    let sub = ObjectId::new(&mut ids);
    let mut r = MultiSurfaceRenderer::new();
    r.add_surface_element(SurfaceEntry { surface_id: s1, z_index: SurfaceState::Mapped.z_index() });
    r.add_surface_element(SurfaceEntry { surface_id: s2, z_index: SurfaceState::Minimized.z_index() });
    let mut lm = LayerManager::new();
    lm.add_layer_surface(LayerSurface { surface_id: l, layer: Layer::Bottom, exclusive_zone: ExclusiveZone::Neutral }, Layer::Bottom);
    for e in lm.render_layers_in_order() {
        r.add_layer_element(e);
    }
    let mut t = SubsurfaceTree::new();
    t.add_subsurface(s2, sub);
    for e in t.render_subsurface_tree(s2) {
        r.add_subsurface_element(e);
    }
    let v = r.render_all_in_order();
    let order: Vec<(ObjectId, i32)> = v.iter().map(|e| (e.surface_id, e.z_index)).collect();
    assert_eq!(order, vec![(l, -500), (s2, 0), (s2, 0), (sub, 10), (s1, 100)]);
    assert!(matches!(v[0].element_type, RenderElementType::Layer(Layer::Bottom)));
    assert!(matches!(v[1].element_type, RenderElementType::Surface));
    assert!(matches!(v[2].element_type, RenderElementType::Subsurface(0)));
    assert!(matches!(v[3].element_type, RenderElementType::Subsurface(1)));
}

#[test]
fn resource_manager_hands_out_textures() {
    let mut m = ResourceManager::new();
    let t = m.create_texture(32, 16, "ARGB8888".to_string(), None).unwrap();
    assert_eq!(t.dimensions(), (32, 16));
    let u = m.create_texture(1, 1, "XRGB8888".to_string(), Some(MemoryUsage { used: 10, total: 100 })).unwrap();
    assert_ne!(t.id(), u.id());
    m.maybe_cleanup();
    m.cleanup_unused_resources();
    m.emergency_cleanup();
}

#[test]
fn key_codes_map_to_keys() {
    assert_eq!(smithay_keycode_to_blitz_code(38), KeyCode::KeyA);
    assert_eq!(smithay_keycode_to_blitz_code(9), KeyCode::Escape);
    assert_eq!(smithay_keycode_to_blitz_code(1000), KeyCode::Unidentified);
    match smithay_keycode_to_blitz_key(38) {
        LogicalKey::Character(s) => assert_eq!(s, "a"),
        other => panic!("unexpected {:?}", other),
    }
    assert!(matches!(smithay_keycode_to_blitz_key(36), LogicalKey::Enter));
    assert!(matches!(smithay_keycode_to_blitz_key(1000), LogicalKey::Unidentified));
    let mods = smithay_modifiers_to_blitz_modifiers(true, false, true, true);
    assert!(mods.control && !mods.alt && mods.shift && !mods.meta && mods.super_key);
    let e = smithay_keyboard_to_blitz(10, false, mods);
    assert_eq!(e.code, KeyCode::Digit1);
    assert_eq!(e.state, KeyState::Released);
    assert_eq!(e.location, KeyLocation::Standard);
    assert!(e.text.is_none() && !e.is_auto_repeating && !e.is_composing);
    match e.key {
        LogicalKey::Character(s) => assert_eq!(s, "1"),
        other => panic!("unexpected {:?}", other),
    }
}

#[test]
fn buttons_map_to_mouse_buttons() {
    assert_eq!(smithay_button_to_blitz_button(0x110), MouseButton::Left);
    assert_eq!(smithay_button_to_blitz_button(0x111), MouseButton::Right);
    assert_eq!(smithay_button_to_blitz_button(0x112), MouseButton::Middle);
    assert_eq!(smithay_button_to_blitz_button(0x1_0113), MouseButton::Other(0x0113));
}

#[test]
fn egui_gets_keys_and_text() {
    let mods = smithay_modifiers_to_blitz_modifiers(false, false, true, false);
    let key = LogicalKey::Character("a".to_string());
    assert_eq!(egui_key(&key), Some(EguiKey::A));
    let events = key_event_to_egui(&key, mods, true, false, Some("A")).unwrap();
    assert_eq!(events.len(), 2);
    match &events[0] {
        EguiEvent::Key { key, pressed, repeat, modifiers } => {
            assert_eq!(*key, EguiKey::A);
            assert!(*pressed && !*repeat && modifiers.shift && !modifiers.ctrl);
        },
        other => panic!("unexpected {:?}", other),
    }
    match &events[1] {
        EguiEvent::Text(t) => assert_eq!(t, "A"),
        other => panic!("unexpected {:?}", other),
    }
    assert_eq!(key_event_to_egui(&key, mods, false, false, Some("A")).unwrap().len(), 1);
    assert!(key_event_to_egui(&LogicalKey::Control, mods, true, false, None).is_none());
    assert_eq!(pointer_actions("click").unwrap(), vec![
        PointerAction::Button { pressed: true },
        PointerAction::Button { pressed: false },
    ]);
    assert!(pointer_actions("wheel").is_none());
    assert_eq!(ime_event_text(&ImeEvent::Commit("é".to_string())), Some("é".to_string()));
    assert_eq!(ime_event_text(&ImeEvent::Enabled), None);
}

#[test]
fn wayland_surfaces_commit_and_draw() {

    let mut ids = IdAllocator::new();
    let a = ObjectId::new(&mut ids);
    let b = ObjectId::new(&mut ids);
    let c = ObjectId::new(&mut ids);
    let mut m = WaylandSurfaceManager::new();
    assert!(matches!(m.commit_surface(a), Err(SurfaceError::SurfaceNotFound)));
    m.add_surface(a);
    m.add_surface(b);
    assert_eq!(m.surface_count(), 2);
    let r: Rectangle<i32, Logical> = Rectangle::from_loc_and_size(Point::new(0, 0), Size::new(2, 2));
    m.track_damage(a, &[r]);
    assert!(m.commit_surface(a).is_ok());
    let tex = BlitzTexture::new(8, 8, "ARGB8888".to_string(), &mut ids);
    let tex_id = tex.id();
    assert!(m.set_surface_texture(a, tex).is_ok());
    let other = BlitzTexture::new(8, 8, "ARGB8888".to_string(), &mut ids);
    assert!(matches!(m.set_surface_texture(c, other), Err(SurfaceError::SurfaceNotFound)));
    let v = m.render_all_surfaces();
    assert_eq!(v.len(), 1);
    assert_eq!(v[0].surface_id, a);
    assert_eq!(v[0].z_index, 100);
    assert_eq!(v[0].blend_mode, BlendMode::Normal);
    match &v[0].texture_source {
        TextureSource::Simple(t) => assert_eq!(t.texture.id(), tex_id),
    }
    let s = m.find_surface_by_id(b).unwrap();
    assert_eq!(m.calculate_z_index(s), -1);
    m.remove_surface(a);
    assert!(m.find_surface_by_id(a).is_none());
    assert!(m.render_all_surfaces().is_empty());

    let mut w = WaylandSurface::new(c);
    w.add_damage_region(r);
    w.add_damage_region(r);
    assert_eq!(w.get_damage_regions().len(), 2);
    w.map_surface();
    w.set_blend_mode(BlendMode::Screen);
    w.unmap_surface();
    assert!(w.get_damage_regions().is_empty());
    assert!(w.texture_source().is_none());
    assert_eq!(w.id(), c);
}

#[test]
fn transforming_a_size_twice_restores_it() {
    let s: Size<u32, Logical> = Size::new(3, 7);
    for t in [
        Transform::Normal, Transform::_90, Transform::_180, Transform::_270,
        Transform::Flipped, Transform::Flipped90, Transform::Flipped180, Transform::Flipped270,
    ] {
        let twice = t.transform_size(t.transform_size(s));
        assert_eq!((twice.w, twice.h), (3, 7));
        assert_eq!(t.axis_map().swap, t.transform_size(s).w == 7);
    }
}

#[test]
fn quad_index_buffer() {
    let v = blitz_integration::quads::quad_indices(2);
    assert_eq!(v, vec![0, 1, 2, 0, 2, 3, 4, 5, 6, 4, 6, 7]);
    assert!(blitz_integration::quads::quad_indices(0).is_empty());
}

#[test]
fn cleanup_when_due() {
    let mut m = ResourceManager::new();
    let _ = m.create_texture(4, 4, "ARGB8888".to_string(), None).unwrap();
    m.cleanup_if_due(std::time::Duration::from_secs(6));
    m.cleanup_if_due(std::time::Duration::from_secs(1));
    m.maybe_cleanup();
}

#[test]
fn memory_pressure_after_the_interval() {
    let mut mon = MemoryPressureMonitor::new();
    let high = Some(MemoryUsage { used: 86, total: 100 });
    let edge = Some(MemoryUsage { used: 85, total: 100 });
    assert!(!mon.check_pressure(std::time::Duration::from_millis(500), high));
    assert!(mon.check_pressure(std::time::Duration::from_secs(1), high));
    assert!(!mon.check_pressure(std::time::Duration::from_secs(2), edge));
    assert!(!mon.check_pressure(std::time::Duration::from_secs(2), None));
    assert!(!mon.check_pressure(std::time::Duration::from_secs(2), Some(MemoryUsage { used: 0, total: 0 })));
    let mut m = ResourceManager::new();
    let t = m.create_texture_under(2, 2, "ARGB8888".to_string(), true).unwrap();
    assert_eq!(t.dimensions(), (2, 2));
}

#[test]
fn render_setup_choices() {
    assert_eq!(texture_step(0, 10, true, None, false), TextureStep::Skip);
    assert_eq!(texture_step(10, 10, false, Some((10, 10)), true), TextureStep::Skip);
    assert_eq!(texture_step(10, 10, true, Some((10, 10)), true), TextureStep::Reuse);
    assert_eq!(texture_step(10, 20, true, Some((10, 10)), true), TextureStep::Recreate { unregister_old: true });
    assert_eq!(texture_step(10, 20, true, None, true), TextureStep::Recreate { unregister_old: false });
    assert_eq!(choose_config(&vec![]), None);
    assert_eq!(choose_config(&vec![(Some(false), 4), (None, 8), (Some(true), 2), (Some(true), 2)]), Some(2));
    assert_eq!(choose_config(&vec![(Some(true), 0), (Some(false), 4)]), Some(1));
}
