use blitz_integration::events::{Event, EventDispatcher, EventTarget};
use blitz_integration::gles_surfaces::SurfaceManager;
use blitz_integration::image::GlesImageRenderer;
use blitz_integration::terminals::{ProcessStatus, TerminalManager};

#[test]
fn surfaces_get_fresh_ids_and_can_be_updated() {
    let mut m = SurfaceManager::new();
    let a = m.create_surface(640, 480, 7);
    let b = m.create_surface(100, 100, 8);
    assert_eq!((a, b), (1, 2));
    let s = m.get_surface(a).unwrap();
    assert_eq!((s.width, s.height, s.texture_id, s.x, s.y, s.visible), (640, 480, 7, 0, 0, true));
    m.update_surface_position(a, 10, -5);
    m.set_surface_visibility(b, false);
    assert_eq!((m.get_surface(a).unwrap().x, m.get_surface(a).unwrap().y), (10, -5));
    let visible = m.visible_surfaces();
    assert_eq!(visible.len(), 1);
    assert_eq!(visible[0].id, a);
    let mut ids = m.list_surfaces();
    ids.sort();
    assert_eq!(ids, vec![1, 2]);
    let gone = m.destroy_surface(a).unwrap();
    assert_eq!(gone.texture_id, 7);
    assert!(m.get_surface(a).is_none());
    assert!(m.destroy_surface(a).is_none());
    assert_eq!(m.create_surface(1, 1, 9), 3);
}

#[test]
fn updates_of_missing_surfaces_change_nothing() {
    let mut m = SurfaceManager::new();
    m.update_surface_position(4, 1, 1);
    m.set_surface_visibility(4, false);
    assert!(m.list_surfaces().is_empty());
}

#[test]
fn terminals_keep_their_command_and_surface() {
    let mut t: TerminalManager<&'static str> = TerminalManager::new();
    let a = t.spawn_terminal("top", Some("proc-a")).unwrap();
    assert_eq!(t.spawn_terminal("bad", None), None);
    let b = t.spawn_terminal("htop", Some("proc-b")).unwrap();
    assert_eq!((a, b), (1, 3));
    t.associate_surface(b, 42);
    assert_eq!(t.get_terminal_surface(b), Some(42));
    assert_eq!(t.get_terminal_surface(a), None);
    assert_eq!(t.get_terminal_info(b), Some(("htop", Some(42))));
    assert_eq!(t.get_terminal_info(9), None);
    let mut ids = t.list_terminals();
    ids.sort();
    assert_eq!(ids, vec![1, 3]);
    let s = t.remove_terminal(a).unwrap();
    assert_eq!(s.process, "proc-a");
    assert_eq!(s.command, "top");
    assert!(t.remove_terminal(a).is_none());
    t.restore_terminal(s);
    assert_eq!(t.get_terminal_info(a), Some(("top", None)));
}

#[test]
fn terminal_ids_are_used_up_before_the_process_starts() {
    let mut t: TerminalManager<u32> = TerminalManager::default();
    let id = t.allocate_terminal_id();
    assert_eq!(id, 1);
    t.add_terminal(id, "sh", 99);
    assert_eq!(t.get_terminal_info(1), Some(("sh", None)));
    assert_eq!(t.spawn_terminal("ls", Some(5)), Some(2));
}

type Handler = Box<dyn Fn(&Event<u32>) -> Result<bool, String>>;

fn event(kind: &str, data: u32) -> Event<u32> {
    Event { target: EventTarget::Dom, event_type: kind.to_string(), data }
}

#[test]
fn first_handler_that_takes_the_event_wins() {
    let mut d: EventDispatcher<Handler> = EventDispatcher::new();
    d.register_handler("click", Box::new(|e| Ok(e.data > 10)));
    d.register_handler("click", Box::new(|e| if e.data == 5 { Err("five".to_string()) } else { Ok(true) }));
    d.register_handler("key", Box::new(|_| Ok(false)));
    assert_eq!(d.dispatch_event(event("click", 20)), Ok(true));
    assert_eq!(d.dispatch_event(event("click", 5)), Err("five".to_string()));
    assert_eq!(d.dispatch_event(event("click", 1)), Ok(true));
    assert_eq!(d.dispatch_event(event("key", 1)), Ok(false));
    assert_eq!(d.dispatch_event(event("scroll", 1)), Ok(false));
}

#[test]
fn keyboard_goes_to_the_focus() {
    let mut d: EventDispatcher<Handler> = EventDispatcher::default();
    assert!(d.get_focus().is_none());
    assert_eq!(d.route_keyboard_event(&()), EventTarget::Dom);
    d.set_focus(EventTarget::Terminal(3));
    assert_eq!(d.get_focus(), Some(&EventTarget::Terminal(3)));
    assert_eq!(d.route_keyboard_event(&"key"), EventTarget::Terminal(3));
    d.set_focus(EventTarget::Wayland);
    assert_eq!(d.route_keyboard_event(&0u8), EventTarget::Wayland);
}

#[test]
fn gradient_bytes() {
    let r = GlesImageRenderer::new(2, 2);
    let mut buf = vec![9u8; 3];
    r.fill_gradient(&mut buf);
    assert_eq!(
        buf,
        vec![0, 0, 128, 255, 127, 0, 128, 255, 0, 127, 128, 255, 127, 127, 128, 255]
    );
    let empty = GlesImageRenderer::new(0, 5);
    empty.fill_gradient(&mut buf);
    assert!(buf.is_empty());
}

#[test]
fn exited_terminals_are_forgotten() {
    let mut t: TerminalManager<u8> = TerminalManager::new();
    let a = t.spawn_terminal("a", Some(1)).unwrap();
    let b = t.spawn_terminal("b", Some(2)).unwrap();
    let c = t.spawn_terminal("c", Some(3)).unwrap();
    let gone = t.cleanup_finished_terminals(vec![
        (a, ProcessStatus::Exited),
        (b, ProcessStatus::Unknown),
        (c, ProcessStatus::Running),
        (a, ProcessStatus::Exited),
        (99, ProcessStatus::Exited),
    ]);
    assert_eq!(gone, vec![a]);
    let mut left = t.list_terminals();
    left.sort();
    assert_eq!(left, vec![b, c]);
}
