use rustos::cosmic::{
    cosmic_create_window, cosmic_get_compositor, cosmic_init, cosmic_is_session_active,
    cosmic_process_events, cosmic_render_frame, cosmic_show_notification,
    cosmic_switch_workspace, cosmic_toggle_launcher, decide, BackgroundMode, CosmicCompositor,
    CosmicError, CosmicShell, DesktopAction, NotificationUrgency, PanelPosition, Session,
};
use rustos::graphics::{graphics_get_stats, GraphicsError};
use rustos::input::{InputEvent, InputEventType, KeyCode, MouseButton};
use rustos::memory::PageAllocator;
use rustos::wayland::protocol::{COSMIC_SHELL_INTERFACE, WL_SURFACE_INTERFACE};
use rustos::wayland::{
    create_cosmic_buffer, create_cosmic_surface, wayland_accept_client, wayland_create_socket,
    wayland_dispatch_events, wayland_flush_clients, wayland_get_display, wayland_init,
    WaylandBuffer, WaylandDisplay, WaylandError, WaylandSurface,
};

fn empty_session() -> Session {
    Session { display: None, graphics: None, input: None }
}

struct Desktop {
    slot: Option<CosmicCompositor>,
    session: Session,
    pages: PageAllocator,
}

fn started_desktop() -> Desktop {
    let mut d = Desktop { slot: None, session: empty_session(), pages: PageAllocator::new() };
    cosmic_init(&mut d.slot, &mut d.session, &mut d.pages, 320, 200).expect("start the desktop");
    d
}

#[test]
fn test_cosmic_initialization() {
    let mut slot = None;
    let mut session = empty_session();
    let mut pages = PageAllocator::new();
    assert!(!cosmic_is_session_active(&slot));
    assert!(cosmic_get_compositor(&mut slot).is_none());
    cosmic_init(&mut slot, &mut session, &mut pages, 1920, 1080).expect("initialize");
    assert!(cosmic_is_session_active(&slot));
    assert!(cosmic_get_compositor(&mut slot).is_some());
    assert_eq!(
        cosmic_init(&mut slot, &mut session, &mut pages, 1920, 1080),
        Err(CosmicError::CompositorNotInitialized)
    );
    let compositor = slot.as_ref().unwrap();
    assert_eq!((compositor.display_width, compositor.display_height), (1920, 1080));
    assert!(session.display.is_some());
    assert!(session.input.is_some());
    let fb = session.graphics.as_ref().unwrap().get_framebuffer().unwrap();
    assert_eq!((fb.get_width(), fb.get_height(), fb.get_stride()), (1920, 1080, 7680));
    assert_eq!(fb.get_buffer_ptr(), 0x6000_0000);
    assert_eq!(pages.allocate(1), Ok(0x6000_0000 + 1920 * 1080 * 4));
}

#[test]
fn a_started_session_is_furnished() {
    let d = started_desktop();
    let shell = d.slot.as_ref().unwrap().get_shell();
    assert_eq!(shell.active_workspace, Some(1));
    assert_eq!(shell.workspaces.len(), 1);
    let workspace = shell.get_active_workspace().unwrap();
    assert_eq!(workspace.id, 1);
    assert_eq!(workspace.name, "Workspace 1");
    assert!(workspace.windows.is_empty());
    assert_eq!(workspace.active_window, None);
    let background = workspace.background.as_ref().unwrap();
    assert_eq!(background.color, 0x2D2D2D);
    assert_eq!(background.mode, BackgroundMode::Color);
    assert!(background.image_path.is_none());
    let panel = shell.panel.as_ref().unwrap();
    assert_eq!((panel.id, panel.height, panel.position), (1, 32, PanelPosition::Top));
    assert!(panel.applets.is_empty());
    let launcher = shell.launcher.as_ref().unwrap();
    assert!(!launcher.visible);
    let apps: Vec<(u32, &str, &str, Option<&str>)> = launcher
        .applications
        .iter()
        .map(|a| (a.id, a.name, a.command, a.icon))
        .collect();
    assert_eq!(
        apps,
        vec![
            (1, "Terminal", "cosmic-term", Some("terminal")),
            (2, "Files", "cosmic-files", Some("folder")),
            (3, "Settings", "cosmic-settings", Some("preferences-system")),
            (4, "Text Editor", "cosmic-edit", Some("text-editor")),
            (5, "List Files (ls)", "ls", Some("folder-open")),
            (6, "Show Directory (pwd)", "pwd", Some("folder")),
        ]
    );
    assert!(shell.notifications.is_empty());
}

#[test]
fn a_session_does_not_start_twice_on_the_same_parts() {
    let mut pages = PageAllocator::new();
    let mut session = empty_session();
    let mut first = CosmicCompositor::new(64, 64);
    assert_eq!(first.initialize(&mut session, &mut pages), Ok(()));
    let mut second = CosmicCompositor::new(64, 64);
    assert_eq!(
        second.initialize(&mut session, &mut pages),
        Err(CosmicError::WaylandError(WaylandError::ProtocolError))
    );
    assert!(!second.session_active);
    session.display = None;
    assert_eq!(
        second.initialize(&mut session, &mut pages),
        Err(CosmicError::GraphicsError(GraphicsError::InvalidFramebuffer))
    );
    session.display = None;
    session.graphics = None;
    assert_eq!(
        second.initialize(&mut session, &mut pages),
        Err(CosmicError::CompositorNotInitialized)
    );
    let mut fresh = empty_session();
    let mut flat = CosmicCompositor::new(0, 64);
    assert_eq!(
        flat.initialize(&mut fresh, &mut pages),
        Err(CosmicError::GraphicsError(GraphicsError::InvalidDimensions))
    );
    assert!(flat.get_shell().workspaces.is_empty());
    assert!(fresh.display.is_some());
    assert!(fresh.input.is_none());
}

#[test]
fn test_window_management() {
    let mut d = started_desktop();
    let window1 = cosmic_create_window(&mut d.slot, &mut d.session, "Terminal", 800, 600).unwrap();
    let window2 =
        cosmic_create_window(&mut d.slot, &mut d.session, "File Manager", 600, 400).unwrap();
    let window3 = cosmic_create_window(&mut d.slot, &mut d.session, "Settings", 500, 350).unwrap();
    assert_eq!((window1, window2, window3), (1, 2, 3));
    assert_eq!(graphics_get_stats(&d.session.graphics), (3, 3));
    let workspace = d.slot.as_ref().unwrap().get_shell().get_active_workspace().unwrap();
    assert_eq!(workspace.windows, vec![1, 2, 3]);
    assert_eq!(workspace.active_window, Some(1));
    let graphics = d.session.graphics.as_mut().unwrap();
    assert_eq!(graphics.get_window_mut(2).unwrap().get_bounds(), (100, 100, 600, 400));
    let mut none = None;
    assert_eq!(
        cosmic_create_window(&mut none, &mut d.session, "x", 1, 1),
        Err(CosmicError::CompositorNotInitialized)
    );
}

#[test]
fn test_workspace_functionality() {
    let mut d = started_desktop();
    {
        let shell = cosmic_get_compositor(&mut d.slot).unwrap().get_shell_mut();
        assert_eq!(shell.create_workspace("Second".to_string()), Ok(2));
        assert_eq!(shell.active_workspace, Some(1));
        assert_eq!(shell.add_window_to_workspace(2, 77), Ok(()));
        assert_eq!(shell.add_window_to_workspace(2, 78), Ok(()));
        assert_eq!(
            shell.add_window_to_workspace(3, 79),
            Err(CosmicError::InvalidConfiguration)
        );
        assert_eq!(shell.workspaces[&2].windows, vec![77, 78]);
        assert_eq!(shell.workspaces[&2].active_window, Some(77));
        assert_eq!(shell.workspaces[&2].name, "Second");
    }
    assert_eq!(cosmic_switch_workspace(&mut d.slot, 2), Ok(()));
    assert_eq!(d.slot.as_ref().unwrap().get_shell().active_workspace, Some(2));
    assert_eq!(
        cosmic_switch_workspace(&mut d.slot, 9),
        Err(CosmicError::InvalidConfiguration)
    );
    assert_eq!(d.slot.as_ref().unwrap().get_shell().active_workspace, Some(2));
    let shell = cosmic_get_compositor(&mut d.slot).unwrap().get_shell_mut();
    shell.get_active_workspace_mut().unwrap().active_window = Some(78);
    assert_eq!(shell.get_active_workspace().unwrap().active_window, Some(78));
    let mut none = None;
    assert_eq!(
        cosmic_switch_workspace(&mut none, 1),
        Err(CosmicError::CompositorNotInitialized)
    );
}

#[test]
fn a_bare_shell() {
    let mut shell = CosmicShell::new();
    assert!(shell.get_active_workspace().is_none());
    assert!(shell.get_active_workspace_mut().is_none());
    assert_eq!(shell.toggle_launcher(), Err(CosmicError::InvalidConfiguration));
    assert_eq!(shell.switch_workspace(1), Err(CosmicError::InvalidConfiguration));
    assert_eq!(shell.create_panel(48, PanelPosition::Bottom), Ok(1));
    assert_eq!(shell.panel.as_ref().unwrap().height, 48);
    assert_eq!(shell.create_launcher(), Ok(()));
    assert_eq!(shell.toggle_launcher(), Ok(()));
    assert!(shell.launcher.as_ref().unwrap().visible);
    shell.launcher.as_mut().unwrap().search_text.push_str("term");
    assert_eq!(shell.toggle_launcher(), Ok(()));
    assert!(!shell.launcher.as_ref().unwrap().visible);
    assert_eq!(shell.launcher.as_ref().unwrap().search_text, "");
    assert_eq!(shell.create_workspace("w".to_string()), Ok(1));
    assert_eq!(shell.active_workspace, Some(1));
}

#[test]
fn test_launcher_system() {
    let mut d = started_desktop();
    assert_eq!(cosmic_toggle_launcher(&mut d.slot), Ok(()));
    {
        let launcher = d.slot.as_ref().unwrap().get_shell().launcher.as_ref().unwrap();
        assert!(launcher.visible);
        assert_eq!(launcher.applications.len(), 6);
    }
    assert_eq!(cosmic_toggle_launcher(&mut d.slot), Ok(()));
    assert!(!d.slot.as_ref().unwrap().get_shell().launcher.as_ref().unwrap().visible);
    let mut none = None;
    assert_eq!(cosmic_toggle_launcher(&mut none), Err(CosmicError::CompositorNotInitialized));
}

#[test]
fn test_notification_system() {
    let mut d = started_desktop();
    let notification1 = cosmic_show_notification(
        &mut d.slot,
        "Test Notification".into(),
        "This is a test message".into(),
        NotificationUrgency::Normal,
        10,
    )
    .unwrap();
    let notification2 = cosmic_show_notification(
        &mut d.slot,
        "Critical Alert".into(),
        "This is urgent!".into(),
        NotificationUrgency::Critical,
        11,
    )
    .unwrap();
    assert_eq!((notification1, notification2), (1, 2));
    let shell = cosmic_get_compositor(&mut d.slot).unwrap().get_shell_mut();
    assert_eq!(shell.notifications.len(), 2);
    assert_eq!(shell.notifications[1].title, "Critical Alert");
    assert_eq!(shell.notifications[1].body, "This is urgent!");
    assert_eq!(shell.notifications[1].timestamp, 11);
    assert_eq!(shell.notifications[1].urgency, NotificationUrgency::Critical);
    assert_eq!(
        shell.add_notification("c".into(), "".into(), NotificationUrgency::Low, 12),
        Ok(3)
    );
    assert_eq!(shell.remove_notification(2), Ok(()));
    let ids: Vec<u32> = shell.notifications.iter().map(|n| n.id).collect();
    assert_eq!(ids, vec![1, 3]);
    assert_eq!(
        shell.add_notification("d".into(), "".into(), NotificationUrgency::Low, 13),
        Ok(3)
    );
    assert_eq!(shell.remove_notification(3), Ok(()));
    assert_eq!(shell.remove_notification(3), Ok(()));
    let ids: Vec<u32> = shell.notifications.iter().map(|n| n.id).collect();
    assert_eq!(ids, vec![1]);
    let mut none = None;
    assert_eq!(
        cosmic_show_notification(&mut none, "".into(), "".into(), NotificationUrgency::Low, 0),
        Err(CosmicError::CompositorNotInitialized)
    );
}

#[test]
fn deciding_what_an_event_means() {
    let key = |code| InputEvent::new(InputEventType::KeyPress, code, 1, 0);
    assert_eq!(decide(key(KeyCode::Space.code()), None), DesktopAction::ToggleLauncher);
    assert_eq!(decide(key(KeyCode::Num1.code()), None), DesktopAction::SwitchWorkspace(1));
    assert_eq!(decide(key(KeyCode::Num2.code()), None), DesktopAction::SwitchWorkspace(2));
    assert_eq!(decide(key(KeyCode::Num3.code()), None), DesktopAction::Nothing);
    assert_eq!(decide(key(KeyCode::Q.code()), None), DesktopAction::Nothing);
    assert_eq!(decide(key(KeyCode::Escape.code()), Some(32)), DesktopAction::Nothing);
    assert_eq!(decide(key(200), None), DesktopAction::Nothing);
    let release = InputEvent::new(InputEventType::KeyRelease, KeyCode::Space.code(), 0, 0);
    assert_eq!(decide(release, None), DesktopAction::Nothing);
    let click = |button: u32, y| {
        InputEvent::new(InputEventType::MouseButtonPress, button, 1, 0).with_position(5, y)
    };
    assert_eq!(decide(click(0, 0), Some(32)), DesktopAction::ToggleLauncher);
    assert_eq!(decide(click(0, 31), Some(32)), DesktopAction::ToggleLauncher);
    assert_eq!(decide(click(0, 32), Some(32)), DesktopAction::FocusFirstWindow);
    assert_eq!(decide(click(0, -1), Some(32)), DesktopAction::FocusFirstWindow);
    assert_eq!(decide(click(0, 5), None), DesktopAction::FocusFirstWindow);
    assert_eq!(decide(click(0, 5), Some(0)), DesktopAction::FocusFirstWindow);
    assert_eq!(decide(click(0, 5), Some(u32::MAX)), DesktopAction::FocusFirstWindow);
    assert_eq!(decide(click(MouseButton::Right.code(), 5), Some(32)), DesktopAction::Nothing);
    assert_eq!(decide(click(3, 5), Some(32)), DesktopAction::Nothing);
    let moved = InputEvent::new(InputEventType::MouseMove, 0, 0, 0).with_position(1, 1);
    assert_eq!(decide(moved, Some(32)), DesktopAction::Nothing);
}

#[test]
fn test_event_processing() {
    let mut d = started_desktop();
    assert_eq!(cosmic_process_events(&mut d.slot, &mut d.session), Ok(()));
    cosmic_create_window(&mut d.slot, &mut d.session, "Terminal", 100, 80).unwrap();
    cosmic_get_compositor(&mut d.slot)
        .unwrap()
        .get_shell_mut()
        .create_workspace("two".to_string())
        .unwrap();
    {
        let input = d.session.input.as_mut().unwrap();
        input.inject_key_event(KeyCode::Space, true, 1).unwrap();
        input.inject_key_event(KeyCode::Space, false, 2).unwrap();
        input.inject_key_event(KeyCode::Num2, true, 3).unwrap();
        input.inject_mouse_move(40, 100, 4).unwrap();
        input.inject_mouse_button(MouseButton::Left, true, 5).unwrap();
    }
    assert_eq!(cosmic_process_events(&mut d.slot, &mut d.session), Ok(()));
    let shell = d.slot.as_ref().unwrap().get_shell();
    assert!(!shell.launcher.as_ref().unwrap().visible);
    assert_eq!(shell.active_workspace, Some(2));
    assert!(!d.session.input.as_ref().unwrap().has_events());
    assert_eq!(d.session.input.as_ref().unwrap().get_focus_window(), None);
    {
        let input = d.session.input.as_mut().unwrap();
        let click = InputEvent::new(InputEventType::MouseButtonPress, 0, 1, 6);
        input.push_event(click.with_position(40, 100)).unwrap();
        input.push_event(click.with_position(40, 10)).unwrap();
        input.inject_key_event(KeyCode::Num1, true, 7).unwrap();
    }
    assert_eq!(cosmic_process_events(&mut d.slot, &mut d.session), Ok(()));
    let shell = d.slot.as_ref().unwrap().get_shell();
    assert!(shell.launcher.as_ref().unwrap().visible);
    assert_eq!(shell.active_workspace, Some(1));
    assert_eq!(d.session.input.as_ref().unwrap().get_focus_window(), Some(1));

    assert_eq!(wayland_dispatch_events(&mut d.session.display), Ok(()));
    assert_eq!(wayland_flush_clients(&mut d.session.display), Ok(()));
    let mut none = None;
    assert_eq!(
        cosmic_process_events(&mut none, &mut d.session),
        Err(CosmicError::CompositorNotInitialized)
    );
}

#[test]
fn an_event_that_fails_stops_the_processing() {
    let mut d = started_desktop();
    d.slot.as_mut().unwrap().get_shell_mut().launcher = None;
    {
        let input = d.session.input.as_mut().unwrap();
        input.inject_key_event(KeyCode::Num1, true, 1).unwrap();
        input.inject_key_event(KeyCode::Space, true, 2).unwrap();
        input.inject_key_event(KeyCode::Q, true, 3).unwrap();
    }
    assert_eq!(
        cosmic_process_events(&mut d.slot, &mut d.session),
        Err(CosmicError::InvalidConfiguration)
    );
    assert_eq!(d.session.input.as_mut().unwrap().pop_event().unwrap().timestamp, 3);
    d.session.display = None;
    assert_eq!(
        cosmic_process_events(&mut d.slot, &mut d.session),
        Err(CosmicError::WaylandError(WaylandError::InvalidResource))
    );
}

#[test]
fn test_compositing_pipeline() {
    let mut d = started_desktop();
    cosmic_create_window(&mut d.slot, &mut d.session, "Terminal", 100, 80).unwrap();
    assert_eq!(cosmic_render_frame(&mut d.slot, &mut d.session), Ok(()));
    let fb = d.session.graphics.as_ref().unwrap().get_framebuffer().unwrap();
    assert_eq!(fb.pixel(99, 99), Some(0));
    assert_eq!(fb.pixel(100, 100), Some(0x7F7F7F));
    assert_eq!(fb.pixel(199, 131), Some(0x7F7F7F));
    assert_eq!(fb.pixel(199, 132), Some(0xFFFFFF));
    assert_eq!(fb.pixel(199, 179), Some(0xFFFFFF));
    assert_eq!(fb.pixel(199, 180), Some(0));
    assert_eq!(fb.pixel(200, 150), Some(0));
    assert_eq!(graphics_get_stats(&d.session.graphics), (1, 1));
    d.session.graphics = None;
    assert_eq!(
        cosmic_render_frame(&mut d.slot, &mut d.session),
        Err(CosmicError::GraphicsError(GraphicsError::InvalidFramebuffer))
    );
    let mut none = None;
    assert_eq!(
        cosmic_render_frame(&mut none, &mut d.session),
        Err(CosmicError::CompositorNotInitialized)
    );
}

#[test]
fn errors_convert() {
    assert_eq!(
        CosmicError::from(WaylandError::OutOfMemory),
        CosmicError::WaylandError(WaylandError::OutOfMemory)
    );
    assert_eq!(
        CosmicError::from(GraphicsError::UnsupportedFormat),
        CosmicError::GraphicsError(GraphicsError::UnsupportedFormat)
    );
}

#[test]
fn test_wayland_compatibility() {
    let mut slot: Option<WaylandDisplay> = None;
    assert_eq!(wayland_create_socket(&mut slot), Err(WaylandError::InvalidResource));
    assert_eq!(wayland_accept_client(&mut slot, 5), Err(WaylandError::InvalidResource));
    assert_eq!(wayland_dispatch_events(&mut slot), Err(WaylandError::InvalidResource));
    assert_eq!(wayland_flush_clients(&mut slot), Err(WaylandError::InvalidResource));
    assert_eq!(create_cosmic_surface(&mut slot, 1, 10, 10), Err(WaylandError::InvalidResource));
    assert_eq!(wayland_init(&mut slot), Ok(()));
    assert_eq!(wayland_init(&mut slot), Err(WaylandError::ProtocolError));
    assert!(wayland_get_display(&mut slot).is_some());
    let socket_fd = wayland_create_socket(&mut slot).unwrap();
    assert!(socket_fd > 0);
    assert_eq!(socket_fd, 100);
    let client_id = wayland_accept_client(&mut slot, socket_fd + 1).unwrap();
    assert_eq!(client_id, 1);
    assert_eq!(wayland_accept_client(&mut slot, socket_fd + 2), Ok(2));
    assert_eq!(create_cosmic_surface(&mut slot, 1, 10, 10), Ok(1));
    assert_eq!(create_cosmic_surface(&mut slot, 1, 10, 10), Ok(2));
    assert_eq!(create_cosmic_surface(&mut slot, 2, 10, 10), Ok(1));
    assert_eq!(create_cosmic_surface(&mut slot, 3, 10, 10), Err(WaylandError::InvalidResource));
    let display = wayland_get_display(&mut slot).unwrap();
    let client = display.get_client_mut(1).unwrap();
    let object = client.get_object(2).unwrap();
    assert_eq!((object.id(), object.interface(), object.version()), (2, WL_SURFACE_INTERFACE, 1));
    assert_eq!(client.create_object(COSMIC_SHELL_INTERFACE, 3), Ok(3));
    client.get_object_mut(3).unwrap().set_data(0x1000);
    assert_eq!(client.get_object(3).unwrap().interface(), "cosmic_shell");
    assert!(client.get_object(4).is_none());
    assert!(client.get_object_mut(4).is_none());
    assert_eq!(client.remove_object(1), Ok(()));
    assert_eq!(client.remove_object(1), Ok(()));
    assert!(client.get_object(1).is_none());
    assert_eq!(client.create_object(WL_SURFACE_INTERFACE, 1), Ok(4));
    assert_eq!(display.remove_client(1), Ok(()));
    assert!(display.get_client_mut(1).is_none());
    assert!(display.get_client_mut(2).is_some());
    assert_eq!(display.accept_client(9), Ok(3));
    assert_eq!(display.dispatch_events(), Ok(()));
    assert_eq!(display.flush_clients(), Ok(()));
}

#[test]
fn protocol_surfaces_and_buffers() {
    let mut surface = WaylandSurface::new(4);
    assert_eq!(surface.attach_buffer(9), Ok(()));
    assert_eq!(surface.commit(), Ok(()));
    surface.set_size(30, 40);
    let mut pages = PageAllocator::new();
    let buffer = WaylandBuffer::new(&mut pages, 7, 100, 50, 400, 1).unwrap();
    assert_eq!(buffer.id(), 7);
    assert_eq!(buffer.get_size(), 20000);
    assert_eq!(buffer.get_data_ptr(), 0x6000_0000);
    let second = WaylandBuffer::new(&mut pages, 8, 1, 1, 1, 0).unwrap();
    assert_eq!(second.get_data_ptr(), 0x6000_5000);
    assert_eq!(second.get_size(), 1);
    assert_eq!(
        WaylandBuffer::new(&mut pages, 9, 1, 0x10000, 0x10000, 0).err(),
        Some(WaylandError::OutOfMemory)
    );
    assert_eq!(
        WaylandBuffer::new(&mut pages, 9, 1, 0, 4, 0).err(),
        Some(WaylandError::OutOfMemory)
    );
    assert_eq!(create_cosmic_buffer(&mut pages, 16, 16, 0), Ok(1));
    assert_eq!(create_cosmic_buffer(&mut pages, 16, 16, 0), Ok(1));
    assert_eq!(create_cosmic_buffer(&mut pages, 0x4000_0000, 1, 0), Err(WaylandError::OutOfMemory));
    assert_eq!(create_cosmic_buffer(&mut pages, 0, 1, 0), Err(WaylandError::OutOfMemory));
    assert_eq!(pages.allocate(1), Ok(0x6000_8000));
}

#[test]
fn a_used_up_counter_is_a_session_error() {
    let mut shell = CosmicShell::new();
    shell.next_workspace_id = u32::MAX;
    assert_eq!(shell.create_workspace("w".to_string()), Err(CosmicError::SessionManagerError));
    assert!(shell.workspaces.is_empty());
    let mut pages = PageAllocator::new();
    let mut session = empty_session();
    let mut compositor = CosmicCompositor::new(16, 16);
    compositor.get_shell_mut().next_workspace_id = u32::MAX;
    assert_eq!(
        compositor.initialize(&mut session, &mut pages),
        Err(CosmicError::SessionManagerError)
    );
    assert!(!compositor.session_active);
    assert!(compositor.get_shell().panel.is_none());
}
