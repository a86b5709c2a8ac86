use tilewm::client::Client;
use tilewm::client::Command;
use tilewm::client::ConfigureRequestEvent;
use tilewm::client::FrameInputs;
use tilewm::client::ScreenInfo;
use tilewm::client::WindowAttrs;
use tilewm::client::WindowGeom;
use tilewm::geom::RootParams;
use tilewm::visual::VisualQuery;
use tilewm::wm::MapRequestEvent;
use tilewm::wm::UnmapNotifyEvent;
use tilewm::layout::ActiveLayout;
use tilewm::layout::Spiral;
use tilewm::wm::KeyPressEvent;
use tilewm::wm::WindowManager;

const ROOT: u32 = 99;

fn screen() -> ScreenInfo {
    ScreenInfo { root: ROOT, root_depth: 24, root_visual: 7 }
}

fn inputs(window: u32, frame_id: u32) -> FrameInputs {
    FrameInputs {
        frame_id,
        colormap_id: frame_id + 1,
        opacity_atom: 300,
        attrs: WindowAttrs { override_redirect: false, viewable: true, visual: 7 },
        geometry: WindowGeom { x: 5, y: 6, width: 10, height: 12, depth: 24 },
        visuals: VisualQuery {
            has_render: false,
            formats: Vec::new(),
            visuals: Vec::new(),
            fallback_depth: 24,
            fallback_visual: 7,
        },
    }
}

fn manager() -> Box<WindowManager> {
    WindowManager::new(vec![screen()], RootParams { width: 1200, height: 800 })
}

/// The (x, y, width, height) a reflow assigned to `frame`, if any.
fn assigned_geom(cmds: &[Command], frame: u32) -> Option<(i32, i32, u32, u32)> {
    for c in cmds {
        if let Command::ConfigureWindow { window, x: Some(x), y: Some(y), width: Some(w), height: Some(h), .. } = c {
            if *window == frame {
                return Some((*x, *y, *w, *h));
            }
        }
    }
    None
}

// Scenario: zero clients, root 1200x800, master-stack. Three map requests
// arrive; after each, the reflow sizes every mapped frame per the layout.
#[test]
fn master_stack_scenario_three_map_requests() {
    let mut wm = manager();
    let (f1, f2, f3) = (1001, 1002, 1003);

    let mut cmds = Vec::new();
    wm.on_map_request(&MapRequestEvent { window: 1, parent: ROOT }, &inputs(1, f1), &mut cmds);
    assert_eq!(assigned_geom(&cmds, f1), Some((0, 0, 1200, 800)));

    let mut cmds = Vec::new();
    wm.on_map_request(&MapRequestEvent { window: 2, parent: ROOT }, &inputs(2, f2), &mut cmds);
    assert_eq!(assigned_geom(&cmds, f1), Some((0, 0, 800, 800)));
    assert_eq!(assigned_geom(&cmds, f2), Some((800, 0, 400, 800)));

    let mut cmds = Vec::new();
    wm.on_map_request(&MapRequestEvent { window: 3, parent: ROOT }, &inputs(3, f3), &mut cmds);
    assert_eq!(assigned_geom(&cmds, f1), Some((0, 0, 800, 800)));
    assert_eq!(assigned_geom(&cmds, f2), Some((800, 0, 400, 400)));
    assert_eq!(assigned_geom(&cmds, f3), Some((800, 400, 400, 400)));
}

// The same dispatch drives the spiral variant: successive map requests
// halve the remaining space in alternating axes.
#[test]
fn spiral_scenario_three_map_requests() {
    let mut wm = WindowManager {
        screens: vec![screen()],
        clients: Vec::new(),
        layout: ActiveLayout::Spiral(*Spiral::new(RootParams { width: 1200, height: 800 })),
    };
    let (f1, f2, f3) = (1001, 1002, 1003);

    let mut cmds = Vec::new();
    wm.on_map_request(&MapRequestEvent { window: 1, parent: ROOT }, &inputs(1, f1), &mut cmds);
    assert_eq!(assigned_geom(&cmds, f1), Some((0, 0, 1200, 800)));

    let mut cmds = Vec::new();
    wm.on_map_request(&MapRequestEvent { window: 2, parent: ROOT }, &inputs(2, f2), &mut cmds);
    assert_eq!(assigned_geom(&cmds, f1), Some((0, 0, 600, 800)));
    assert_eq!(assigned_geom(&cmds, f2), Some((600, 0, 600, 800)));

    let mut cmds = Vec::new();
    wm.on_map_request(&MapRequestEvent { window: 3, parent: ROOT }, &inputs(3, f3), &mut cmds);
    assert_eq!(assigned_geom(&cmds, f1), Some((0, 0, 600, 800)));
    assert_eq!(assigned_geom(&cmds, f2), Some((600, 0, 600, 400)));
    assert_eq!(assigned_geom(&cmds, f3), Some((600, 400, 600, 400)));
}

#[test]
fn map_request_frames_maps_and_grabs() {
    let mut wm = manager();
    let mut cmds = Vec::new();
    wm.on_map_request(&MapRequestEvent { window: 1, parent: ROOT }, &inputs(1, 1001), &mut cmds);
    // Framing sequence present, in order: opacity property, colormap, frame
    // window, save-set insertion, frame map, reparent; then the double map;
    // the reflow; and last the key grab on the new frame.
    assert!(matches!(cmds[0], Command::ChangeProperty32 { window: 1, property: 300, value: 0xffffffff }));
    assert!(matches!(cmds[1], Command::CreateColormap { colormap: 1002, window: 1, visual: 7 }));
    assert!(matches!(
        cmds[2],
        Command::CreateWindow { depth: 24, window: 1001, parent: ROOT, x: 5, y: 6, width: 10, height: 12, visual: 7, .. }
    ));
    assert!(matches!(cmds[3], Command::ChangeSaveSet { insert: true, window: 1 }));
    assert!(matches!(cmds[4], Command::MapWindow { window: 1001 }));
    assert!(matches!(cmds[5], Command::ReparentWindow { window: 1, parent: 1001, x: 0, y: 0 }));
    assert!(matches!(cmds[6], Command::MapWindow { window: 1001 }));
    assert!(matches!(cmds[7], Command::MapWindow { window: 1 }));
    assert!(matches!(cmds.last(), Some(Command::GrabKey { window: 1001, modifiers: 0x40, keycode: 0x26 })));
    assert_eq!(wm.clients.len(), 1);
    assert_eq!(wm.clients[0].windowid, 1);
    assert_eq!(wm.clients[0].frameid, Some(1001));
    assert!(wm.clients[0].mapped);
}

// An unmap notification whose reported event window equals a screen root is
// ignored entirely: no requests, registry and layout unchanged.
#[test]
fn unmap_notify_on_root_is_ignored() {
    let mut wm = manager();
    let mut cmds = Vec::new();
    wm.on_map_request(&MapRequestEvent { window: 1, parent: ROOT }, &inputs(1, 1001), &mut cmds);

    let mut cmds = Vec::new();
    wm.on_unmap_notify(&UnmapNotifyEvent { window: 1, event: ROOT }, &mut cmds);
    assert!(cmds.is_empty());
    assert!(wm.clients[0].mapped);
    assert_eq!(wm.clients[0].frameid, Some(1001));

    // The same unmap, reported on the window itself, acts.
    let mut cmds = Vec::new();
    wm.on_unmap_notify(&UnmapNotifyEvent { window: 1, event: 1 }, &mut cmds);
    assert_eq!(
        cmds,
        vec![
            Command::ReparentWindow { window: 1, parent: ROOT, x: 0, y: 0 },
            Command::UnmapWindow { window: 1001 },
            Command::ChangeSaveSet { insert: false, window: 1 },
            Command::DestroyWindow { window: 1001 },
        ]
    );
    assert!(!wm.clients[0].mapped);
    assert_eq!(wm.clients[0].frameid, None);
}

#[test]
fn unmap_notify_for_unknown_window_does_nothing() {
    let mut wm = manager();
    let mut cmds = Vec::new();
    wm.on_unmap_notify(&UnmapNotifyEvent { window: 55, event: 55 }, &mut cmds);
    assert!(cmds.is_empty());
    assert!(wm.clients.is_empty());
}

// A pre-existing window with override-redirect set is never framed at
// startup: no frame creation, no save-set insertion, no layout slot.
#[test]
fn adopt_refuses_override_redirect() {
    let mut wm = manager();
    let mut inp = inputs(1, 1001);
    inp.attrs.override_redirect = true;
    let mut cmds = Vec::new();
    let framed = wm.adopt_window(1, 0, &inp, &mut cmds);
    assert!(!framed);
    assert!(cmds.is_empty());
    assert_eq!(wm.clients.len(), 1);
    assert_eq!(wm.clients[0].frameid, None);
}

// A pre-existing, currently-unmapped window is never framed at startup; the
// same window, explicitly mapped later, goes through a normal frame-and-map
// sequence via its map request.
#[test]
fn adopt_refuses_unmapped_then_maps_on_request() {
    let mut wm = manager();
    let mut inp = inputs(1, 1001);
    inp.attrs.viewable = false;
    let mut cmds = Vec::new();
    let framed = wm.adopt_window(1, 0, &inp, &mut cmds);
    assert!(!framed);
    assert!(cmds.is_empty());
    assert_eq!(wm.clients.len(), 1);
    assert_eq!(wm.clients[0].frameid, None);

    // Later the window maps itself: a normal framing sequence follows.
    let mut cmds = Vec::new();
    wm.on_map_request(&MapRequestEvent { window: 1, parent: ROOT }, &inputs(1, 2001), &mut cmds);
    assert_eq!(wm.clients.len(), 1);
    assert_eq!(wm.clients[0].frameid, Some(2001));
    assert!(wm.clients[0].mapped);
    assert!(matches!(cmds[2], Command::CreateWindow { window: 2001, .. }));
    assert_eq!(assigned_geom(&cmds, 2001), Some((0, 0, 1200, 800)));
}

// A viewable pre-existing window is adopted: framed, mapped, key grabbed.
#[test]
fn adopt_frames_viewable_window() {
    let mut wm = manager();
    let mut cmds = Vec::new();
    let framed = wm.adopt_window(1, 0, &inputs(1, 1001), &mut cmds);
    assert!(framed);
    assert_eq!(wm.clients.len(), 1);
    assert_eq!(wm.clients[0].frameid, Some(1001));
    assert!(matches!(cmds[4], Command::MapWindow { window: 1001 }));
    assert!(matches!(cmds.last(), Some(Command::GrabKey { window: 1001, modifiers: 0x40, keycode: 0x26 })));
}

// A configure request for a tiled (non-floating) client has its geometry
// stripped; only the border width passes through, and the acknowledgment
// carries the cached frame size.
#[test]
fn configure_request_strips_geometry_for_tiled_client() {
    let mut wm = manager();
    let mut cmds = Vec::new();
    wm.on_map_request(&MapRequestEvent { window: 1, parent: ROOT }, &inputs(1, 1001), &mut cmds);

    let ev = ConfigureRequestEvent {
        window: 1,
        parent: ROOT,
        x: 40,
        y: 50,
        width: 640,
        height: 480,
        border_width: 3,
        sibling: 77,
        stack_mode: 1,
        value_mask: 0x7f,
    };
    let mut cmds = Vec::new();
    wm.on_configure_request(&ev, &mut cmds);
    assert_eq!(
        cmds,
        vec![
            Command::ConfigureWindow {
                window: 1,
                x: None,
                y: None,
                width: None,
                height: None,
                border_width: Some(3),
                sibling: None,
                stack_mode: None,
            },
            Command::SendConfigureNotify { window: 1, above_sibling: 1001, width: 10, height: 12 },
        ]
    );
}

// A configure request for an unknown window registers a client first and
// acknowledges with zeroed frame dimensions.
#[test]
fn configure_request_for_unknown_window_creates_client() {
    let mut wm = manager();
    let ev = ConfigureRequestEvent {
        window: 8,
        parent: ROOT,
        x: 1,
        y: 2,
        width: 30,
        height: 40,
        border_width: 0,
        sibling: 0,
        stack_mode: 0,
        value_mask: 0xf,
    };
    let mut cmds = Vec::new();
    wm.on_configure_request(&ev, &mut cmds);
    assert_eq!(wm.clients.len(), 1);
    assert_eq!(wm.clients[0].windowid, 8);
    assert!(!wm.clients[0].mapped);
    assert_eq!(
        cmds,
        vec![
            Command::ConfigureWindow {
                window: 8,
                x: None,
                y: None,
                width: None,
                height: None,
                border_width: None,
                sibling: None,
                stack_mode: None,
            },
            Command::SendConfigureNotify { window: 8, above_sibling: 0, width: 0, height: 0 },
        ]
    );
}

#[test]
fn key_press_spawns_launcher() {
    let wm = manager();
    let mut cmds = Vec::new();
    wm.on_key_press(&KeyPressEvent { detail: 0x26, state: 0x40 }, &mut cmds);
    assert_eq!(cmds, vec![Command::SpawnLauncher]);
}

// The root grab uses the key code the keycode table gives for the "A" key
// position; a wrong or echoed-back code would fail here.
#[test]
fn root_grab_uses_us_a_scan_code() {
    let wm = manager();
    let mut cmds = Vec::new();
    wm.grab_root_key(0, &mut cmds);
    assert_eq!(cmds, vec![Command::GrabKey { window: ROOT, modifiers: 0x40, keycode: 0x26 }]);
}

#[test]
fn screen_event_selection_targets_root() {
    let wm = manager();
    let mut cmds = Vec::new();
    wm.select_screen_events(0, &mut cmds);
    assert_eq!(
        cmds,
        vec![Command::ChangeAttributes { window: ROOT, event_mask: 0x100000 | 0x80000 }]
    );
}

// unframe on an already-unmapped client is a no-op: no requests, no state
// change.
#[test]
fn unframe_unmapped_client_is_noop() {
    let mut c = *Client::new(42, screen());
    let mut cmds = Vec::new();
    c.unframe(&mut cmds);
    assert!(cmds.is_empty());
    assert_eq!(c.windowid, 42);
    assert_eq!(c.frameid, None);
    assert!(!c.mapped);
}
