use tilewm::client::Client;
use tilewm::client::Command;
use tilewm::client::ConfigureRequestEvent;
use tilewm::client::FrameInputs;
use tilewm::client::ScreenInfo;
use tilewm::client::WindowAttrs;
use tilewm::client::WindowGeom;
use tilewm::geom::Geom;
use tilewm::visual::FormatVisual;
use tilewm::visual::PictFormatInfo;
use tilewm::visual::VisualQuery;

const ROOT: u32 = 99;

fn screen() -> ScreenInfo {
    ScreenInfo { root: ROOT, root_depth: 24, root_visual: 7 }
}

fn argb32(id: u32) -> PictFormatInfo {
    PictFormatInfo {
        id,
        is_direct: true,
        depth: 32,
        red_shift: 16,
        red_mask: 0xff,
        green_shift: 8,
        green_mask: 0xff,
        blue_shift: 0,
        blue_mask: 0xff,
        alpha_shift: 24,
        alpha_mask: 0xff,
    }
}

fn inputs(depth: u8, has_render: bool) -> FrameInputs {
    FrameInputs {
        frame_id: 501,
        colormap_id: 502,
        opacity_atom: 300,
        attrs: WindowAttrs { override_redirect: false, viewable: true, visual: 7 },
        geometry: WindowGeom { x: 5, y: 6, width: 10, height: 12, depth },
        visuals: VisualQuery {
            has_render,
            formats: vec![argb32(9)],
            visuals: vec![FormatVisual { visual: 200, format: 9 }],
            fallback_depth: 24,
            fallback_visual: 7,
        },
    }
}

// A pre-existing window with override-redirect is refused by frame(true):
// it returns false and emits nothing, leaving the client untouched.
#[test]
fn frame_refuses_preexisting_override_redirect() {
    let mut c = *Client::new(1, screen());
    let mut inp = inputs(24, false);
    inp.attrs.override_redirect = true;
    let mut cmds = Vec::new();
    assert!(!c.frame(true, &inp, &mut cmds));
    assert!(cmds.is_empty());
    assert_eq!(c.frameid, None);
    assert_eq!(c.colormap, 0);
}

// The same attributes are no obstacle for a fresh mapping.
#[test]
fn frame_accepts_override_redirect_when_not_preexisting() {
    let mut c = *Client::new(1, screen());
    let mut inp = inputs(24, false);
    inp.attrs.override_redirect = true;
    let mut cmds = Vec::new();
    assert!(c.frame(false, &inp, &mut cmds));
    assert_eq!(c.frameid, Some(501));
}

// A legacy 24-bit-depth window keeps its own visual for colormap and frame.
#[test]
fn frame_keeps_own_visual_at_legacy_depth() {
    let mut c = *Client::new(1, screen());
    let mut cmds = Vec::new();
    assert!(c.frame(false, &inputs(24, true), &mut cmds));
    assert!(matches!(cmds[1], Command::CreateColormap { colormap: 502, window: 1, visual: 7 }));
    assert!(matches!(cmds[2], Command::CreateWindow { depth: 24, visual: 7, .. }));
}

// Any other depth prefers the discovered 32-bit alpha visual.
#[test]
fn frame_prefers_alpha_visual_at_other_depths() {
    let mut c = *Client::new(1, screen());
    let mut cmds = Vec::new();
    assert!(c.frame(false, &inputs(32, true), &mut cmds));
    assert!(matches!(cmds[1], Command::CreateColormap { colormap: 502, window: 1, visual: 200 }));
    assert!(matches!(cmds[2], Command::CreateWindow { depth: 32, visual: 200, .. }));
    // The client window, not the frame, enters the save-set.
    assert!(matches!(cmds[3], Command::ChangeSaveSet { insert: true, window: 1 }));
    assert!(matches!(cmds[4], Command::MapWindow { window: 501 }));
    assert!(matches!(cmds[5], Command::ReparentWindow { window: 1, parent: 501, x: 0, y: 0 }));
}

#[test]
fn frame_records_geometry() {
    let mut c = *Client::new(1, screen());
    let mut cmds = Vec::new();
    assert!(c.frame(false, &inputs(24, false), &mut cmds));
    assert_eq!(c.frameid, Some(501));
    assert_eq!((c.x, c.y), (5, 6));
    assert_eq!((c.framewidth, c.frameheight), (10, 12));
    assert!(!c.mapped, "frame alone does not record the client as mapped");
}

#[test]
fn map_and_frame_records_mapped() {
    let mut c = *Client::new(1, screen());
    let mut cmds = Vec::new();
    c.map_and_frame(&inputs(24, false), &mut cmds);
    assert!(c.mapped);
    let n = cmds.len();
    assert!(matches!(cmds[n - 2], Command::MapWindow { window: 501 }));
    assert!(matches!(cmds[n - 1], Command::MapWindow { window: 1 }));
}

#[test]
fn map_emits_both_maps_without_reframing() {
    let mut c = *Client::new(1, screen());
    let mut cmds = Vec::new();
    c.map_and_frame(&inputs(24, false), &mut cmds);
    let mut cmds = Vec::new();
    c.map(&mut cmds);
    assert_eq!(
        cmds,
        vec![Command::MapWindow { window: 501 }, Command::MapWindow { window: 1 }]
    );
}

#[test]
fn unframe_tears_down_mapped_client() {
    let mut c = *Client::new(1, screen());
    let mut cmds = Vec::new();
    c.map_and_frame(&inputs(24, false), &mut cmds);
    let mut cmds = Vec::new();
    c.unframe(&mut cmds);
    assert_eq!(
        cmds,
        vec![
            Command::ReparentWindow { window: 1, parent: ROOT, x: 0, y: 0 },
            Command::UnmapWindow { window: 501 },
            Command::ChangeSaveSet { insert: false, window: 1 },
            Command::DestroyWindow { window: 501 },
        ]
    );
    assert!(!c.mapped);
    assert_eq!(c.frameid, None);
    assert_eq!((c.x, c.y, c.framewidth, c.frameheight), (0, 0, 0, 0));
}

// A floating client's configure request is honored, except that sibling and
// stack mode are always cleared.
#[test]
fn configure_honors_geometry_for_floating_client() {
    let mut c = *Client::new(1, screen());
    c.floating = true;
    let ev = ConfigureRequestEvent {
        window: 1,
        parent: ROOT,
        x: 40,
        y: 50,
        width: 640,
        height: 480,
        border_width: 3,
        sibling: 77,
        stack_mode: 1,
        value_mask: 0x7f,
    };
    let mut cmds = Vec::new();
    c.configure(&ev, &mut cmds);
    assert_eq!(
        cmds[0],
        Command::ConfigureWindow {
            window: 1,
            x: Some(40),
            y: Some(50),
            width: Some(640),
            height: Some(480),
            border_width: Some(3),
            sibling: None,
            stack_mode: None,
        }
    );
}

// Fields absent from the request's value mask are never applied, floating or
// not.
#[test]
fn configure_applies_only_masked_fields() {
    let mut c = *Client::new(1, screen());
    c.floating = true;
    let ev = ConfigureRequestEvent {
        window: 1,
        parent: ROOT,
        x: 40,
        y: 50,
        width: 640,
        height: 480,
        border_width: 3,
        sibling: 0,
        stack_mode: 0,
        value_mask: 0x5, // only x and width
    };
    let mut cmds = Vec::new();
    c.configure(&ev, &mut cmds);
    assert_eq!(
        cmds[0],
        Command::ConfigureWindow {
            window: 1,
            x: Some(40),
            y: None,
            width: Some(640),
            height: None,
            border_width: None,
            sibling: None,
            stack_mode: None,
        }
    );
}

// move_resize positions and sizes the frame, resizes the client in place,
// and acknowledges with the new dimensions.
#[test]
fn move_resize_emits_three_requests() {
    let mut c = *Client::new(1, screen());
    let mut cmds = Vec::new();
    c.map_and_frame(&inputs(24, false), &mut cmds);
    let mut cmds = Vec::new();
    c.move_resize(Geom { width: 800, height: 600, x: 100, y: 200 }, &mut cmds);
    assert_eq!(
        cmds,
        vec![
            Command::ConfigureWindow {
                window: 501,
                x: Some(100),
                y: Some(200),
                width: Some(800),
                height: Some(600),
                border_width: None,
                sibling: None,
                stack_mode: None,
            },
            Command::ConfigureWindow {
                window: 1,
                x: None,
                y: None,
                width: Some(800),
                height: Some(600),
                border_width: None,
                sibling: None,
                stack_mode: None,
            },
            Command::SendConfigureNotify { window: 1, above_sibling: 501, width: 800, height: 600 },
        ]
    );
}

#[test]
fn set_screen_and_get_frameid() {
    let mut c = *Client::new(1, screen());
    let other = ScreenInfo { root: 123, root_depth: 24, root_visual: 9 };
    c.set_screen(other);
    assert_eq!(c.screen, Some(other));
    let mut cmds = Vec::new();
    c.map_and_frame(&inputs(24, false), &mut cmds);
    assert_eq!(c.get_frameid(), 501);
}

#[test]
fn default_client_is_blank() {
    let c = Client::default();
    assert_eq!(c.windowid, 0);
    assert_eq!(c.frameid, None);
    assert!(!c.mapped);
    assert!(!c.floating);
    assert_eq!(c.screen, None);
}
