//! Per-window client state and the protocol actions that move a window
//! through its lifecycle: frame, map, configure, move/resize, unframe.
//!
//! Every display-protocol effect is emitted as a [`Command`] value appended
//! to a caller-supplied buffer; an unverified transport performs the actual
//! requests. Query results (window attributes, geometry, fresh resource
//! identifiers, visual discovery) are handed in as plain values in
//! [`FrameInputs`].

use vstd::prelude::*;

use crate::geom::Geom;
use crate::visual::VisualQuery;
use crate::visual::choose_visual;
use crate::visual::chosen_visual;

verus! {

// Event-mask bits of the display protocol's event encoding.
pub const EVENT_MASK_BUTTON_PRESS: u32 = 0x4;

pub const EVENT_MASK_ENTER_WINDOW: u32 = 0x10;

pub const EVENT_MASK_EXPOSURE: u32 = 0x8000;

pub const EVENT_MASK_STRUCTURE_NOTIFY: u32 = 0x20000;

pub const EVENT_MASK_SUBSTRUCTURE_NOTIFY: u32 = 0x80000;

pub const EVENT_MASK_SUBSTRUCTURE_REDIRECT: u32 = 0x100000;

pub const EVENT_MASK_PROPERTY_CHANGE: u32 = 0x400000;

pub const EVENT_MASK_COLOR_MAP_CHANGE: u32 = 0x800000;

/// The event mask installed on every frame window: substructure changes,
/// property changes, button presses, exposure, pointer-enter and colormap
/// changes.
pub const FRAME_EVENT_MASK: u32 = EVENT_MASK_SUBSTRUCTURE_NOTIFY | EVENT_MASK_SUBSTRUCTURE_REDIRECT
    | EVENT_MASK_PROPERTY_CHANGE | EVENT_MASK_BUTTON_PRESS | EVENT_MASK_EXPOSURE
    | EVENT_MASK_ENTER_WINDOW | EVENT_MASK_COLOR_MAP_CHANGE;

// Bits of a configure request's value mask, naming which fields it carries.
pub const CONFIG_X: u16 = 0x1;

pub const CONFIG_Y: u16 = 0x2;

pub const CONFIG_WIDTH: u16 = 0x4;

pub const CONFIG_HEIGHT: u16 = 0x8;

pub const CONFIG_BORDER_WIDTH: u16 = 0x10;

/// One root display surface, immutable after discovery at startup: what the
/// manager reads of it.
#[derive(Debug, Clone, Copy, PartialEq, Eq)]
pub struct ScreenInfo {
    pub root: u32,
    pub root_depth: u8,
    pub root_visual: u32,
}

/// A window's geometry as the display reports it.
#[derive(Debug, Clone, Copy, PartialEq, Eq)]
pub struct WindowGeom {
    pub x: i16,
    pub y: i16,
    pub width: u16,
    pub height: u16,
    pub depth: u8,
}

/// A window's attributes as the display reports them: the override-redirect
/// flag, whether the window is currently viewable, and its visual.
#[derive(Debug, Clone, Copy, PartialEq, Eq)]
pub struct WindowAttrs {
    pub override_redirect: bool,
    pub viewable: bool,
    pub visual: u32,
}

/// Everything framing needs from the display queries: two fresh resource
/// identifiers, the opacity property atom, the window's attributes and
/// geometry, and the alpha-visual discovery results.
#[derive(Debug, Clone)]
pub struct FrameInputs {
    pub frame_id: u32,
    pub colormap_id: u32,
    pub opacity_atom: u32,
    pub attrs: WindowAttrs,
    pub geometry: WindowGeom,
    pub visuals: VisualQuery,
}

/// A configure request received for a window, with a mask naming which of
/// its fields the requester actually set.
#[derive(Debug, Clone, Copy, PartialEq, Eq)]
pub struct ConfigureRequestEvent {
    pub window: u32,
    pub parent: u32,
    pub x: i16,
    pub y: i16,
    pub width: u16,
    pub height: u16,
    pub border_width: u16,
    pub sibling: u32,
    pub stack_mode: u8,
    pub value_mask: u16,
}

/// One protocol request the manager asks its display transport to perform.
/// Handlers emit these as plain values; an unverified shell sends them.
#[derive(Debug, Clone, PartialEq, Eq)]
pub enum Command {
    ChangeAttributes { window: u32, event_mask: u32 },
    ChangeProperty32 { window: u32, property: u32, value: u32 },
    CreateColormap { colormap: u32, window: u32, visual: u32 },
    CreateWindow {
        depth: u8,
        window: u32,
        parent: u32,
        x: i16,
        y: i16,
        width: u16,
        height: u16,
        border_width: u16,
        visual: u32,
        colormap: u32,
        border_pixel: u32,
        event_mask: u32,
    },
    ChangeSaveSet { insert: bool, window: u32 },
    MapWindow { window: u32 },
    UnmapWindow { window: u32 },
    DestroyWindow { window: u32 },
    ReparentWindow { window: u32, parent: u32, x: i16, y: i16 },
    ConfigureWindow {
        window: u32,
        x: Option<i32>,
        y: Option<i32>,
        width: Option<u32>,
        height: Option<u32>,
        border_width: Option<u32>,
        sibling: Option<u32>,
        stack_mode: Option<u32>,
    },
    /// A synthetic configure-notify acknowledgment sent to `window` with
    /// structure-notify filtering, naming `above_sibling` and the frame's
    /// dimensions.
    SendConfigureNotify { window: u32, above_sibling: u32, width: u16, height: u16 },
    GrabKey { window: u32, modifiers: u16, keycode: u8 },
    /// Ask the shell to launch the configured program, fire-and-forget.
    SpawnLauncher,
}

/// One managed top-level window. `frameid` is present exactly while the
/// client is framed; the cached geometry is meaningful only while framed and
/// is zeroed on unframe.
#[derive(Debug, Clone, Copy)]
pub struct Client {
    pub frameid: Option<u32>,
    pub windowid: u32,
    pub x: u32,
    pub y: u32,
    pub colormap: u32,
    pub frameheight: u32,
    pub framewidth: u32,
    pub screen: Option<ScreenInfo>,
    pub floating: bool,
    // The fields below are carried for future features, not yet acted upon.
    pub _monitor: u32,
    pub _focus: bool,
    pub _isfullscreen: bool,
    pub _tags: u32,
    pub mapped: bool,
}

/// A client never counts as mapped without holding a frame.
pub open spec fn client_wf(c: Client) -> bool {
    c.mapped ==> c.frameid is Some
}

/// The blank client every lifecycle starts from.
pub open spec fn default_client() -> Client {
    Client {
        frameid: None,
        windowid: 0,
        colormap: 0,
        x: 0,
        y: 0,
        frameheight: 0,
        framewidth: 0,
        screen: None,
        _monitor: 0,
        floating: false,
        _focus: false,
        _isfullscreen: false,
        _tags: 1,
        mapped: false,
    }
}

/// The request sequence that frames window `windowid`: set its opacity
/// property, create a colormap on the chosen visual, create the frame window
/// matching the client's current geometry, insert the client window into the
/// save-set, map the frame, and reparent the client into it. A window whose
/// own depth is the legacy 24-bit depth keeps its own visual; any other gets
/// the discovered alpha visual or the screen default.
pub open spec fn frame_commands(windowid: u32, screen: ScreenInfo, inputs: FrameInputs) -> Seq<
    Command,
> {
    let g = inputs.geometry;
    let legacy = g.depth == 24;
    let visual = if legacy {
        inputs.attrs.visual
    } else {
        chosen_visual(inputs.visuals).1
    };
    let depth = if legacy {
        g.depth
    } else {
        chosen_visual(inputs.visuals).0
    };
    seq![
        Command::ChangeProperty32 {
            window: windowid,
            property: inputs.opacity_atom,
            value: 0xffffffffu32,
        },
        Command::CreateColormap { colormap: inputs.colormap_id, window: windowid, visual: visual },
        Command::CreateWindow {
            depth: depth,
            window: inputs.frame_id,
            parent: screen.root,
            x: g.x,
            y: g.y,
            width: g.width,
            height: g.height,
            border_width: 0,
            visual: visual,
            colormap: inputs.colormap_id,
            border_pixel: 0,
            event_mask: FRAME_EVENT_MASK,
        },
        Command::ChangeSaveSet { insert: true, window: windowid },
        Command::MapWindow { window: inputs.frame_id },
        Command::ReparentWindow { window: windowid, parent: inputs.frame_id, x: 0, y: 0 },
    ]
}

/// The request pair that maps a framed client: map the frame, then the
/// client window.
pub open spec fn map_commands(frame: u32, windowid: u32) -> Seq<Command> {
    seq![Command::MapWindow { window: frame }, Command::MapWindow { window: windowid }]
}

/// The request sequence that unframes a mapped client: reparent the client
/// window back to the root at the origin, unmap the frame, drop the client
/// from the save-set, and destroy the frame.
pub open spec fn unframe_commands(windowid: u32, root: u32, frame: u32) -> Seq<Command> {
    seq![
        Command::ReparentWindow { window: windowid, parent: root, x: 0, y: 0 },
        Command::UnmapWindow { window: frame },
        Command::ChangeSaveSet { insert: false, window: windowid },
        Command::DestroyWindow { window: frame },
    ]
}

/// The configuration applied for a configure request: sibling and stack mode
/// are always stripped, and for a tiled (non-floating) client the requested
/// position and size are stripped too, so the tiling policy stays
/// authoritative. Every other field passes through when the request carries
/// it.
pub open spec fn configure_applied(c: ConfigureRequestEvent, floating: bool) -> Command {
    Command::ConfigureWindow {
        window: c.window,
        x: if floating && c.value_mask & CONFIG_X != 0 {
            Some(c.x as i32)
        } else {
            None
        },
        y: if floating && c.value_mask & CONFIG_Y != 0 {
            Some(c.y as i32)
        } else {
            None
        },
        width: if floating && c.value_mask & CONFIG_WIDTH != 0 {
            Some(c.width as u32)
        } else {
            None
        },
        height: if floating && c.value_mask & CONFIG_HEIGHT != 0 {
            Some(c.height as u32)
        } else {
            None
        },
        border_width: if c.value_mask & CONFIG_BORDER_WIDTH != 0 {
            Some(c.border_width as u32)
        } else {
            None
        },
        sibling: None,
        stack_mode: None,
    }
}

/// The request sequence `configure` emits: the applied configuration, then a
/// synthetic acknowledgment carrying the frame's current cached dimensions
/// and, if the client is mapped, naming the frame as the sibling above it.
pub open spec fn configure_commands(cl: Client, c: ConfigureRequestEvent) -> Seq<Command> {
    seq![
        configure_applied(c, cl.floating),
        Command::SendConfigureNotify {
            window: cl.windowid,
            above_sibling: if cl.mapped {
                cl.frameid.unwrap()
            } else {
                0
            },
            width: cl.framewidth as u16,
            height: cl.frameheight as u16,
        },
    ]
}

/// The request sequence `move_resize` emits: position and size the frame,
/// resize the client window in place, then acknowledge with the new frame
/// dimensions, naming the frame as the sibling above the client.
pub open spec fn move_resize_commands(cl: Client, g: Geom) -> Seq<Command> {
    seq![
        Command::ConfigureWindow {
            window: cl.frameid.unwrap(),
            x: Some(g.x as i32),
            y: Some(g.y as i32),
            width: Some(g.width as u32),
            height: Some(g.height as u32),
            border_width: None,
            sibling: None,
            stack_mode: None,
        },
        Command::ConfigureWindow {
            window: cl.windowid,
            x: None,
            y: None,
            width: Some(g.width as u32),
            height: Some(g.height as u32),
            border_width: None,
            sibling: None,
            stack_mode: None,
        },
        Command::SendConfigureNotify {
            window: cl.windowid,
            above_sibling: cl.frameid.unwrap(),
            width: g.width,
            height: g.height,
        },
    ]
}

impl Default for Client {
    /// The blank client: unframed, unmapped, zeroed geometry.
    fn default() -> (c: Client)
        ensures
            c == default_client(),
    {
        Client {
            frameid: None,
            windowid: 0,
            colormap: 0,
            x: 0,
            y: 0,
            frameheight: 0,
            framewidth: 0,
            screen: None,
            _monitor: 0,
            floating: false,
            _focus: false,
            _isfullscreen: false,
            _tags: 1,
            mapped: false,
        }
    }
}

impl Client {
    /// A fresh, unframed client for `window` on `screen`.
    pub fn new(window: u32, screen: ScreenInfo) -> (c: Box<Client>)
        ensures
            *c == (Client { windowid: window, screen: Some(screen), ..default_client() }),
    {
        let mut client = Box::new(Client::default());
        client.windowid = window;
        client.screen = Some(screen);
        client
    }

    /// Allocate and map a frame around this client's window. When the window
    /// existed before the manager attached (`created_before_wm`), refuse —
    /// with no effect at all — if it set override-redirect or is not
    /// currently viewable: such windows are never adopted. Otherwise emit the
    /// full framing sequence and record the frame and its geometry.
    pub fn frame(&mut self, created_before_wm: bool, inputs: &FrameInputs, cmds: &mut Vec<
        Command,
    >) -> (framed: bool)
        requires
            old(self).screen is Some,
        ensures
            framed == !(created_before_wm && (inputs.attrs.override_redirect
                || !inputs.attrs.viewable)),
            !framed ==> *final(self) == *old(self) && final(cmds)@ == old(cmds)@,
            framed ==> final(cmds)@ == old(cmds)@ + frame_commands(
                old(self).windowid,
                old(self).screen.unwrap(),
                *inputs,
            ),
            framed ==> *final(self) == (Client {
                frameid: Some(inputs.frame_id),
                colormap: inputs.colormap_id,
                x: inputs.geometry.x as u32,
                y: inputs.geometry.y as u32,
                framewidth: inputs.geometry.width as u32,
                frameheight: inputs.geometry.height as u32,
                ..*old(self)
            }),
    {
        let frameid = inputs.frame_id;
        // Pre-existing override-redirect or unviewable windows are never
        // adopted.
        if created_before_wm && (inputs.attrs.override_redirect || !inputs.attrs.viewable) {
            return false;
        }
        let screen = self.screen.unwrap();
        let g = inputs.geometry;
        let (mydepth, myvisual) = choose_visual(&inputs.visuals);
        cmds.push(
            Command::ChangeProperty32 {
                window: self.windowid,
                property: inputs.opacity_atom,
                value: 0xffffffff,
            },
        );
        self.colormap = inputs.colormap_id;
        if g.depth == 24 {
            cmds.push(
                Command::CreateColormap {
                    colormap: self.colormap,
                    window: self.windowid,
                    visual: inputs.attrs.visual,
                },
            );
        } else {
            cmds.push(
                Command::CreateColormap {
                    colormap: self.colormap,
                    window: self.windowid,
                    visual: myvisual,
                },
            );
        }
        if g.depth == 24 {
            cmds.push(
                Command::CreateWindow {
                    depth: g.depth,
                    window: frameid,
                    parent: screen.root,
                    x: g.x,
                    y: g.y,
                    width: g.width,
                    height: g.height,
                    border_width: 0,
                    visual: inputs.attrs.visual,
                    colormap: self.colormap,
                    border_pixel: 0,
                    event_mask: FRAME_EVENT_MASK,
                },
            );
        } else {
            cmds.push(
                Command::CreateWindow {
                    depth: mydepth,
                    window: frameid,
                    parent: screen.root,
                    x: g.x,
                    y: g.y,
                    width: g.width,
                    height: g.height,
                    border_width: 0,
                    visual: myvisual,
                    colormap: self.colormap,
                    border_pixel: 0,
                    event_mask: FRAME_EVENT_MASK,
                },
            );
        }
        cmds.push(Command::ChangeSaveSet { insert: true, window: self.windowid });
        cmds.push(Command::MapWindow { window: frameid });
        cmds.push(Command::ReparentWindow { window: self.windowid, parent: frameid, x: 0, y: 0 });
        self.frameid = Some(frameid);
        self.framewidth = g.width as u32;
        self.frameheight = g.height as u32;
        self.x = g.x as u32;
        self.y = g.y as u32;
        proof {
            assert(cmds@ =~= old(cmds)@ + frame_commands(
                old(self).windowid,
                old(self).screen.unwrap(),
                *inputs,
            ));
        }
        true
    }

    /// Frame this window (never refused for a fresh mapping), then map both
    /// frame and client and record the client as mapped.
    pub fn map_and_frame(&mut self, inputs: &FrameInputs, cmds: &mut Vec<Command>)
        requires
            old(self).screen is Some,
        ensures
            final(cmds)@ == old(cmds)@ + frame_commands(
                old(self).windowid,
                old(self).screen.unwrap(),
                *inputs,
            ) + map_commands(inputs.frame_id, old(self).windowid),
            *final(self) == (Client {
                mapped: true,
                frameid: Some(inputs.frame_id),
                colormap: inputs.colormap_id,
                x: inputs.geometry.x as u32,
                y: inputs.geometry.y as u32,
                framewidth: inputs.geometry.width as u32,
                frameheight: inputs.geometry.height as u32,
                ..*old(self)
            }),
    {
        self.frame(false, inputs, cmds);
        cmds.push(Command::MapWindow { window: self.frameid.unwrap() });
        cmds.push(Command::MapWindow { window: self.windowid });
        self.mapped = true;
        proof {
            assert(cmds@ =~= old(cmds)@ + frame_commands(
                old(self).windowid,
                old(self).screen.unwrap(),
                *inputs,
            ) + map_commands(inputs.frame_id, old(self).windowid));
        }
    }

    /// Map both frame and client without (re)framing: used when a
    /// previously-framed-but-unmapped client becomes visible again.
    pub fn map(&mut self, cmds: &mut Vec<Command>)
        requires
            old(self).frameid is Some,
        ensures
            *final(self) == *old(self),
            final(cmds)@ == old(cmds)@ + map_commands(
                old(self).frameid.unwrap(),
                old(self).windowid,
            ),
    {
        cmds.push(Command::MapWindow { window: self.frameid.unwrap() });
        cmds.push(Command::MapWindow { window: self.windowid });
        proof {
            assert(cmds@ =~= old(cmds)@ + map_commands(
                old(self).frameid.unwrap(),
                old(self).windowid,
            ));
        }
    }

    /// Tear the frame down again: a no-op — no requests, no state change —
    /// when the client is not currently mapped. Otherwise reparent the client
    /// window back to the root, unmap and destroy the frame, drop the
    /// save-set entry, and zero the bookkeeping fields.
    pub fn unframe(&mut self, cmds: &mut Vec<Command>)
        requires
            old(self).mapped ==> old(self).frameid is Some && old(self).screen is Some,
        ensures
            !old(self).mapped ==> *final(self) == *old(self) && final(cmds)@ == old(cmds)@,
            old(self).mapped ==> final(cmds)@ == old(cmds)@ + unframe_commands(
                old(self).windowid,
                old(self).screen.unwrap().root,
                old(self).frameid.unwrap(),
            ),
            old(self).mapped ==> *final(self) == (Client {
                mapped: false,
                frameid: None,
                framewidth: 0,
                frameheight: 0,
                x: 0,
                y: 0,
                ..*old(self)
            }),
    {
        if !self.mapped {
            return ;
        }
        let frame = self.frameid.unwrap();
        let root = self.screen.unwrap().root;
        cmds.push(Command::ReparentWindow { window: self.windowid, parent: root, x: 0, y: 0 });
        cmds.push(Command::UnmapWindow { window: frame });
        cmds.push(Command::ChangeSaveSet { insert: false, window: self.windowid });
        cmds.push(Command::DestroyWindow { window: frame });
        self.mapped = false;
        self.frameid = None;
        self.framewidth = 0;
        self.frameheight = 0;
        self.x = 0;
        self.y = 0;
        proof {
            assert(cmds@ =~= old(cmds)@ + unframe_commands(
                old(self).windowid,
                old(self).screen.unwrap().root,
                old(self).frameid.unwrap(),
            ));
        }
    }

    /// Point this client at a (new) screen.
    pub fn set_screen(&mut self, screen: ScreenInfo)
        ensures
            *final(self) == (Client { screen: Some(screen), ..*old(self) }),
    {
        self.screen = Some(screen);
    }

    /// Apply a configure request under the tiling policy and acknowledge it:
    /// see [`configure_commands`]. The client itself is unchanged.
    pub fn configure(&mut self, config: &ConfigureRequestEvent, cmds: &mut Vec<Command>)
        requires
            old(self).mapped ==> old(self).frameid is Some,
        ensures
            *final(self) == *old(self),
            final(cmds)@ == old(cmds)@ + configure_commands(*old(self), *config),
    {
        let floating = self.floating;
        let x = if floating && config.value_mask & CONFIG_X != 0 {
            Some(config.x as i32)
        } else {
            None
        };
        let y = if floating && config.value_mask & CONFIG_Y != 0 {
            Some(config.y as i32)
        } else {
            None
        };
        let width = if floating && config.value_mask & CONFIG_WIDTH != 0 {
            Some(config.width as u32)
        } else {
            None
        };
        let height = if floating && config.value_mask & CONFIG_HEIGHT != 0 {
            Some(config.height as u32)
        } else {
            None
        };
        let border_width = if config.value_mask & CONFIG_BORDER_WIDTH != 0 {
            Some(config.border_width as u32)
        } else {
            None
        };
        cmds.push(
            Command::ConfigureWindow {
                window: config.window,
                x,
                y,
                width,
                height,
                border_width,
                sibling: None,
                stack_mode: None,
            },
        );
        let above_sibling = if self.mapped {
            self.frameid.unwrap()
        } else {
            0
        };
        cmds.push(
            Command::SendConfigureNotify {
                window: self.windowid,
                above_sibling,
                width: self.framewidth as u16,
                height: self.frameheight as u16,
            },
        );
        proof {
            assert(cmds@ =~= old(cmds)@ + configure_commands(*old(self), *config));
        }
    }

    /// Move and resize the frame to `geom`, resize the client window in
    /// place, and acknowledge with the new dimensions: see
    /// [`move_resize_commands`].
    pub fn move_resize(&self, geom: Geom, cmds: &mut Vec<Command>)
        requires
            self.frameid is Some,
        ensures
            final(cmds)@ == old(cmds)@ + move_resize_commands(*self, geom),
    {
        let frame = self.frameid.unwrap();
        cmds.push(
            Command::ConfigureWindow {
                window: frame,
                x: Some(geom.x as i32),
                y: Some(geom.y as i32),
                width: Some(geom.width as u32),
                height: Some(geom.height as u32),
                border_width: None,
                sibling: None,
                stack_mode: None,
            },
        );
        cmds.push(
            Command::ConfigureWindow {
                window: self.windowid,
                x: None,
                y: None,
                width: Some(geom.width as u32),
                height: Some(geom.height as u32),
                border_width: None,
                sibling: None,
                stack_mode: None,
            },
        );
        cmds.push(
            Command::SendConfigureNotify {
                window: self.windowid,
                above_sibling: frame,
                width: geom.width,
                height: geom.height,
            },
        );
        proof {
            assert(cmds@ =~= old(cmds)@ + move_resize_commands(*self, geom));
        }
    }

    /// The frame window's identifier; the client must be framed.
    pub fn get_frameid(&self) -> (r: u32)
        requires
            self.frameid is Some,
        ensures
            r == self.frameid.unwrap(),
    {
        self.frameid.unwrap()
    }
}

} // verus!
