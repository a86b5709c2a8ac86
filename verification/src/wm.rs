//! The window manager core: owns the client registry and the active layout
//! engine, and dispatches each protocol event to a handler that mutates
//! clients and re-queries the layout engine.
//!
//! Handlers are pure state transitions: they take an event (and, where
//! framing may happen, the pre-gathered query results) and append the
//! protocol requests they decide on to a command buffer. An unverified shell
//! reads events from the display, calls the matching handler, and performs
//! the commands.

use vstd::prelude::*;

use crate::client::Client;
use crate::client::Command;
use crate::client::ConfigureRequestEvent;
use crate::client::FrameInputs;
use crate::client::ScreenInfo;
use crate::client::client_wf;
use crate::client::configure_commands;
use crate::client::default_client;
use crate::client::frame_commands;
use crate::client::map_commands;
use crate::client::move_resize_commands;
use crate::client::unframe_commands;
use crate::client::EVENT_MASK_SUBSTRUCTURE_NOTIFY;
use crate::client::EVENT_MASK_SUBSTRUCTURE_REDIRECT;
use crate::geom::Geom;
use crate::geom::RootParams;
use crate::layout::ActiveLayout;
use crate::layout::MasterSlave;
use crate::layout::cursor_next;

verus! {

/// The modifier mask of the launch binding: the "super" key.
pub const MOD_MASK_SUPER: u16 = 0x40;

/// The xkb scan code of the "A" key position, where the launch binding sits.
pub const XKB_KEYCODE_US_A: u8 = 0x26;

/// Relies on keycode::KeyMap::from(KeyMappingId::UsA): the crate's
/// documentation gives the xkb scan code of the "A" key position as 0x26.
#[verifier::external_body]
fn get_key_code_us_a() -> (code: u8)
    ensures
        code == XKB_KEYCODE_US_A,
{
    let code: u8 = (keycode::KeyMap::from(keycode::KeyMappingId::UsA).xkb).try_into().unwrap();
    code
}

/// A window asks to become visible on the root `parent`.
#[derive(Debug, Clone, Copy, PartialEq, Eq)]
pub struct MapRequestEvent {
    pub window: u32,
    pub parent: u32,
}

/// `window` was unmapped; `event` is the window the notification was
/// delivered on.
#[derive(Debug, Clone, Copy, PartialEq, Eq)]
pub struct UnmapNotifyEvent {
    pub window: u32,
    pub event: u32,
}

/// A grabbed key binding was pressed.
#[derive(Debug, Clone, Copy, PartialEq, Eq)]
pub struct KeyPressEvent {
    pub detail: u8,
    pub state: u16,
}

/// A window was created; ignored by the default policy.
#[derive(Debug, Clone, Copy, PartialEq, Eq)]
pub struct CreateNotifyEvent {
    pub window: u32,
}

/// A window was destroyed; ignored by the default policy.
#[derive(Debug, Clone, Copy, PartialEq, Eq)]
pub struct DestroyNotifyEvent {
    pub window: u32,
}

/// A window became mapped; ignored by the default policy.
#[derive(Debug, Clone, Copy, PartialEq, Eq)]
pub struct MapNotifyEvent {
    pub window: u32,
}

/// A window was reconfigured; ignored by the default policy.
#[derive(Debug, Clone, Copy, PartialEq, Eq)]
pub struct ConfigureNotifyEvent {
    pub window: u32,
}

/// A window changed parents; ignored by the default policy.
#[derive(Debug, Clone, Copy, PartialEq, Eq)]
pub struct ReparentNotifyEvent {
    pub window: u32,
    pub parent: u32,
}

// ---------------------------------------------------------------------------
// Registry specification helpers
// ---------------------------------------------------------------------------

/// Index of the first client managing `window` at or after `i`, or -1.
pub open spec fn find_window_from(cs: Seq<Client>, window: u32, i: int) -> int
    decreases cs.len() - i,
{
    if i < 0 || i >= cs.len() {
        -1
    } else if cs[i].windowid == window {
        i
    } else {
        find_window_from(cs, window, i + 1)
    }
}

/// Index of the first screen whose root is `root` at or after `i`, or -1.
pub open spec fn find_root_from(ss: Seq<ScreenInfo>, root: u32, i: int) -> int
    decreases ss.len() - i,
{
    if i < 0 || i >= ss.len() {
        -1
    } else if ss[i].root == root {
        i
    } else {
        find_root_from(ss, root, i + 1)
    }
}

/// How many clients of `cs` are currently mapped.
pub open spec fn mapped_count(cs: Seq<Client>) -> nat
    decreases cs.len(),
{
    if cs.len() == 0 {
        0
    } else {
        mapped_count(cs.drop_last()) + (if cs.last().mapped {
            1nat
        } else {
            0nat
        })
    }
}

/// The fields `Client::frame` records on success, applied over `c`.
pub open spec fn framed_fields(c: Client, inputs: FrameInputs) -> Client {
    Client {
        frameid: Some(inputs.frame_id),
        colormap: inputs.colormap_id,
        x: inputs.geometry.x as u32,
        y: inputs.geometry.y as u32,
        framewidth: inputs.geometry.width as u32,
        frameheight: inputs.geometry.height as u32,
        ..c
    }
}

/// `Client::map_and_frame`'s effect on `c`.
pub open spec fn framed_mapped(c: Client, inputs: FrameInputs) -> Client {
    Client { mapped: true, ..framed_fields(c, inputs) }
}

/// `Client::unframe`'s effect on a mapped `c`.
pub open spec fn unframed_fields(c: Client) -> Client {
    Client { mapped: false, frameid: None, framewidth: 0, frameheight: 0, x: 0, y: 0, ..c }
}

/// The moves a reflow emits: walking `cs` in registration order, each
/// currently-mapped client is moved to the geometry at the cursor, which
/// advances round-robin over `len` slots.
pub open spec fn reflow_commands(cs: Seq<Client>, gs: Seq<Geom>, cur: nat, len: nat) -> Seq<
    Command,
>
    decreases cs.len(),
{
    if cs.len() == 0 {
        Seq::empty()
    } else if cs[0].mapped {
        move_resize_commands(cs[0], gs[cur as int]) + reflow_commands(
            cs.drop_first(),
            gs,
            cursor_next(cur, len),
            len,
        )
    } else {
        reflow_commands(cs.drop_first(), gs, cur, len)
    }
}

/// Where the cursor stands after a reflow of `cs` that started at `cur`.
pub open spec fn reflow_cursor(cs: Seq<Client>, cur: nat, len: nat) -> nat
    decreases cs.len(),
{
    if cs.len() == 0 {
        cur
    } else if cs[0].mapped {
        reflow_cursor(cs.drop_first(), cursor_next(cur, len), len)
    } else {
        reflow_cursor(cs.drop_first(), cur, len)
    }
}

// ---------------------------------------------------------------------------
// Sequence-counting lemmas
// ---------------------------------------------------------------------------

proof fn lemma_mapped_count_push(cs: Seq<Client>, c: Client)
    ensures
        mapped_count(cs.push(c)) == mapped_count(cs) + (if c.mapped {
            1nat
        } else {
            0nat
        }),
    decreases cs.len(),
{
    assert(cs.push(c).last() == c);
    assert(cs.push(c).drop_last() =~= cs);
}

proof fn lemma_mapped_count_update(cs: Seq<Client>, i: int, c: Client)
    requires
        0 <= i < cs.len(),
    ensures
        mapped_count(cs.update(i, c)) + (if cs[i].mapped {
            1nat
        } else {
            0nat
        }) == mapped_count(cs) + (if c.mapped {
            1nat
        } else {
            0nat
        }),
    decreases cs.len(),
{
    if i == cs.len() - 1 {
        assert(cs.update(i, c).last() == c);
        assert(cs.update(i, c).drop_last() =~= cs.drop_last());
    } else {
        assert(cs.update(i, c).last() == cs.last());
        assert(cs.update(i, c).drop_last() =~= cs.drop_last().update(i, c));
        lemma_mapped_count_update(cs.drop_last(), i, c);
    }
}

proof fn lemma_mapped_count_at_least(cs: Seq<Client>, i: int)
    requires
        0 <= i < cs.len(),
        cs[i].mapped,
    ensures
        mapped_count(cs) >= 1,
    decreases cs.len(),
{
    if i < cs.len() - 1 {
        assert(cs.drop_last()[i] == cs[i]);
        lemma_mapped_count_at_least(cs.drop_last(), i);
    }
}

proof fn lemma_find_window_none(cs: Seq<Client>, window: u32, i: int)
    requires
        0 <= i,
        find_window_from(cs, window, i) == -1,
    ensures
        forall|j: int| i <= j < cs.len() ==> (#[trigger] cs[j]).windowid != window,
    decreases cs.len() - i,
{
    if i < cs.len() {
        lemma_find_window_none(cs, window, i + 1);
    }
}

proof fn lemma_find_window_some(cs: Seq<Client>, window: u32, i: int)
    requires
        0 <= i,
        find_window_from(cs, window, i) >= 0,
    ensures
        i <= find_window_from(cs, window, i) < cs.len(),
        cs[find_window_from(cs, window, i)].windowid == window,
    decreases cs.len() - i,
{
    if i < cs.len() && cs[i].windowid != window {
        lemma_find_window_some(cs, window, i + 1);
    }
}

proof fn lemma_skip_step<T>(s: Seq<T>, i: int)
    requires
        0 <= i < s.len(),
    ensures
        s.skip(i).len() == s.len() - i,
        s.skip(i)[0] == s[i],
        s.skip(i).drop_first() =~= s.skip(i + 1),
{
}

// ---------------------------------------------------------------------------
// Registry search
// ---------------------------------------------------------------------------

fn find_client_index(clients: &Vec<Client>, window: u32) -> (r: Option<usize>)
    ensures
        match r {
            Some(i) => i < clients@.len() && find_window_from(clients@, window, 0) == i as int,
            None => find_window_from(clients@, window, 0) == -1,
        },
{
    let mut i: usize = 0;
    while i < clients.len()
        invariant
            i <= clients@.len(),
            find_window_from(clients@, window, 0) == find_window_from(clients@, window, i as int),
        decreases clients@.len() - i,
    {
        if clients[i].windowid == window {
            return Some(i);
        }
        i = i + 1;
    }
    None
}

fn find_screen_index(screens: &Vec<ScreenInfo>, root: u32) -> (r: Option<usize>)
    ensures
        match r {
            Some(i) => i < screens@.len() && find_root_from(screens@, root, 0) == i as int,
            None => find_root_from(screens@, root, 0) == -1,
        },
{
    let mut i: usize = 0;
    while i < screens.len()
        invariant
            i <= screens@.len(),
            find_root_from(screens@, root, 0) == find_root_from(screens@, root, i as int),
        decreases screens@.len() - i,
    {
        if screens[i].root == root {
            return Some(i);
        }
        i = i + 1;
    }
    None
}

// ---------------------------------------------------------------------------
// The core
// ---------------------------------------------------------------------------

/// The manager: the screen list, the client registry, and the active layout
/// engine, all exclusively owned and driven from a single event loop.
pub struct WindowManager {
    pub screens: Vec<ScreenInfo>,
    pub clients: Vec<Client>,
    pub layout: ActiveLayout,
}

impl WindowManager {
    /// The manager's invariant: the layout holds the geometries its
    /// algorithm prescribes; there are at least as many slots as mapped
    /// clients; every client is well-formed with a screen attached; and no
    /// two clients manage the same window.
    pub open spec fn wf(&self) -> bool {
        &&& self.layout.wf()
        &&& self.layout.slots() >= mapped_count(self.clients@)
        &&& forall|i: int| 0 <= i < self.clients@.len() ==> client_wf(#[trigger] self.clients@[i])
        &&& forall|i: int|
            0 <= i < self.clients@.len() ==> (#[trigger] self.clients@[i]).screen is Some
        &&& forall|i: int, j: int|
            0 <= i < j < self.clients@.len() ==> (#[trigger] self.clients@[i]).windowid != (
            #[trigger] self.clients@[j]).windowid
    }

    /// A manager over the given screens: no clients yet, and the master-stack
    /// layout sized to the given root dimensions.
    pub fn new(screens: Vec<ScreenInfo>, params: RootParams) -> (wm: Box<WindowManager>)
        ensures
            wm.wf(),
            wm.screens == screens,
            wm.clients@.len() == 0,
            wm.layout.is_master_slave(),
            wm.layout.slots() == 0,
            wm.layout.cursor() == 0,
            wm.layout.root_width() == params.width,
            wm.layout.root_height() == params.height,
    {
        Box::new(
            WindowManager {
                screens,
                clients: Vec::<Client>::new(),
                layout: ActiveLayout::MasterSlave(*MasterSlave::new(params)),
            },
        )
    }

    /// Install the manager's substructure-redirect and substructure-notify
    /// interest on a screen's root window, done once per screen at startup.
    pub fn select_screen_events(&self, screen_index: usize, cmds: &mut Vec<Command>)
        requires
            screen_index < self.screens@.len(),
        ensures
            final(cmds)@ == old(cmds)@.push(
                Command::ChangeAttributes {
                    window: self.screens@[screen_index as int].root,
                    event_mask: EVENT_MASK_SUBSTRUCTURE_REDIRECT | EVENT_MASK_SUBSTRUCTURE_NOTIFY,
                },
            ),
    {
        cmds.push(
            Command::ChangeAttributes {
                window: self.screens[screen_index].root,
                event_mask: EVENT_MASK_SUBSTRUCTURE_REDIRECT | EVENT_MASK_SUBSTRUCTURE_NOTIFY,
            },
        );
    }

    /// Grab the launch binding on a screen's root window, covering the case
    /// where no client window holds the focus.
    pub fn grab_root_key(&self, screen_index: usize, cmds: &mut Vec<Command>)
        requires
            screen_index < self.screens@.len(),
        ensures
            final(cmds)@ == old(cmds)@.push(
                Command::GrabKey {
                    window: self.screens@[screen_index as int].root,
                    modifiers: MOD_MASK_SUPER,
                    keycode: XKB_KEYCODE_US_A,
                },
            ),
    {
        let code = get_key_code_us_a();
        cmds.push(
            Command::GrabKey {
                window: self.screens[screen_index].root,
                modifiers: MOD_MASK_SUPER,
                keycode: code,
            },
        );
    }

    /// Adopt one pre-existing top-level window found at startup: register a
    /// client for it and frame it under the pre-existing-window policy, which
    /// refuses override-redirect or currently-unmapped windows. When framing
    /// succeeds, add a layout slot, map the window, and grab the launch
    /// binding on its frame. The client record is kept either way.
    pub fn adopt_window(&mut self, window: u32, screen_index: usize, inputs: &FrameInputs, cmds:
        &mut Vec<Command>) -> (framed: bool)
        requires
            old(self).wf(),
            screen_index < old(self).screens@.len(),
            old(self).layout.slots() < usize::MAX,
            forall|i: int|
                0 <= i < old(self).clients@.len() ==> (#[trigger] old(self).clients@[i]).windowid
                    != window,
        ensures
            final(self).wf(),
            final(self).screens == old(self).screens,
            final(self).layout.is_master_slave() == old(self).layout.is_master_slave(),
            final(self).layout.root_width() == old(self).layout.root_width(),
            final(self).layout.root_height() == old(self).layout.root_height(),
            framed == !(inputs.attrs.override_redirect || !inputs.attrs.viewable),
            !framed ==> final(self).clients@ == old(self).clients@.push(
                (Client {
                    windowid: window,
                    screen: Some(old(self).screens@[screen_index as int]),
                    ..default_client()
                }),
            ) && final(self).layout == old(self).layout && final(cmds)@ == old(cmds)@,
            framed ==> final(self).clients@ == old(self).clients@.push(
                framed_fields(
                    Client {
                        windowid: window,
                        screen: Some(old(self).screens@[screen_index as int]),
                        ..default_client()
                    },
                    *inputs,
                ),
            ),
            framed ==> final(self).layout.slots() == old(self).layout.slots() + 1
                && final(self).layout.cursor() == old(self).layout.cursor_on_reset(
                old(self).layout.cursor(),
            ),
            framed ==> final(cmds)@ == old(cmds)@ + frame_commands(
                window,
                old(self).screens@[screen_index as int],
                *inputs,
            ) + map_commands(inputs.frame_id, window) + seq![
                Command::GrabKey {
                    window: inputs.frame_id,
                    modifiers: MOD_MASK_SUPER,
                    keycode: XKB_KEYCODE_US_A,
                },
            ],
    {
        let screen = self.screens[screen_index];
        let mut client = *Client::new(window, screen);
        let framed = client.frame(true, inputs, cmds);
        if framed {
            self.layout.push();
            client.map(cmds);
            let code = get_key_code_us_a();
            cmds.push(
                Command::GrabKey {
                    window: client.get_frameid(),
                    modifiers: MOD_MASK_SUPER,
                    keycode: code,
                },
            );
        }
        self.clients.push(client);
        proof {
            lemma_mapped_count_push(old(self).clients@, client);
            if framed {
                assert(cmds@ =~= old(cmds)@ + frame_commands(
                    window,
                    old(self).screens@[screen_index as int],
                    *inputs,
                ) + map_commands(inputs.frame_id, window) + seq![
                    Command::GrabKey {
                        window: inputs.frame_id,
                        modifiers: MOD_MASK_SUPER,
                        keycode: XKB_KEYCODE_US_A,
                    },
                ]);
            }
        }
        framed
    }

    /// Replay the layout's geometries over every currently-mapped client in
    /// registration order, moving each to the geometry at the round-robin
    /// cursor: this reflows every visible window.
    fn reflow(&mut self, cmds: &mut Vec<Command>)
        requires
            old(self).wf(),
            old(self).layout.cursor() < old(self).layout.slots(),
        ensures
            final(self).wf(),
            final(self).screens@ == old(self).screens@,
            final(self).clients@ == old(self).clients@,
            final(self).layout.is_master_slave() == old(self).layout.is_master_slave(),
            final(self).layout.root_width() == old(self).layout.root_width(),
            final(self).layout.root_height() == old(self).layout.root_height(),
            final(self).layout.slots() == old(self).layout.slots(),
            final(self).layout.geom_seq() == old(self).layout.geom_seq(),
            final(self).layout.cursor() == reflow_cursor(
                old(self).clients@,
                old(self).layout.cursor(),
                old(self).layout.slots(),
            ),
            final(self).layout.cursor() < final(self).layout.slots(),
            final(cmds)@ == old(cmds)@ + reflow_commands(
                old(self).clients@,
                old(self).layout.geom_seq(),
                old(self).layout.cursor(),
                old(self).layout.slots(),
            ),
    {
        let ghost cs = self.clients@;
        let ghost ss0 = self.screens@;
        let ghost gs = self.layout.geom_seq();
        let ghost len_g = self.layout.slots();
        let ghost cur0 = self.layout.cursor();
        let ghost ms0 = self.layout.is_master_slave();
        let ghost rw0 = self.layout.root_width();
        let ghost rh0 = self.layout.root_height();
        let ghost cmds0 = cmds@;
        let n = self.clients.len();
        let mut idx: usize = 0;
        proof {
            assert(cs.skip(0) =~= cs);
        }
        while idx < n
            invariant
                idx <= n,
                n == cs.len(),
                self.clients@ == cs,
                self.screens@ == ss0,
                self.layout.wf(),
                self.layout.geom_seq() == gs,
                self.layout.slots() == len_g,
                self.layout.is_master_slave() == ms0,
                self.layout.root_width() == rw0,
                self.layout.root_height() == rh0,
                self.layout.cursor() < len_g,
                forall|i: int| 0 <= i < cs.len() ==> client_wf(#[trigger] cs[i]),
                cmds@ + reflow_commands(cs.skip(idx as int), gs, self.layout.cursor(), len_g)
                    == cmds0 + reflow_commands(cs, gs, cur0, len_g),
                reflow_cursor(cs.skip(idx as int), self.layout.cursor(), len_g) == reflow_cursor(
                    cs,
                    cur0,
                    len_g,
                ),
            decreases n - idx,
        {
            proof {
                lemma_skip_step(cs, idx as int);
            }
            if self.clients[idx].mapped {
                let ghost curb = self.layout.cursor();
                let ghost cmdsb = cmds@;
                let g = self.layout.next_geom();
                self.clients[idx].move_resize(g, cmds);
                proof {
                    let sk = cs.skip(idx as int);
                    assert(g == gs[curb as int]);
                    assert(reflow_commands(sk, gs, curb, len_g) == move_resize_commands(
                        cs[idx as int],
                        gs[curb as int],
                    ) + reflow_commands(
                        cs.skip(idx as int + 1),
                        gs,
                        cursor_next(curb, len_g),
                        len_g,
                    ));
                    assert(reflow_cursor(sk, curb, len_g) == reflow_cursor(
                        cs.skip(idx as int + 1),
                        cursor_next(curb, len_g),
                        len_g,
                    ));
                    assert(cmds@ + reflow_commands(
                        cs.skip(idx as int + 1),
                        gs,
                        self.layout.cursor(),
                        len_g,
                    ) =~= cmdsb + reflow_commands(sk, gs, curb, len_g));
                }
            } else {
                proof {
                    let sk = cs.skip(idx as int);
                    assert(reflow_commands(sk, gs, self.layout.cursor(), len_g)
                        == reflow_commands(cs.skip(idx as int + 1), gs, self.layout.cursor(), len_g));
                    assert(reflow_cursor(sk, self.layout.cursor(), len_g) == reflow_cursor(
                        cs.skip(idx as int + 1),
                        self.layout.cursor(),
                        len_g,
                    ));
                }
            }
            idx = idx + 1;
        }
        proof {
            assert(cs.skip(n as int) =~= Seq::<Client>::empty());
            assert(cmds@ + Seq::<Command>::empty() =~= cmds@);
        }
    }

    /// Handle a map request: ensure a client exists for the window (creating
    /// one attached to the screen whose root matches the request's parent),
    /// frame and map it, add a layout slot, reflow every currently-mapped
    /// client in registration order, and grab the launch binding on the new
    /// frame.
    pub fn on_map_request(&mut self, ev: &MapRequestEvent, inputs: &FrameInputs, cmds: &mut Vec<
        Command,
    >)
        requires
            old(self).wf(),
            old(self).layout.cursor() <= old(self).layout.slots(),
            old(self).layout.slots() < usize::MAX,
            find_window_from(old(self).clients@, ev.window, 0) < 0 ==> find_root_from(
                old(self).screens@,
                ev.parent,
                0,
            ) >= 0,
        ensures
            final(self).wf(),
            final(self).screens@ == old(self).screens@,
            final(self).layout.is_master_slave() == old(self).layout.is_master_slave(),
            final(self).layout.root_width() == old(self).layout.root_width(),
            final(self).layout.root_height() == old(self).layout.root_height(),
            final(self).layout.slots() == old(self).layout.slots() + 1,
            final(self).layout.cursor() < final(self).layout.slots(),
            ({
                let j0 = find_window_from(old(self).clients@, ev.window, 0);
                let cs0 = if j0 >= 0 {
                    old(self).clients@
                } else {
                    old(self).clients@.push(
                        (Client {
                            windowid: ev.window,
                            screen: Some(
                                old(self).screens@[find_root_from(
                                    old(self).screens@,
                                    ev.parent,
                                    0,
                                )],
                            ),
                            ..default_client()
                        }),
                    )
                };
                let j = if j0 >= 0 {
                    j0
                } else {
                    cs0.len() - 1
                };
                let cs1 = cs0.update(j, framed_mapped(cs0[j], *inputs));
                let cur1 = old(self).layout.cursor_on_reset(old(self).layout.cursor());
                let len1 = (old(self).layout.slots() + 1) as nat;
                &&& final(self).clients@ == cs1
                &&& final(self).layout.cursor() == reflow_cursor(cs1, cur1, len1)
                &&& final(cmds)@ == old(cmds)@ + frame_commands(
                    ev.window,
                    cs0[j].screen.unwrap(),
                    *inputs,
                ) + map_commands(inputs.frame_id, ev.window) + reflow_commands(
                    cs1,
                    final(self).layout.geom_seq(),
                    cur1,
                    len1,
                ) + seq![
                    Command::GrabKey {
                        window: inputs.frame_id,
                        modifiers: MOD_MASK_SUPER,
                        keycode: XKB_KEYCODE_US_A,
                    },
                ]
            }),
    {
        let ghost cs_old = self.clients@;
        let idx_opt = find_client_index(&self.clients, ev.window);
        let target: usize;
        if let Some(i) = idx_opt {
            target = i;
        } else {
            let sopt = find_screen_index(&self.screens, ev.parent);
            let si = sopt.unwrap();
            let screen = self.screens[si];
            let fresh = *Client::new(ev.window, screen);
            self.clients.push(fresh);
            target = self.clients.len() - 1;
            proof {
                lemma_mapped_count_push(cs_old, fresh);
                lemma_find_window_none(cs_old, ev.window, 0);
            }
        }
        let ghost cs0 = self.clients@;
        let mut c = self.clients[target];
        c.map_and_frame(inputs, cmds);
        self.clients.set(target, c);
        proof {
            lemma_mapped_count_update(cs0, target as int, c);
        }
        self.layout.push();
        proof {
            if find_window_from(cs_old, ev.window, 0) >= 0 {
                lemma_find_window_some(cs_old, ev.window, 0);
            }
            assert(self.clients@ == cs0.update(target as int, framed_mapped(cs0[target as int], *inputs)));
            assert(self.wf());
        }
        self.reflow(cmds);
        let code = get_key_code_us_a();
        let fid = self.clients[target].get_frameid();
        cmds.push(Command::GrabKey { window: fid, modifiers: MOD_MASK_SUPER, keycode: code });
        proof {
            let cs1 = cs0.update(target as int, framed_mapped(cs0[target as int], *inputs));
            let cur1 = old(self).layout.cursor_on_reset(old(self).layout.cursor());
            let len1 = (old(self).layout.slots() + 1) as nat;
            assert(cmds@ =~= old(cmds)@ + frame_commands(
                ev.window,
                cs0[target as int].screen.unwrap(),
                *inputs,
            ) + map_commands(inputs.frame_id, ev.window) + reflow_commands(
                cs1,
                self.layout.geom_seq(),
                cur1,
                len1,
            ) + seq![
                Command::GrabKey {
                    window: inputs.frame_id,
                    modifiers: MOD_MASK_SUPER,
                    keycode: XKB_KEYCODE_US_A,
                },
            ]);
        }
    }

    /// Handle a configure request: ensure a client exists for the window
    /// (creating one attached to the screen whose root matches the request's
    /// parent), then apply the request under the tiling policy and
    /// acknowledge it. Neither the layout nor any client state changes.
    pub fn on_configure_request(&mut self, ev: &ConfigureRequestEvent, cmds: &mut Vec<Command>)
        requires
            old(self).wf(),
            find_window_from(old(self).clients@, ev.window, 0) < 0 ==> find_root_from(
                old(self).screens@,
                ev.parent,
                0,
            ) >= 0,
        ensures
            final(self).wf(),
            final(self).screens == old(self).screens,
            final(self).layout == old(self).layout,
            ({
                let j0 = find_window_from(old(self).clients@, ev.window, 0);
                let cs0 = if j0 >= 0 {
                    old(self).clients@
                } else {
                    old(self).clients@.push(
                        (Client {
                            windowid: ev.window,
                            screen: Some(
                                old(self).screens@[find_root_from(
                                    old(self).screens@,
                                    ev.parent,
                                    0,
                                )],
                            ),
                            ..default_client()
                        }),
                    )
                };
                let j = if j0 >= 0 {
                    j0
                } else {
                    cs0.len() - 1
                };
                &&& final(self).clients@ == cs0
                &&& final(cmds)@ == old(cmds)@ + configure_commands(cs0[j], *ev)
            }),
    {
        let ghost cs_old = self.clients@;
        let idx_opt = find_client_index(&self.clients, ev.window);
        let target: usize;
        if let Some(i) = idx_opt {
            target = i;
        } else {
            let sopt = find_screen_index(&self.screens, ev.parent);
            let si = sopt.unwrap();
            let screen = self.screens[si];
            let fresh = *Client::new(ev.window, screen);
            self.clients.push(fresh);
            target = self.clients.len() - 1;
            proof {
                lemma_mapped_count_push(cs_old, fresh);
                lemma_find_window_none(cs_old, ev.window, 0);
            }
        }
        let ghost cs0 = self.clients@;
        let mut c = self.clients[target];
        c.configure(ev, cmds);
        self.clients.set(target, c);
        proof {
            assert(self.clients@ =~= cs0);
        }
    }

    /// Handle an unmap notification. One whose reported event window is a
    /// screen root is ignored entirely: it is a spurious notification caused
    /// by the manager's own reparenting, not a real client unmap. Otherwise,
    /// if the unmapped window belongs to a currently-mapped client, remove a
    /// layout slot and unframe the client.
    pub fn on_unmap_notify(&mut self, ev: &UnmapNotifyEvent, cmds: &mut Vec<Command>)
        requires
            old(self).wf(),
        ensures
            final(self).wf(),
            final(self).screens == old(self).screens,
            final(self).layout.is_master_slave() == old(self).layout.is_master_slave(),
            final(self).layout.root_width() == old(self).layout.root_width(),
            final(self).layout.root_height() == old(self).layout.root_height(),
            find_root_from(old(self).screens@, ev.event, 0) >= 0 ==> *final(self) == *old(self)
                && final(cmds)@ == old(cmds)@,
            find_root_from(old(self).screens@, ev.event, 0) < 0 ==> ({
                let j = find_window_from(old(self).clients@, ev.window, 0);
                if j >= 0 && old(self).clients@[j].mapped {
                    &&& final(self).layout.slots() == old(self).layout.slots() - 1
                    &&& final(self).layout.cursor() == old(self).layout.cursor_on_reset(
                        old(self).layout.cursor(),
                    )
                    &&& final(self).clients@ == old(self).clients@.update(
                        j,
                        unframed_fields(old(self).clients@[j]),
                    )
                    &&& final(cmds)@ == old(cmds)@ + unframe_commands(
                        old(self).clients@[j].windowid,
                        old(self).clients@[j].screen.unwrap().root,
                        old(self).clients@[j].frameid.unwrap(),
                    )
                } else {
                    &&& *final(self) == *old(self)
                    &&& final(cmds)@ == old(cmds)@
                }
            }),
    {
        // Spurious notification from the manager's own reparenting.
        if let Some(_s) = find_screen_index(&self.screens, ev.event) {
            return ;
        }
        if let Some(j) = find_client_index(&self.clients, ev.window) {
            if self.clients[j].mapped {
                proof {
                    lemma_mapped_count_at_least(self.clients@, j as int);
                }
                self.layout.pop();
                let mut c = self.clients[j];
                c.unframe(cmds);
                self.clients.set(j, c);
                proof {
                    lemma_mapped_count_update(old(self).clients@, j as int, c);
                }
            }
        }
    }

    /// Launch the configured program on the grabbed key binding:
    /// fire-and-forget, performed by the shell.
    pub fn on_key_press(&self, ev: &KeyPressEvent, cmds: &mut Vec<Command>)
        ensures
            final(cmds)@ == old(cmds)@.push(Command::SpawnLauncher),
    {
        cmds.push(Command::SpawnLauncher);
    }

    /// No state change in the default policy; reserved extension point.
    pub fn on_create_notify(&self, _ev: &CreateNotifyEvent) {
    }

    /// No state change in the default policy; reserved extension point.
    pub fn on_destroy_notify(&self, _ev: &DestroyNotifyEvent) {
    }

    /// No state change in the default policy; reserved extension point.
    pub fn on_map_notify(&self, _ev: &MapNotifyEvent) {
    }

    /// No state change in the default policy; reserved extension point.
    pub fn on_configure_notify(&self, _ev: &ConfigureNotifyEvent) {
    }

    /// No state change in the default policy; reserved extension point.
    pub fn on_reparent_notify(&self, _ev: &ReparentNotifyEvent) {
    }
}

} // verus!
