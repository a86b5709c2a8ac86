//! Tiling layout engines: stateful geometry generators keyed by ordinal slot
//! position, decoupled from window identity.
//!
//! Each engine owns a slot count, a round-robin cursor, the root dimensions,
//! and a derived sequence of geometries that is recomputed from scratch
//! whenever the slot count changes.

use vstd::prelude::*;

use crate::geom::Geom;
use crate::geom::Rect;
use crate::geom::RootParams;
use crate::geom::in_rect;

verus! {

// ---------------------------------------------------------------------------
// Specification: the geometry sequence each algorithm prescribes.
// ---------------------------------------------------------------------------

/// The rectangle the master-stack algorithm assigns to slot `i` out of `len`:
/// slot 0 spans the left two thirds at full height (the whole root when it is
/// alone); the remaining slots stack top-to-bottom in the right third, each
/// `h / (len - 1)` tall. Integer division drops remainder pixels, so the last
/// stack row may fall short of the bottom edge.
pub open spec fn master_rect(i: int, len: int, w: int, h: int) -> Rect {
    if len == 1 {
        Rect { x: 0, y: 0, w: w, h: h }
    } else if i == 0 {
        Rect { x: 0, y: 0, w: 2 * w / 3, h: h }
    } else {
        Rect { x: 2 * w / 3, y: (i - 1) * (h / (len - 1)), w: w / 3, h: h / (len - 1) }
    }
}

/// The full master-stack geometry sequence for `len` slots.
pub open spec fn master_rects(len: nat, w: int, h: int) -> Seq<Rect> {
    Seq::new(len, |i: int| master_rect(i, len as int, w, h))
}

/// The spiral algorithm from slot `i` on, with `n` slots still to place and
/// `r` the rectangle left to fill: an even-numbered slot takes the left half
/// of `r`, an odd-numbered slot the top half, and the last slot takes all of
/// `r`, so the sequence always tiles `r` exactly.
pub open spec fn spiral_fill(i: nat, n: nat, r: Rect) -> Seq<Rect>
    decreases n,
{
    if n <= 1 {
        seq![r]
    } else if i % 2 == 0 {
        seq![Rect { x: r.x, y: r.y, w: r.w / 2, h: r.h }]
            + spiral_fill(
            i + 1,
            (n - 1) as nat,
            Rect { x: r.x + r.w / 2, y: r.y, w: r.w - r.w / 2, h: r.h },
        )
    } else {
        seq![Rect { x: r.x, y: r.y, w: r.w, h: r.h / 2 }]
            + spiral_fill(
            i + 1,
            (n - 1) as nat,
            Rect { x: r.x, y: r.y + r.h / 2, w: r.w, h: r.h - r.h / 2 },
        )
    }
}

/// The full spiral geometry sequence for `len` slots.
pub open spec fn spiral_rects(len: nat, w: int, h: int) -> Seq<Rect> {
    if len == 0 {
        Seq::empty()
    } else {
        spiral_fill(0, len, Rect { x: 0, y: 0, w: w, h: h })
    }
}

/// Where the round-robin cursor stands after one more geometry is handed out.
pub open spec fn cursor_next(cur: nat, len: nat) -> nat {
    if cur + 1 == len {
        0
    } else {
        cur + 1
    }
}

// ---------------------------------------------------------------------------
// The layout capability set.
// ---------------------------------------------------------------------------

/// A stateful geometry generator over the capability set
/// {`push`, `pop`, `next_geom`, `reset`}.
pub trait Layout: Sized {
    /// Number of tiled slots.
    spec fn slots(&self) -> nat;

    /// Round-robin cursor, cycling through `[0, slots)`.
    spec fn cursor(&self) -> nat;

    /// Root width the generator was built with.
    spec fn root_width(&self) -> u16;

    /// Root height the generator was built with.
    spec fn root_height(&self) -> u16;

    /// The geometry sequence currently held.
    spec fn geom_seq(&self) -> Seq<Geom>;

    /// The geometry sequence this algorithm prescribes for `len` slots.
    spec fn rects_of(len: nat, w: int, h: int) -> Seq<Rect>;

    /// Where `reset` leaves the cursor, given where it stood.
    spec fn cursor_after_reset(cur: nat) -> nat;

    /// The prescribed sequence has one rectangle per slot.
    proof fn lemma_rects_len(len: nat, w: int, h: int)
        ensures
            Self::rects_of(len, w, h).len() == len,
    ;

    /// Deterministically rebuild the geometry sequence from the slot count
    /// and root dimensions. Idempotent: the result depends on nothing else.
    fn reset(&mut self)
        ensures
            final(self).slots() == old(self).slots(),
            final(self).root_width() == old(self).root_width(),
            final(self).root_height() == old(self).root_height(),
            final(self).cursor() == Self::cursor_after_reset(old(self).cursor()),
            final(self).geom_seq().len() == old(self).slots(),
            forall|i: int|
                0 <= i < old(self).slots() ==> (#[trigger] final(self).geom_seq()[i])@
                    == Self::rects_of(
                    old(self).slots(),
                    old(self).root_width() as int,
                    old(self).root_height() as int,
                )[i],
    ;

    /// Add one slot, then rebuild.
    fn push(&mut self)
        requires
            old(self).slots() < usize::MAX,
        ensures
            final(self).slots() == old(self).slots() + 1,
            final(self).root_width() == old(self).root_width(),
            final(self).root_height() == old(self).root_height(),
            final(self).cursor() == Self::cursor_after_reset(old(self).cursor()),
            final(self).geom_seq().len() == final(self).slots(),
            forall|i: int|
                0 <= i < final(self).slots() ==> (#[trigger] final(self).geom_seq()[i])@
                    == Self::rects_of(
                    final(self).slots(),
                    old(self).root_width() as int,
                    old(self).root_height() as int,
                )[i],
    ;

    /// Remove one slot, then rebuild. Callers must guarantee a prior `push`.
    fn pop(&mut self)
        requires
            old(self).slots() >= 1,
        ensures
            final(self).slots() == old(self).slots() - 1,
            final(self).root_width() == old(self).root_width(),
            final(self).root_height() == old(self).root_height(),
            final(self).cursor() == Self::cursor_after_reset(old(self).cursor()),
            final(self).geom_seq().len() == final(self).slots(),
            forall|i: int|
                0 <= i < final(self).slots() ==> (#[trigger] final(self).geom_seq()[i])@
                    == Self::rects_of(
                    final(self).slots(),
                    old(self).root_width() as int,
                    old(self).root_height() as int,
                )[i],
    ;

    /// Return the geometry at the cursor and advance it, wrapping to 0 when
    /// it reaches the slot count.
    fn next_geom(&mut self) -> (g: Geom)
        requires
            old(self).cursor() < old(self).slots(),
            old(self).geom_seq().len() == old(self).slots(),
        ensures
            g == old(self).geom_seq()[old(self).cursor() as int],
            final(self).geom_seq() == old(self).geom_seq(),
            final(self).slots() == old(self).slots(),
            final(self).root_width() == old(self).root_width(),
            final(self).root_height() == old(self).root_height(),
            final(self).cursor() == cursor_next(old(self).cursor(), old(self).slots()),
    ;
}

/// The generator's geometry sequence matches what its algorithm prescribes
/// for its current slot count and root dimensions.
pub open spec fn layout_wf<L: Layout>(l: &L) -> bool {
    &&& l.geom_seq().len() == l.slots()
    &&& forall|i: int|
        0 <= i < l.slots() ==> (#[trigger] l.geom_seq()[i])@ == L::rects_of(
            l.slots(),
            l.root_width() as int,
            l.root_height() as int,
        )[i]
}

// ---------------------------------------------------------------------------
// Spiral
// ---------------------------------------------------------------------------

/// Layout engine that recursively halves the remaining space in alternating
/// axes, the last slot taking the whole remainder.
#[derive(Debug)]
pub struct Spiral {
    cur: usize,
    len: usize,
    rootheight: u16,
    rootwidth: u16,
    geoms: Vec<Geom>,
}

impl Spiral {
    /// A spiral generator for the given root, with no slots yet.
    pub fn new(root_params: RootParams) -> (l: Box<Spiral>)
        ensures
            l.slots() == 0,
            l.cursor() == 0,
            l.root_width() == root_params.width,
            l.root_height() == root_params.height,
            l.geom_seq().len() == 0,
    {
        Box::new(
            Spiral {
                cur: 0,
                len: 0,
                rootwidth: root_params.width,
                rootheight: root_params.height,
                geoms: Vec::<Geom>::new(),
            },
        )
    }
}

proof fn lemma_spiral_fill_len(i: nat, n: nat, r: Rect)
    requires
        n >= 1,
    ensures
        spiral_fill(i, n, r).len() == n,
    decreases n,
{
    if n > 1 {
        if i % 2 == 0 {
            lemma_spiral_fill_len(
                i + 1,
                (n - 1) as nat,
                Rect { x: r.x + r.w / 2, y: r.y, w: r.w - r.w / 2, h: r.h },
            );
        } else {
            lemma_spiral_fill_len(
                i + 1,
                (n - 1) as nat,
                Rect { x: r.x, y: r.y + r.h / 2, w: r.w, h: r.h - r.h / 2 },
            );
        }
    }
}

impl Layout for Spiral {
    closed spec fn slots(&self) -> nat {
        self.len as nat
    }

    closed spec fn cursor(&self) -> nat {
        self.cur as nat
    }

    closed spec fn root_width(&self) -> u16 {
        self.rootwidth
    }

    closed spec fn root_height(&self) -> u16 {
        self.rootheight
    }

    closed spec fn geom_seq(&self) -> Seq<Geom> {
        self.geoms@
    }

    open spec fn rects_of(len: nat, w: int, h: int) -> Seq<Rect> {
        spiral_rects(len, w, h)
    }

    open spec fn cursor_after_reset(cur: nat) -> nat {
        0
    }

    proof fn lemma_rects_len(len: nat, w: int, h: int) {
        if len > 0 {
            lemma_spiral_fill_len(0, len, Rect { x: 0, y: 0, w: w, h: h });
        }
    }

    #[verifier::loop_isolation(false)]
    fn reset(&mut self) {
        self.cur = 0;
        self.geoms.clear();
        let len = self.len;
        let ghost w = self.rootwidth as int;
        let ghost h = self.rootheight as int;
        let mut rx: u16 = 0;
        let mut ry: u16 = 0;
        let mut rw: u16 = self.rootwidth;
        let mut rh: u16 = self.rootheight;
        let mut i: usize = 0;
        while i < len
            invariant
                i <= len,
                self.len == len,
                self.cur == 0,
                self.rootwidth as int == w,
                self.rootheight as int == h,
                self.geoms@.len() == i,
                rx as int + rw as int <= u16::MAX as int,
                ry as int + rh as int <= u16::MAX as int,
                forall|j: int|
                    0 <= j < i ==> (#[trigger] self.geoms@[j])@ == spiral_rects(
                        len as nat,
                        w,
                        h,
                    )[j],
                i < len ==> spiral_fill(
                    i as nat,
                    (len - i) as nat,
                    Rect { x: rx as int, y: ry as int, w: rw as int, h: rh as int },
                ) =~= spiral_rects(len as nat, w, h).skip(i as int),
            decreases len - i,
        {
            let ghost rcur = Rect { x: rx as int, y: ry as int, w: rw as int, h: rh as int };
            let ghost s = spiral_rects(len as nat, w, h);
            proof {
                lemma_spiral_fill_len(i as nat, (len - i) as nat, rcur);
                lemma_spiral_fill_len(0, len as nat, Rect { x: 0, y: 0, w: w, h: h });
                assert(s.len() == len);
            }
            if i + 1 == len {
                self.geoms.push(Geom { width: rw, height: rh, x: rx, y: ry });
                proof {
                    assert(spiral_fill(i as nat, 1, rcur) =~= seq![rcur]);
                    assert(s.skip(i as int)[0] == rcur);
                    assert(s[i as int] == s.skip(i as int)[0]);
                }
            } else if i % 2 == 0 {
                self.geoms.push(Geom { width: rw / 2, height: rh, x: rx, y: ry });
                let half = rw / 2;
                rx = rx + half;
                rw = rw - half;
                proof {
                    let head = Rect { x: rcur.x, y: rcur.y, w: rcur.w / 2, h: rcur.h };
                    let rest = Rect { x: rcur.x + rcur.w / 2, y: rcur.y, w: rcur.w - rcur.w / 2, h: rcur.h };
                    let tail = spiral_fill((i + 1) as nat, (len - i - 1) as nat, rest);
                    lemma_spiral_fill_len((i + 1) as nat, (len - i - 1) as nat, rest);
                    assert(spiral_fill(i as nat, (len - i) as nat, rcur) == seq![head] + tail);
                    assert(s.skip(i as int)[0] == (seq![head] + tail)[0]);
                    assert(s[i as int] == s.skip(i as int)[0]);
                    assert(s[i as int] == head);
                    assert forall|j: int| 0 <= j < len - i - 1 implies #[trigger] s.skip(
                        i as int + 1,
                    )[j] == tail[j] by {
                        assert(s.skip(i as int)[j + 1] == (seq![head] + tail)[j + 1]);
                        assert(s.skip(i as int)[j + 1] == s[i as int + 1 + j]);
                        assert(s.skip(i as int + 1)[j] == s[i as int + 1 + j]);
                    }
                    assert(tail =~= s.skip(i as int + 1));
                }
            } else {
                self.geoms.push(Geom { width: rw, height: rh / 2, x: rx, y: ry });
                let half = rh / 2;
                ry = ry + half;
                rh = rh - half;
                proof {
                    let head = Rect { x: rcur.x, y: rcur.y, w: rcur.w, h: rcur.h / 2 };
                    let rest = Rect { x: rcur.x, y: rcur.y + rcur.h / 2, w: rcur.w, h: rcur.h - rcur.h / 2 };
                    let tail = spiral_fill((i + 1) as nat, (len - i - 1) as nat, rest);
                    lemma_spiral_fill_len((i + 1) as nat, (len - i - 1) as nat, rest);
                    assert(spiral_fill(i as nat, (len - i) as nat, rcur) == seq![head] + tail);
                    assert(s.skip(i as int)[0] == (seq![head] + tail)[0]);
                    assert(s[i as int] == s.skip(i as int)[0]);
                    assert(s[i as int] == head);
                    assert forall|j: int| 0 <= j < len - i - 1 implies #[trigger] s.skip(
                        i as int + 1,
                    )[j] == tail[j] by {
                        assert(s.skip(i as int)[j + 1] == (seq![head] + tail)[j + 1]);
                        assert(s.skip(i as int)[j + 1] == s[i as int + 1 + j]);
                        assert(s.skip(i as int + 1)[j] == s[i as int + 1 + j]);
                    }
                    assert(tail =~= s.skip(i as int + 1));
                }
            }
            i = i + 1;
        }
    }

    fn push(&mut self) {
        self.len = self.len + 1;
        self.reset();
    }

    fn pop(&mut self) {
        self.len = self.len - 1;
        self.reset();
    }

    fn next_geom(&mut self) -> (g: Geom) {
        let cur = self.cur;
        self.cur = self.cur + 1;
        if self.cur == self.len {
            self.cur = 0;
        }
        self.geoms[cur]
    }
}

// ---------------------------------------------------------------------------
// Master-Stack
// ---------------------------------------------------------------------------

/// Layout engine that gives slot 0 the left two thirds of the root at full
/// height and stacks the remaining slots top-to-bottom in the right third.
#[derive(Debug)]
pub struct MasterSlave {
    cur: usize,
    len: usize,
    rootheight: u16,
    rootwidth: u16,
    geoms: Vec<Geom>,
}

impl MasterSlave {
    /// A master-stack generator for the given root, with no slots yet.
    pub fn new(root_params: RootParams) -> (l: Box<MasterSlave>)
        ensures
            l.slots() == 0,
            l.cursor() == 0,
            l.root_width() == root_params.width,
            l.root_height() == root_params.height,
            l.geom_seq().len() == 0,
    {
        Box::new(
            MasterSlave {
                cur: 0,
                len: 0,
                rootwidth: root_params.width,
                rootheight: root_params.height,
                geoms: Vec::<Geom>::new(),
            },
        )
    }
}

impl Layout for MasterSlave {
    closed spec fn slots(&self) -> nat {
        self.len as nat
    }

    closed spec fn cursor(&self) -> nat {
        self.cur as nat
    }

    closed spec fn root_width(&self) -> u16 {
        self.rootwidth
    }

    closed spec fn root_height(&self) -> u16 {
        self.rootheight
    }

    closed spec fn geom_seq(&self) -> Seq<Geom> {
        self.geoms@
    }

    open spec fn rects_of(len: nat, w: int, h: int) -> Seq<Rect> {
        master_rects(len, w, h)
    }

    open spec fn cursor_after_reset(cur: nat) -> nat {
        cur
    }

    proof fn lemma_rects_len(len: nat, w: int, h: int) {
    }

    #[verifier::loop_isolation(false)]
    fn reset(&mut self) {
        self.geoms.clear();
        let ghost w = self.rootwidth as int;
        let ghost h = self.rootheight as int;
        if self.len == 1 {
            self.geoms.push(Geom { width: self.rootwidth, height: self.rootheight, x: 0, y: 0 });
        } else {
            let len = self.len;
            let ghost cur0 = self.cur;
            let mut delta: usize = self.rootheight as usize;
            if len > 1 {
                delta = delta / (len - 1);
                proof {
                    vstd::arithmetic::div_mod::lemma_div_nonincreasing(h, len - 1 as int);
                    vstd::arithmetic::div_mod::lemma_div_pos_is_pos(h, len - 1 as int);
                }
            }
            let delta16: u16 = delta as u16;
            proof {
                vstd::arithmetic::div_mod::lemma_div_is_ordered(2 * w, 0x1fffe, 3);
            }
            let masterw: u16 = ((2 * (self.rootwidth as u32)) / 3) as u16;
            let stackw: u16 = self.rootwidth / 3;
            let mut y: u16 = 0;
            let mut i: usize = 0;
            while i < len
                invariant
                    i <= len,
                    self.len == len,
                    self.cur == cur0,
                    len != 1,
                    self.rootwidth as int == w,
                    self.rootheight as int == h,
                    self.geoms@.len() == i,
                    masterw as int == 2 * w / 3,
                    stackw as int == w / 3,
                    len > 1 ==> delta16 as int == h / (len - 1),
                    i >= 2 ==> y as int == (i - 2) * (delta16 as int),
                    i < 2 ==> y == 0,
                    forall|j: int|
                        0 <= j < i ==> (#[trigger] self.geoms@[j])@ == master_rects(
                            len as nat,
                            w,
                            h,
                        )[j],
                decreases len - i,
            {
                if i == 0 {
                    self.geoms.push(
                        Geom { width: masterw, height: self.rootheight, x: 0, y: 0 },
                    );
                } else if i > 1 {
                    proof {
                        vstd::arithmetic::mul::lemma_mul_inequality(
                            i - 1 as int,
                            len - 1 as int,
                            delta16 as int,
                        );
                        vstd::arithmetic::div_mod::lemma_remainder_lower(h, len - 1 as int);
                        vstd::arithmetic::mul::lemma_mul_is_commutative(
                            h / (len - 1 as int),
                            len - 1 as int,
                        );
                        vstd::arithmetic::mul::lemma_mul_is_distributive_sub_other_way(
                            delta16 as int,
                            i - 1 as int,
                            1,
                        );
                        assert((i - 1) * (delta16 as int) == (i - 2) * (delta16 as int)
                            + delta16 as int);
                    }
                    y = y + delta16;
                    self.geoms.push(Geom { width: stackw, height: delta16, x: masterw, y: y });
                } else {
                    y = 0;
                    self.geoms.push(Geom { width: stackw, height: delta16, x: masterw, y: 0 });
                    proof {
                        vstd::arithmetic::mul::lemma_mul_by_zero_is_zero(delta16 as int);
                    }
                }
                i = i + 1;
            }
        }
    }

    fn push(&mut self) {
        self.len = self.len + 1;
        self.reset();
    }

    fn pop(&mut self) {
        self.len = self.len - 1;
        self.reset();
    }

    fn next_geom(&mut self) -> (g: Geom) {
        let cur = self.cur;
        self.cur = self.cur + 1;
        if self.cur == self.len {
            self.cur = 0;
        }
        self.geoms[cur]
    }
}

// ---------------------------------------------------------------------------
// Laws
// ---------------------------------------------------------------------------

proof fn lemma_spiral_fill_partition(i: nat, n: nat, r: Rect, px: int, py: int)
    requires
        n >= 1,
        r.w >= 0,
        r.h >= 0,
    ensures
        spiral_fill(i, n, r).len() == n,
        in_rect(r, px, py) <==> exists|j: int|
            0 <= j < n && in_rect(#[trigger] spiral_fill(i, n, r)[j], px, py),
        forall|j: int, k: int|
            0 <= j < k < n ==> !(in_rect(#[trigger] spiral_fill(i, n, r)[j], px, py) && in_rect(
                #[trigger] spiral_fill(i, n, r)[k],
                px,
                py,
            )),
    decreases n,
{
    lemma_spiral_fill_len(i, n, r);
    let s = spiral_fill(i, n, r);
    if n == 1 {
        assert(s[0] == r);
        if in_rect(r, px, py) {
            assert(in_rect(s[0], px, py));
        }
    } else {
        let head = if i % 2 == 0 {
            Rect { x: r.x, y: r.y, w: r.w / 2, h: r.h }
        } else {
            Rect { x: r.x, y: r.y, w: r.w, h: r.h / 2 }
        };
        let rest = if i % 2 == 0 {
            Rect { x: r.x + r.w / 2, y: r.y, w: r.w - r.w / 2, h: r.h }
        } else {
            Rect { x: r.x, y: r.y + r.h / 2, w: r.w, h: r.h - r.h / 2 }
        };
        vstd::arithmetic::div_mod::lemma_div_pos_is_pos(r.w, 2);
        vstd::arithmetic::div_mod::lemma_div_nonincreasing(r.w, 2);
        vstd::arithmetic::div_mod::lemma_div_pos_is_pos(r.h, 2);
        vstd::arithmetic::div_mod::lemma_div_nonincreasing(r.h, 2);
        let tail = spiral_fill(i + 1, (n - 1) as nat, rest);
        lemma_spiral_fill_partition(i + 1, (n - 1) as nat, rest, px, py);
        assert(s == seq![head] + tail);
        assert(s[0] == head);
        assert forall|j: int| 1 <= j < n implies #[trigger] s[j] == tail[j - 1] by {
            assert(s[j] == (seq![head] + tail)[j]);
        }
        // `head` and `rest` split `r` exactly, on one axis.
        assert(in_rect(r, px, py) <==> (in_rect(head, px, py) || in_rect(rest, px, py)));
        assert(!(in_rect(head, px, py) && in_rect(rest, px, py)));
        // Coverage, both directions.
        if in_rect(r, px, py) {
            if in_rect(head, px, py) {
                assert(in_rect(s[0], px, py));
            } else {
                let j = choose|j: int| 0 <= j < n - 1 && in_rect(#[trigger] tail[j], px, py);
                assert(in_rect(s[j + 1], px, py));
            }
        }
        if exists|j: int| 0 <= j < n && in_rect(#[trigger] s[j], px, py) {
            let j = choose|j: int| 0 <= j < n && in_rect(#[trigger] s[j], px, py);
            if j > 0 {
                assert(in_rect(tail[j - 1], px, py));
                assert(in_rect(rest, px, py));
            }
        }
        // Pairwise disjointness.
        assert forall|j: int, k: int|
            0 <= j < k < n implies !(in_rect(#[trigger] s[j], px, py) && in_rect(
            #[trigger] s[k],
            px,
            py,
        )) by {
            if in_rect(s[j], px, py) && in_rect(s[k], px, py) {
                if j == 0 {
                    assert(in_rect(tail[k - 1], px, py));
                    assert(in_rect(rest, px, py));
                } else {
                    assert(in_rect(tail[j - 1], px, py) && in_rect(tail[k - 1], px, py));
                }
            }
        }
    }
}

/// Law: for every slot count of at least one, the spiral geometries tile the
/// root rectangle exactly: a point lies in the root rectangle if and only if
/// it lies in one of the generated rectangles, and it never lies in two.
pub proof fn lemma_spiral_partitions_root(len: nat, w: int, h: int, px: int, py: int)
    requires
        1 <= len,
        0 <= w,
        0 <= h,
    ensures
        in_rect(Rect { x: 0, y: 0, w: w, h: h }, px, py) <==> exists|j: int|
            0 <= j < len && in_rect(#[trigger] spiral_rects(len, w, h)[j], px, py),
        forall|j: int, k: int|
            0 <= j < k < len ==> !(in_rect(#[trigger] spiral_rects(len, w, h)[j], px, py)
                && in_rect(#[trigger] spiral_rects(len, w, h)[k], px, py)),
{
    let root = Rect { x: 0, y: 0, w: w, h: h };
    lemma_spiral_fill_partition(0, len, root, px, py);
    let sf = spiral_fill(0, len, root);
    let sr = spiral_rects(len, w, h);
    assert(sr == sf);
    if in_rect(root, px, py) {
        let j = choose|j: int| 0 <= j < len && in_rect(#[trigger] sf[j], px, py);
        assert(in_rect(sr[j], px, py));
    }
    if exists|j: int| 0 <= j < len && in_rect(#[trigger] sr[j], px, py) {
        let j = choose|j: int| 0 <= j < len && in_rect(#[trigger] sr[j], px, py);
        assert(in_rect(sf[j], px, py));
    }
    assert forall|j: int, k: int|
        0 <= j < k < len implies !(in_rect(#[trigger] sr[j], px, py) && in_rect(
        #[trigger] sr[k],
        px,
        py,
    )) by {
        assert(sr[j] == sf[j]);
        assert(sr[k] == sf[k]);
    }
}

/// Law: master-stack geometries are pairwise disjoint; with one slot they
/// cover the root exactly, and with more they cover exactly the points that
/// lie in the master column or above `(len - 1) * (h / (len - 1))` in the
/// stack column, leaving an uncovered strip of `h % (len - 1)` rows at the
/// bottom of the stack. Stated for root widths divisible by three, where the
/// two-thirds/one-third split is exact.
pub proof fn lemma_master_partitions_root(len: nat, w: int, h: int, px: int, py: int)
    requires
        1 <= len,
        0 <= w,
        w % 3 == 0,
        0 <= h,
    ensures
        forall|j: int, k: int|
            0 <= j < k < len ==> !(in_rect(#[trigger] master_rects(len, w, h)[j], px, py)
                && in_rect(#[trigger] master_rects(len, w, h)[k], px, py)),
        len == 1 ==> (in_rect(Rect { x: 0, y: 0, w: w, h: h }, px, py) <==> in_rect(
            master_rects(len, w, h)[0],
            px,
            py,
        )),
        len >= 2 ==> ((exists|j: int|
            0 <= j < len && in_rect(#[trigger] master_rects(len, w, h)[j], px, py)) <==> (in_rect(
            Rect { x: 0, y: 0, w: w, h: h },
            px,
            py,
        ) && (px < 2 * w / 3 || py < (len - 1) * (h / (len - 1))))),
        len >= 2 ==> h - (len - 1) * (h / (len - 1)) == h % (len - 1),
{
    let s = master_rects(len, w, h);
    if len == 1 {
        assert(s[0] == Rect { x: 0, y: 0, w: w, h: h });
    } else {
        let m = 2 * w / 3;
        let q = w / 3;
        let d = h / (len - 1);
        let n1 = len - 1;
        vstd::arithmetic::div_mod::lemma_fundamental_div_mod(w, 3);
        vstd::arithmetic::div_mod::lemma_div_multiples_vanish(2 * q, 3);
        assert(2 * w == 3 * (2 * q));
        assert(m == 2 * q);
        assert(m + q == w);
        vstd::arithmetic::div_mod::lemma_div_pos_is_pos(w, 3);
        vstd::arithmetic::div_mod::lemma_fundamental_div_mod(h, n1);
        vstd::arithmetic::div_mod::lemma_mod_bound(h, n1);
        vstd::arithmetic::div_mod::lemma_div_pos_is_pos(h, n1);
        vstd::arithmetic::mul::lemma_mul_is_commutative(n1, d);
        assert(n1 * d == h - h % n1);
        assert(n1 * d <= h);
        vstd::arithmetic::mul::lemma_mul_nonnegative(n1, d);
        // Pairwise disjointness.
        assert forall|j: int, k: int|
            0 <= j < k < len implies !(in_rect(#[trigger] s[j], px, py) && in_rect(
            #[trigger] s[k],
            px,
            py,
        )) by {
            if in_rect(s[j], px, py) && in_rect(s[k], px, py) {
                if j == 0 {
                    assert(px < m && px >= m);
                } else {
                    vstd::arithmetic::mul::lemma_mul_is_distributive_sub_other_way(d, j, 1);
                    vstd::arithmetic::mul::lemma_mul_inequality(j, k - 1, d);
                    assert(py < (j - 1) * d + d);
                    assert((j - 1) * d + d == j * d);
                    assert(py >= (k - 1) * d);
                    assert(false);
                }
            }
        }
        // Coverage: a hit implies the point is in the covered region.
        if exists|j: int| 0 <= j < len && in_rect(#[trigger] s[j], px, py) {
            let j = choose|j: int| 0 <= j < len && in_rect(#[trigger] s[j], px, py);
            if j == 0 {
                assert(in_rect(Rect { x: 0, y: 0, w: w, h: h }, px, py));
            } else {
                vstd::arithmetic::mul::lemma_mul_nonnegative(j - 1, d);
                vstd::arithmetic::mul::lemma_mul_is_distributive_sub_other_way(d, j, 1);
                vstd::arithmetic::mul::lemma_mul_inequality(j, n1, d);
                assert(py < j * d);
                assert(py < n1 * d);
                assert(in_rect(Rect { x: 0, y: 0, w: w, h: h }, px, py));
            }
        }
        // Coverage: a point in the covered region is hit.
        if in_rect(Rect { x: 0, y: 0, w: w, h: h }, px, py) {
            if px < m {
                assert(in_rect(s[0], px, py));
            } else if py < n1 * d {
                // The stack column; locate the row.
                assert(d >= 1) by {
                    if d <= 0 {
                        vstd::arithmetic::mul::lemma_mul_by_zero_is_zero(n1);
                        assert(n1 * d <= 0) by {
                            vstd::arithmetic::mul::lemma_mul_inequality(d, 0, n1);
                            vstd::arithmetic::mul::lemma_mul_is_commutative(d, n1);
                            vstd::arithmetic::mul::lemma_mul_is_commutative(0, n1);
                        }
                    }
                }
                let jj = py / d + 1;
                vstd::arithmetic::div_mod::lemma_div_pos_is_pos(py, d);
                vstd::arithmetic::div_mod::lemma_fundamental_div_mod(py, d);
                vstd::arithmetic::div_mod::lemma_mod_bound(py, d);
                vstd::arithmetic::mul::lemma_mul_is_commutative(d, py / d);
                assert((jj - 1) * d <= py);
                vstd::arithmetic::mul::lemma_mul_is_distributive_add_other_way(d, jj - 1, 1);
                assert(py < jj * d);
                // jj stays within the stack.
                assert(jj <= n1) by {
                    if jj > n1 {
                        vstd::arithmetic::mul::lemma_mul_inequality(n1, jj - 1, d);
                        assert(n1 * d <= (jj - 1) * d);
                        assert(false);
                    }
                }
                assert(in_rect(s[jj], px, py));
            }
        }
    }
}

/// Law: the round-robin cursor, started at zero over `len` slots, stands at
/// `k` after `k` advances for every `k < len`, and is back at zero after
/// exactly `len` advances. Together with `next_geom`'s contract this says
/// that `len` successive calls return each of the `len` geometries exactly
/// once, in increasing slot order, and that the following call returns slot
/// zero again.
pub proof fn lemma_round_robin(len: nat, k: nat)
    requires
        1 <= len,
        k <= len,
    ensures
        k < len ==> cursor_iter(0, len, k) == k,
        k == len ==> cursor_iter(0, len, k) == 0,
{
    lemma_cursor_iter_from(0, len, k);
}

/// The cursor after `k` successive advances from `cur`.
pub open spec fn cursor_iter(cur: nat, len: nat, k: nat) -> nat
    decreases k,
{
    if k == 0 {
        cur
    } else {
        cursor_iter(cursor_next(cur, len), len, (k - 1) as nat)
    }
}

proof fn lemma_cursor_iter_from(cur: nat, len: nat, k: nat)
    requires
        cur < len,
        cur + k <= len,
    ensures
        cur + k < len ==> cursor_iter(cur, len, k) == cur + k,
        cur + k == len ==> cursor_iter(cur, len, k) == 0,
    decreases k,
{
    if k > 0 {
        if cur + 1 == len {
            // Only possible when k == 1: the cursor wraps to zero.
            lemma_cursor_iter_from(0, len, (k - 1) as nat);
        } else {
            lemma_cursor_iter_from(cur + 1, len, (k - 1) as nat);
        }
    }
}

// ---------------------------------------------------------------------------
// The algorithm chosen at startup
// ---------------------------------------------------------------------------

/// The layout algorithm the manager runs: one of a closed set of variants
/// sharing the `Layout` capability set, selected once at startup.
pub enum ActiveLayout {
    MasterSlave(MasterSlave),
    Spiral(Spiral),
}

impl ActiveLayout {
    pub open spec fn is_master_slave(&self) -> bool {
        match self {
            ActiveLayout::MasterSlave(_) => true,
            ActiveLayout::Spiral(_) => false,
        }
    }

    pub open spec fn slots(&self) -> nat {
        match self {
            ActiveLayout::MasterSlave(l) => l.slots(),
            ActiveLayout::Spiral(l) => l.slots(),
        }
    }

    pub open spec fn cursor(&self) -> nat {
        match self {
            ActiveLayout::MasterSlave(l) => l.cursor(),
            ActiveLayout::Spiral(l) => l.cursor(),
        }
    }

    pub open spec fn root_width(&self) -> u16 {
        match self {
            ActiveLayout::MasterSlave(l) => l.root_width(),
            ActiveLayout::Spiral(l) => l.root_width(),
        }
    }

    pub open spec fn root_height(&self) -> u16 {
        match self {
            ActiveLayout::MasterSlave(l) => l.root_height(),
            ActiveLayout::Spiral(l) => l.root_height(),
        }
    }

    pub open spec fn geom_seq(&self) -> Seq<Geom> {
        match self {
            ActiveLayout::MasterSlave(l) => l.geom_seq(),
            ActiveLayout::Spiral(l) => l.geom_seq(),
        }
    }

    /// The geometry sequence the active algorithm prescribes for `len` slots
    /// on this root.
    pub open spec fn rects_of(&self, len: nat) -> Seq<Rect> {
        if self.is_master_slave() {
            master_rects(len, self.root_width() as int, self.root_height() as int)
        } else {
            spiral_rects(len, self.root_width() as int, self.root_height() as int)
        }
    }

    /// Where `reset` leaves the cursor: the spiral variant rewinds it, the
    /// master-stack variant keeps it.
    pub open spec fn cursor_on_reset(&self, cur: nat) -> nat {
        if self.is_master_slave() {
            cur
        } else {
            0
        }
    }

    /// The held geometry sequence matches what the algorithm prescribes.
    pub open spec fn wf(&self) -> bool {
        &&& self.geom_seq().len() == self.slots()
        &&& forall|i: int|
            0 <= i < self.slots() ==> (#[trigger] self.geom_seq()[i])@ == self.rects_of(
                self.slots(),
            )[i]
    }

    /// The prescribed sequence has one rectangle per slot.
    pub proof fn lemma_rects_len(&self, len: nat)
        ensures
            self.rects_of(len).len() == len,
    {
        let w = self.root_width() as int;
        let h = self.root_height() as int;
        if self.is_master_slave() {
            <MasterSlave as Layout>::lemma_rects_len(len, w, h);
        } else {
            <Spiral as Layout>::lemma_rects_len(len, w, h);
        }
    }

    /// Add one slot, then rebuild.
    pub fn push(&mut self)
        requires
            old(self).slots() < usize::MAX,
        ensures
            final(self).is_master_slave() == old(self).is_master_slave(),
            final(self).slots() == old(self).slots() + 1,
            final(self).root_width() == old(self).root_width(),
            final(self).root_height() == old(self).root_height(),
            final(self).cursor() == old(self).cursor_on_reset(old(self).cursor()),
            final(self).wf(),
    {
        match self {
            ActiveLayout::MasterSlave(l) => l.push(),
            ActiveLayout::Spiral(l) => l.push(),
        }
    }

    /// Remove one slot, then rebuild. Callers must guarantee a prior `push`.
    pub fn pop(&mut self)
        requires
            old(self).slots() >= 1,
        ensures
            final(self).is_master_slave() == old(self).is_master_slave(),
            final(self).slots() == old(self).slots() - 1,
            final(self).root_width() == old(self).root_width(),
            final(self).root_height() == old(self).root_height(),
            final(self).cursor() == old(self).cursor_on_reset(old(self).cursor()),
            final(self).wf(),
    {
        match self {
            ActiveLayout::MasterSlave(l) => l.pop(),
            ActiveLayout::Spiral(l) => l.pop(),
        }
    }

    /// Return the geometry at the cursor and advance it, wrapping to zero.
    pub fn next_geom(&mut self) -> (g: Geom)
        requires
            old(self).cursor() < old(self).slots(),
            old(self).geom_seq().len() == old(self).slots(),
        ensures
            final(self).is_master_slave() == old(self).is_master_slave(),
            g == old(self).geom_seq()[old(self).cursor() as int],
            final(self).geom_seq() == old(self).geom_seq(),
            final(self).slots() == old(self).slots(),
            final(self).root_width() == old(self).root_width(),
            final(self).root_height() == old(self).root_height(),
            final(self).cursor() == cursor_next(old(self).cursor(), old(self).slots()),
    {
        match self {
            ActiveLayout::MasterSlave(l) => l.next_geom(),
            ActiveLayout::Spiral(l) => l.next_geom(),
        }
    }
}

/// Law: a layout's geometry sequence is fully determined by its slot count
/// and root dimensions. Hence `reset` is idempotent — a second `reset` with
/// no intervening `push` or `pop` reproduces the same sequence — and a `push`
/// followed immediately by a `pop` restores the geometry sequence that
/// preceded the `push`, since both leave slot count and root unchanged.
pub proof fn lemma_geom_seq_determined<L: Layout>(a: &L, b: &L)
    requires
        layout_wf(a),
        layout_wf(b),
        a.slots() == b.slots(),
        a.root_width() == b.root_width(),
        a.root_height() == b.root_height(),
    ensures
        a.geom_seq() == b.geom_seq(),
{
    assert forall|i: int| 0 <= i < a.slots() implies a.geom_seq()[i] == b.geom_seq()[i] by {
        let ra = (#[trigger] a.geom_seq()[i])@;
        let rb = (#[trigger] b.geom_seq()[i])@;
        assert(ra == rb);
        crate::geom::lemma_view_injective(a.geom_seq()[i], b.geom_seq()[i]);
    }
    assert(a.geom_seq() =~= b.geom_seq());
}

} // verus!
