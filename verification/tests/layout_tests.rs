use tilewm::geom::Geom;
use tilewm::geom::RootParams;
use tilewm::layout::Layout;
use tilewm::layout::MasterSlave;
use tilewm::layout::Spiral;

fn collect<L: Layout>(l: &mut L, n: usize) -> Vec<Geom> {
    let mut v = Vec::new();
    for _ in 0..n {
        v.push(l.next_geom());
    }
    v
}

fn geom(width: u16, height: u16, x: u16, y: u16) -> Geom {
    Geom { width, height, x, y }
}

fn overlaps(a: &Geom, b: &Geom) -> bool {
    let ax1 = a.x as u32;
    let ax2 = a.x as u32 + a.width as u32;
    let ay1 = a.y as u32;
    let ay2 = a.y as u32 + a.height as u32;
    let bx1 = b.x as u32;
    let bx2 = b.x as u32 + b.width as u32;
    let by1 = b.y as u32;
    let by2 = b.y as u32 + b.height as u32;
    ax1 < bx2 && bx1 < ax2 && ay1 < by2 && by1 < ay2
}

fn area_sum(gs: &[Geom]) -> u64 {
    gs.iter().map(|g| g.width as u64 * g.height as u64).sum()
}

#[test]
fn master_stack_single_slot_fills_root() {
    let mut l = MasterSlave::new(RootParams { width: 1200, height: 800 });
    l.push();
    let gs = collect(&mut *l, 1);
    assert_eq!(gs, vec![geom(1200, 800, 0, 0)]);
}

#[test]
fn master_stack_two_slots() {
    let mut l = MasterSlave::new(RootParams { width: 1200, height: 800 });
    l.push();
    l.push();
    let gs = collect(&mut *l, 2);
    assert_eq!(gs, vec![geom(800, 800, 0, 0), geom(400, 800, 800, 0)]);
}

#[test]
fn master_stack_three_slots() {
    let mut l = MasterSlave::new(RootParams { width: 1200, height: 800 });
    for _ in 0..3 {
        l.push();
    }
    let gs = collect(&mut *l, 3);
    assert_eq!(
        gs,
        vec![
            geom(800, 800, 0, 0),
            geom(400, 400, 800, 0),
            geom(400, 400, 800, 400)
        ]
    );
}

#[test]
fn spiral_single_slot_fills_root() {
    let mut l = Spiral::new(RootParams { width: 1200, height: 800 });
    l.push();
    let gs = collect(&mut *l, 1);
    assert_eq!(gs, vec![geom(1200, 800, 0, 0)]);
}

#[test]
fn spiral_two_slots_halve_the_root() {
    let mut l = Spiral::new(RootParams { width: 1200, height: 800 });
    l.push();
    l.push();
    let gs = collect(&mut *l, 2);
    assert_eq!(gs, vec![geom(600, 800, 0, 0), geom(600, 800, 600, 0)]);
}

#[test]
fn spiral_four_slots() {
    let mut l = Spiral::new(RootParams { width: 1200, height: 800 });
    for _ in 0..4 {
        l.push();
    }
    let gs = collect(&mut *l, 4);
    assert_eq!(
        gs,
        vec![
            geom(600, 800, 0, 0),
            geom(600, 400, 600, 0),
            geom(300, 400, 600, 400),
            geom(300, 400, 900, 400)
        ]
    );
}

// The union of the generated rectangles covers the root exactly for the
// spiral, and except for a bounded bottom strip of the stack column for
// master-stack; no two rectangles overlap in either algorithm.
#[test]
fn tilings_cover_without_overlap() {
    let (w, h): (u16, u16) = (1200, 800);
    for len in 1..=9usize {
        let mut sp = Spiral::new(RootParams { width: w, height: h });
        for _ in 0..len {
            sp.push();
        }
        let gs = collect(&mut *sp, len);
        for i in 0..len {
            for j in (i + 1)..len {
                assert!(!overlaps(&gs[i], &gs[j]), "spiral overlap at len {len}");
            }
        }
        assert_eq!(area_sum(&gs), w as u64 * h as u64, "spiral gap at len {len}");

        let mut ms = MasterSlave::new(RootParams { width: w, height: h });
        for _ in 0..len {
            ms.push();
        }
        let gs = collect(&mut *ms, len);
        for i in 0..len {
            for j in (i + 1)..len {
                assert!(!overlaps(&gs[i], &gs[j]), "master-stack overlap at len {len}");
            }
        }
        // The only permitted shortfall is the remainder strip at the bottom
        // of the stack column: (w / 3) * (h mod (len - 1)) pixels.
        let uncovered = w as u64 * h as u64 - area_sum(&gs);
        if len == 1 {
            assert_eq!(uncovered, 0);
        } else {
            let strip = (w as u64 / 3) * (h as u64 % (len as u64 - 1));
            assert_eq!(uncovered, strip, "master-stack shortfall at len {len}");
        }
    }
}

// reset is idempotent: two resets with no push/pop between produce an
// identical geometry sequence.
#[test]
fn reset_is_idempotent() {
    let mut l = MasterSlave::new(RootParams { width: 1200, height: 800 });
    for _ in 0..4 {
        l.push();
    }
    l.reset();
    let first = collect(&mut *l, 4);
    l.reset();
    let second = collect(&mut *l, 4);
    assert_eq!(first, second);

    let mut s = Spiral::new(RootParams { width: 1000, height: 700 });
    for _ in 0..5 {
        s.push();
    }
    s.reset();
    let first = collect(&mut *s, 5);
    s.reset();
    let second = collect(&mut *s, 5);
    assert_eq!(first, second);
}

// next_geom called exactly len times returns each geometry once, in slot
// order, then wraps back to slot 0 on the next call.
#[test]
fn next_geom_round_robin() {
    let mut l = MasterSlave::new(RootParams { width: 1200, height: 800 });
    for _ in 0..5 {
        l.push();
    }
    let first_cycle = collect(&mut *l, 5);
    // The five geometries are the master plus four distinct stack rows.
    assert_eq!(first_cycle[0], geom(800, 800, 0, 0));
    for i in 1..5u16 {
        assert_eq!(first_cycle[i as usize], geom(400, 200, 800, (i - 1) * 200));
    }
    // The sixth call wraps back to slot 0.
    let wrapped = l.next_geom();
    assert_eq!(wrapped, first_cycle[0]);
    // A further full cycle (completing the second round) repeats the rest.
    let rest = collect(&mut *l, 4);
    assert_eq!(rest, first_cycle[1..].to_vec());
}

// push followed immediately by pop restores the geometry sequence.
#[test]
fn push_then_pop_restores_geometries() {
    let mut l = MasterSlave::new(RootParams { width: 1200, height: 800 });
    for _ in 0..3 {
        l.push();
    }
    let before = collect(&mut *l, 3);
    l.push();
    l.pop();
    let after = collect(&mut *l, 3);
    assert_eq!(before, after);

    let mut s = Spiral::new(RootParams { width: 1200, height: 800 });
    for _ in 0..3 {
        s.push();
    }
    s.reset();
    let before = collect(&mut *s, 3);
    s.push();
    s.pop();
    let after = collect(&mut *s, 3);
    assert_eq!(before, after);
}
