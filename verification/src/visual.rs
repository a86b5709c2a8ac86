//! Rendering-visual selection: picking a 32-bit ARGB visual from the
//! display's picture-format table when the alpha-compositing extension
//! advertises one, with the screen's default as fallback.

use vstd::prelude::*;

verus! {

/// One entry of the display's picture-format table, as plain values.
#[derive(Debug, Clone, Copy, PartialEq, Eq)]
pub struct PictFormatInfo {
    pub id: u32,
    pub is_direct: bool,
    pub depth: u8,
    pub red_shift: u16,
    pub red_mask: u16,
    pub green_shift: u16,
    pub green_mask: u16,
    pub blue_shift: u16,
    pub blue_mask: u16,
    pub alpha_shift: u16,
    pub alpha_mask: u16,
}

/// One visual of the screen's picture formats: the visual identifier and the
/// picture format it renders with.
#[derive(Debug, Clone, Copy, PartialEq, Eq)]
pub struct FormatVisual {
    pub visual: u32,
    pub format: u32,
}

/// What the alpha-visual discovery queries returned, as plain values: whether
/// the extension is present, the format table, the screen's visuals, and the
/// screen's default depth and visual to fall back on.
#[derive(Debug, Clone)]
pub struct VisualQuery {
    pub has_render: bool,
    pub formats: Vec<PictFormatInfo>,
    pub visuals: Vec<FormatVisual>,
    pub fallback_depth: u8,
    pub fallback_visual: u32,
}

/// One visual of a screen's allowed depths, as plain values.
#[derive(Debug, Clone, Copy, PartialEq, Eq)]
pub struct VisualTypeInfo {
    pub visual_id: u32,
    pub class: u8,
    pub bits_per_rgb_value: u8,
    pub colormap_entries: u16,
    pub red_mask: u32,
    pub green_mask: u32,
    pub blue_mask: u32,
}

/// A direct-mapped 32-bit picture format with 8-bit channel masks at shift
/// offsets 16/8/0/24 for red, green, blue and alpha: the ARGB32 layout.
pub open spec fn argb32_format(f: PictFormatInfo) -> bool {
    &&& f.is_direct
    &&& f.depth == 32
    &&& f.red_mask == 0xff
    &&& f.green_mask == 0xff
    &&& f.blue_mask == 0xff
    &&& f.alpha_mask == 0xff
    &&& f.red_shift == 16
    &&& f.green_shift == 8
    &&& f.blue_shift == 0
    &&& f.alpha_shift == 24
}

/// Index of the first ARGB32 format at or after `i`, or -1 if there is none.
pub open spec fn find_argb32_from(s: Seq<PictFormatInfo>, i: int) -> int
    decreases s.len() - i,
{
    if i < 0 || i >= s.len() {
        -1
    } else if argb32_format(s[i]) {
        i
    } else {
        find_argb32_from(s, i + 1)
    }
}

/// Index of the first visual rendering with format `fmt` at or after `i`,
/// or -1 if there is none.
pub open spec fn find_visual_from(s: Seq<FormatVisual>, fmt: u32, i: int) -> int
    decreases s.len() - i,
{
    if i < 0 || i >= s.len() {
        -1
    } else if s[i].format == fmt {
        i
    } else {
        find_visual_from(s, fmt, i + 1)
    }
}

/// The depth and visual that `choose_visual` picks: the first visual bound to
/// the first ARGB32 format when the alpha extension advertises one, otherwise
/// the screen's default.
pub open spec fn chosen_visual(q: VisualQuery) -> (u8, u32) {
    let fi = find_argb32_from(q.formats@, 0);
    if q.has_render && fi >= 0 {
        let vi = find_visual_from(q.visuals@, q.formats@[fi].id, 0);
        if vi >= 0 {
            (q.formats@[fi].depth, q.visuals@[vi].visual)
        } else {
            (q.fallback_depth, q.fallback_visual)
        }
    } else {
        (q.fallback_depth, q.fallback_visual)
    }
}

fn find_format(formats: &Vec<PictFormatInfo>) -> (r: Option<usize>)
    ensures
        match r {
            Some(i) => i < formats@.len() && find_argb32_from(formats@, 0) == i as int,
            None => find_argb32_from(formats@, 0) == -1,
        },
{
    let mut i: usize = 0;
    while i < formats.len()
        invariant
            i <= formats@.len(),
            find_argb32_from(formats@, 0) == find_argb32_from(formats@, i as int),
        decreases formats@.len() - i,
    {
        let f = &formats[i];
        if f.is_direct && f.depth == 32 && f.red_mask == 0xff && f.green_mask == 0xff
            && f.blue_mask == 0xff && f.alpha_mask == 0xff && f.red_shift == 16 && f.green_shift
            == 8 && f.blue_shift == 0 && f.alpha_shift == 24 {
            return Some(i);
        }
        i = i + 1;
    }
    None
}

fn find_visual(visuals: &Vec<FormatVisual>, fmt: u32) -> (r: Option<usize>)
    ensures
        match r {
            Some(i) => i < visuals@.len() && find_visual_from(visuals@, fmt, 0) == i as int,
            None => find_visual_from(visuals@, fmt, 0) == -1,
        },
{
    let mut i: usize = 0;
    while i < visuals.len()
        invariant
            i <= visuals@.len(),
            find_visual_from(visuals@, fmt, 0) == find_visual_from(visuals@, fmt, i as int),
        decreases visuals@.len() - i,
    {
        if visuals[i].format == fmt {
            return Some(i);
        }
        i = i + 1;
    }
    None
}

/// Select the rendering depth and visual for a new frame: the first ARGB32
/// visual the alpha-compositing extension advertises, or the screen's default
/// depth and visual when the extension is absent or offers no match.
pub fn choose_visual(q: &VisualQuery) -> (r: (u8, u32))
    ensures
        r == chosen_visual(*q),
{
    if q.has_render {
        if let Some(fi) = find_format(&q.formats) {
            let fmt = q.formats[fi].id;
            if let Some(vi) = find_visual(&q.visuals, fmt) {
                return (q.formats[fi].depth, q.visuals[vi].visual);
            }
        }
    }
    (q.fallback_depth, q.fallback_visual)
}

/// Index of the first visual with identifier `id` at or after `i`, or -1.
pub open spec fn find_visual_id_from(s: Seq<VisualTypeInfo>, id: u32, i: int) -> int
    decreases s.len() - i,
{
    if i < 0 || i >= s.len() {
        -1
    } else if s[i].visual_id == id {
        i
    } else {
        find_visual_id_from(s, id, i + 1)
    }
}

/// A `VisualTypeInfo` with every field zero, returned when no visual matches.
pub open spec fn zero_visual_type() -> VisualTypeInfo {
    VisualTypeInfo {
        visual_id: 0,
        class: 0,
        bits_per_rgb_value: 0,
        colormap_entries: 0,
        red_mask: 0,
        green_mask: 0,
        blue_mask: 0,
    }
}

/// Look a window's visual up among the screen's allowed visuals: the first
/// entry whose identifier matches, or an all-zero record when none does.
pub fn find_visual_type(visuals: &Vec<VisualTypeInfo>, window_visual: u32) -> (r: VisualTypeInfo)
    ensures
        ({
            let k = find_visual_id_from(visuals@, window_visual, 0);
            if k >= 0 {
                r == visuals@[k]
            } else {
                r == zero_visual_type()
            }
        }),
{
    let mut i: usize = 0;
    while i < visuals.len()
        invariant
            i <= visuals@.len(),
            find_visual_id_from(visuals@, window_visual, 0) == find_visual_id_from(
                visuals@,
                window_visual,
                i as int,
            ),
        decreases visuals@.len() - i,
    {
        if visuals[i].visual_id == window_visual {
            return visuals[i];
        }
        i = i + 1;
    }
    VisualTypeInfo {
        visual_id: 0,
        class: 0,
        bits_per_rgb_value: 0,
        colormap_entries: 0,
        red_mask: 0,
        green_mask: 0,
        blue_mask: 0,
    }
}

} // verus!
