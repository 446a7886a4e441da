use vstd::prelude::*;

use crate::error::UiError;
use crate::rect::Rect;
use crate::window::FillMode;
use crate::window::WindowAlignment;
use crate::window::WindowInfo;
use crate::window::WindowMode;
use crate::window::WindowRoot;

verus! {

/// The placed rectangle obstructs a window growing rightwards from
/// `(x, y)` with the given height: it lies strictly to the right of `x` and
/// its rows overlap the window's row band.
pub open spec fn width_obstacle(s: Rect, x: int, y: int, height: int) -> bool {
    &&& x < s.x
    &&& y + height >= s.y
    &&& y < s.y + s.height
}

/// The placed rectangle obstructs a window growing downwards from `(x, y)`
/// with the given width: it lies strictly below `y` and its columns overlap
/// the window's column band.
pub open spec fn height_obstacle(s: Rect, x: int, y: int, width: int) -> bool {
    &&& y < s.y
    &&& x < s.x + s.width
    &&& s.x < x + width
}

/// The cell lies inside the placed rectangle, with `contains`'s asymmetric
/// edges: right-exclusive, bottom-inclusive.
pub open spec fn covers(s: Rect, x: int, y: int) -> bool {
    &&& x >= s.x
    &&& x < s.x + s.width
    &&& y >= s.y
    &&& y <= s.y + s.height
}

/// Some placed rectangle covers the cell.
pub open spec fn cell_covered(used: Seq<Rect>, x: int, y: int) -> bool {
    exists|i: int| 0 <= i < used.len() && covers(#[trigger] used[i], x, y)
}

/// `w` is the width the horizontal fill rule yields at `(x, y)` with the
/// given row band: the distance to the nearest obstruction to the right,
/// or, where no obstruction is nearer than the `u16` limit, whatever the
/// terminal has left of the row.
pub open spec fn fill_width_ok(
    used: Seq<Rect>,
    x: int,
    y: int,
    height: int,
    term_width: int,
    w: int,
) -> bool {
    ||| {
        &&& exists|i: int|
            0 <= i < used.len() && width_obstacle(#[trigger] used[i], x, y, height) && used[i].x - x
                == w
        &&& w < u16::MAX
        &&& forall|j: int|
            0 <= j < used.len() && width_obstacle(#[trigger] used[j], x, y, height) ==> used[j].x
                - x >= w
    }
    ||| {
        &&& forall|j: int|
            0 <= j < used.len() && width_obstacle(#[trigger] used[j], x, y, height) ==> used[j].x
                - x >= u16::MAX
        &&& x <= term_width
        &&& w == term_width - x
    }
}

/// `h` is the height the vertical fill rule yields at `(x, y)` with the
/// given width: the distance to the nearest obstruction below, or, where
/// none is nearer than the `u16` limit, whatever the terminal has left of
/// the column.
pub open spec fn fill_height_ok(
    used: Seq<Rect>,
    x: int,
    y: int,
    width: int,
    term_height: int,
    h: int,
) -> bool {
    ||| {
        &&& exists|i: int|
            0 <= i < used.len() && height_obstacle(#[trigger] used[i], x, y, width) && used[i].y - y
                == h
        &&& h < u16::MAX
        &&& forall|j: int|
            0 <= j < used.len() && height_obstacle(#[trigger] used[j], x, y, width) ==> used[j].y
                - y >= h
    }
    ||| {
        &&& forall|j: int|
            0 <= j < used.len() && height_obstacle(#[trigger] used[j], x, y, width) ==> used[j].y
                - y >= u16::MAX
        &&& y <= term_height
        &&& h == term_height - y
    }
}

/// `(fx, fy)` is the first cell of the row-major top-down scan not covered
/// by any placed rectangle.
pub open spec fn first_free_top(used: Seq<Rect>, term: (u16, u16), fx: int, fy: int) -> bool {
    &&& 0 <= fx < term.0
    &&& 0 <= fy < term.1
    &&& !cell_covered(used, fx, fy)
    &&& forall|x2: int, y2: int|
        0 <= x2 < term.0 && 0 <= y2 < term.1 && (y2 < fy || (y2 == fy && x2 < fx))
            ==> cell_covered(used, x2, y2)
}

/// `(fx, fy)` is the first free cell of the bottom-up scan, which walks the
/// rows from the next-to-last upwards down to row one, each row left to
/// right.
pub open spec fn first_free_bottom(used: Seq<Rect>, term: (u16, u16), fx: int, fy: int) -> bool {
    &&& 0 <= fx < term.0
    &&& 1 <= fy < term.1
    &&& !cell_covered(used, fx, fy)
    &&& forall|x2: int, y2: int|
        0 <= x2 < term.0 && 1 <= y2 < term.1 && (y2 > fy || (y2 == fy && x2 < fx))
            ==> cell_covered(used, x2, y2)
}

/// `o` is the origin the solver gives a window with the given root: a fixed
/// point verbatim; for a floating window over an empty layout, the scan's
/// home corner; otherwise the first free cell of the scan, a top-aligned
/// origin additionally lifted one row (not above row zero).
pub open spec fn origin_ok(used: Seq<Rect>, root: WindowRoot, term: (u16, u16), o: (u16, u16)) -> bool {
    match root {
        WindowRoot::Point { x, y } => o == (x, y),
        WindowRoot::Floating(WindowAlignment::Top) => {
            if used.len() == 0 {
                o == (0u16, 0u16)
            } else {
                exists|fx: int, fy: int|
                    #[trigger] first_free_top(used, term, fx, fy) && o == ((fx as u16), ((if fy >= 1 {
                        fy - 1
                    } else {
                        0
                    }) as u16))
            }
        },
        WindowRoot::Floating(WindowAlignment::Bottom) => {
            if used.len() == 0 {
                o == (0u16, term.1)
            } else {
                exists|fx: int, fy: int|
                    #[trigger] first_free_bottom(used, term, fx, fy) && o == ((fx as u16), (
                    fy as u16))
            }
        },
    }
}

/// The window's root is floating with bottom alignment.
pub open spec fn is_bottom_floating(root: WindowRoot) -> bool {
    root == WindowRoot::Floating(WindowAlignment::Bottom)
}

/// The width the horizontal fill rule yields (unique when it exists, by
/// `lemma_fill_width_unique`).
pub open spec fn spec_fill_width(used: Seq<Rect>, x: int, y: int, height: int, tw: int) -> int {
    choose|w: int| fill_width_ok(used, x, y, height, tw, w)
}

/// The height the vertical fill rule yields (unique when it exists, by
/// `lemma_fill_height_unique`).
pub open spec fn spec_fill_height(used: Seq<Rect>, x: int, y: int, width: int, th: int) -> int {
    choose|h: int| fill_height_ok(used, x, y, width, th, h)
}

/// `rect` is the rectangle the solver's sizing rules give a window with
/// origin `o` over the already-placed rectangles. Bottom-aligned floating
/// windows with an explicit or fill-width height first shift their origin
/// up by that height; the final terminal row stays reserved, so fills stop
/// one row short of the terminal's height.
pub open spec fn sized_ok(
    used: Seq<Rect>,
    info: WindowInfo,
    term: (u16, u16),
    o: (u16, u16),
    rect: Rect,
) -> bool {
    let tw = term.0 as int;
    let th = term.1 - 1;
    match info.mode {
        WindowMode::Bounds { width, height } => {
            let y = if is_bottom_floating(info.root) {
                o.1 - height
            } else {
                o.1 as int
            };
            &&& y >= 0
            &&& rect == (Rect { x: o.0, y: y as u16, width, height })
        },
        WindowMode::FillH { height } => {
            let y = if is_bottom_floating(info.root) {
                o.1 - height
            } else {
                o.1 as int
            };
            let w = spec_fill_width(used, o.0 as int, y, height as int, tw);
            &&& y >= 0
            &&& fill_width_ok(used, o.0 as int, y, height as int, tw, w)
            &&& rect == (Rect { x: o.0, y: y as u16, width: w as u16, height })
        },
        WindowMode::FillV { width } => {
            let h = spec_fill_height(used, o.0 as int, o.1 as int, width as int, th);
            &&& fill_height_ok(used, o.0 as int, o.1 as int, width as int, th, h)
            &&& rect == (Rect { x: o.0, y: o.1, width, height: h as u16 })
        },
        WindowMode::Fill(FillMode::FillHFirst) => {
            let w = spec_fill_width(used, o.0 as int, o.1 as int, 0, tw);
            let h = spec_fill_height(used, o.0 as int, o.1 as int, w, th);
            &&& fill_width_ok(used, o.0 as int, o.1 as int, 0, tw, w)
            &&& fill_height_ok(used, o.0 as int, o.1 as int, w, th, h)
            &&& rect == (Rect { x: o.0, y: o.1, width: w as u16, height: h as u16 })
        },
        WindowMode::Fill(FillMode::FillVFirst) => {
            let h = spec_fill_height(used, o.0 as int, o.1 as int, 0, th);
            let w = spec_fill_width(used, o.0 as int, o.1 as int, h, tw);
            &&& fill_height_ok(used, o.0 as int, o.1 as int, 0, th, h)
            &&& fill_width_ok(used, o.0 as int, o.1 as int, h, tw, w)
            &&& rect == (Rect { x: o.0, y: o.1, width: w as u16, height: h as u16 })
        },
        WindowMode::Fill(FillMode::MaxArea) => {
            let wh = spec_fill_width(used, o.0 as int, o.1 as int, 0, tw);
            let hh = spec_fill_height(used, o.0 as int, o.1 as int, wh, th);
            let hv = spec_fill_height(used, o.0 as int, o.1 as int, 0, th);
            let wv = spec_fill_width(used, o.0 as int, o.1 as int, hv, tw);
            &&& fill_width_ok(used, o.0 as int, o.1 as int, 0, tw, wh)
            &&& fill_height_ok(used, o.0 as int, o.1 as int, wh, th, hh)
            &&& fill_height_ok(used, o.0 as int, o.1 as int, 0, th, hv)
            &&& fill_width_ok(used, o.0 as int, o.1 as int, hv, tw, wv)
            &&& rect == (if wh * hh > wv * hv {
                Rect { x: o.0, y: o.1, width: wh as u16, height: hh as u16 }
            } else {
                Rect { x: o.0, y: o.1, width: wv as u16, height: hv as u16 }
            })
        },
    }
}


/// The window's explicit geometry stays within the `u16` range wherever
/// its origin can land: a machine limit, not a solver rule. Fill-derived
/// sizes are always in range and need no condition.
pub open spec fn info_fits(info: WindowInfo, term: (u16, u16)) -> bool {
    let ox = match info.root {
        WindowRoot::Point { x, y } => x as int,
        WindowRoot::Floating(_) => term.0 as int,
    };
    let oy = match info.root {
        WindowRoot::Point { x, y } => y as int,
        WindowRoot::Floating(_) => term.1 as int,
    };
    match info.mode {
        WindowMode::Bounds { width, height } => ox + width <= u16::MAX && oy + height <= u16::MAX,
        WindowMode::FillH { height } => oy + height <= u16::MAX,
        WindowMode::FillV { width } => ox + width <= u16::MAX,
        WindowMode::Fill(_) => true,
    }
}

/// `rect` is the rectangle the solver assigns a window with this placement
/// request, given the rectangles already placed: its origin follows the
/// root rule and its size the mode rule.
pub open spec fn placed_ok(info: WindowInfo, used: Seq<Rect>, term: (u16, u16), rect: Rect) -> bool {
    exists|o: (u16, u16)|
        #[trigger] origin_ok(used, info.root, term, o) && sized_ok(used, info, term, o, rect)
}

/// Why a placement can fail: the floating-origin scan found every cell
/// claimed, a bottom-aligned window's height reaches above the terminal
/// top, or a fill's fallback would start past the terminal edge.
pub open spec fn placement_blocked(info: WindowInfo, used: Seq<Rect>, term: (u16, u16)) -> bool {
    ||| {
        // the origin scan exhausted the grid
        &&& info.root matches WindowRoot::Floating(_)
        &&& used.len() > 0
        &&& !(exists|o: (u16, u16)| #[trigger] origin_ok(used, info.root, term, o))
    }
    ||| {
        // no rectangle satisfies the sizing rule at the found origin
        exists|o: (u16, u16)|
            #[trigger] origin_ok(used, info.root, term, o) && !(exists|rect: Rect|
                #[trigger] sized_ok(used, info, term, o, rect))
    }
}

/// Some placed rectangle covers the cell (executable form, comparing in
/// `u32` so that coordinate sums past the `u16` range stay exact).
fn cell_covered_exec(used: &Vec<Rect>, x: u16, y: u16) -> (r: bool)
    ensures
        r == cell_covered(used@, x as int, y as int),
{
    let mut k: usize = 0;

    while k < used.len()
        invariant
            k <= used@.len(),
            forall|t: int| 0 <= t < k ==> !covers(#[trigger] used@[t], x as int, y as int),
        decreases used@.len() - k,
    {
        let s = used[k];

        if x as u32 >= s.x as u32 && (x as u32) < (s.x as u32) + (s.width as u32) && y as u32
            >= s.y as u32 && y as u32 <= (s.y as u32) + (s.height as u32) {
            return true;
        }

        k = k + 1;
    }

    false
}

/// The width the horizontal fill rule finds: the least distance to an
/// obstruction right of the window's origin within its row band, or nothing
/// where no obstruction is nearer than the `u16` limit.
fn window_max_width(window: Rect, used_space: &Vec<Rect>) -> (r: Option<u16>)
    ensures
        match r {
            Some(m) => {
                &&& m < u16::MAX
                &&& exists|i: int|
                    0 <= i < used_space@.len() && width_obstacle(
                        #[trigger] used_space@[i],
                        window.x as int,
                        window.y as int,
                        window.height as int,
                    ) && used_space@[i].x - window.x == m
                &&& forall|j: int|
                    0 <= j < used_space@.len() && width_obstacle(
                        #[trigger] used_space@[j],
                        window.x as int,
                        window.y as int,
                        window.height as int,
                    ) ==> used_space@[j].x - window.x >= m
            },
            None => forall|j: int|
                0 <= j < used_space@.len() && width_obstacle(
                    #[trigger] used_space@[j],
                    window.x as int,
                    window.y as int,
                    window.height as int,
                ) ==> used_space@[j].x - window.x >= u16::MAX,
        },
{
    let mut min_width: u16 = u16::MAX;
    let mut k: usize = 0;

    while k < used_space.len()
        invariant
            k <= used_space@.len(),
            forall|j: int|
                0 <= j < k && width_obstacle(
                    #[trigger] used_space@[j],
                    window.x as int,
                    window.y as int,
                    window.height as int,
                ) ==> used_space@[j].x - window.x >= min_width,
            min_width < u16::MAX ==> exists|i: int|
                0 <= i < k && width_obstacle(
                    #[trigger] used_space@[i],
                    window.x as int,
                    window.y as int,
                    window.height as int,
                ) && used_space@[i].x - window.x == min_width,
        decreases used_space@.len() - k,
    {
        let s = used_space[k];

        if (window.x as u32) < s.x as u32 && (window.y as u32) + (window.height as u32) >= s.y
            as u32 && (window.y as u32) < (s.y as u32) + (s.height as u32) {
            let d = s.x - window.x;

            if d < min_width {
                min_width = d;
            }
        }

        k = k + 1;
    }

    if min_width != u16::MAX {
        Some(min_width)
    } else {
        None
    }
}

/// The height the vertical fill rule finds: the least distance to an
/// obstruction below the window's origin passing the column test, or
/// nothing where no obstruction is nearer than the `u16` limit.
fn window_max_height(window: Rect, used_space: &Vec<Rect>) -> (r: Option<u16>)
    ensures
        match r {
            Some(m) => {
                &&& m < u16::MAX
                &&& exists|i: int|
                    0 <= i < used_space@.len() && height_obstacle(
                        #[trigger] used_space@[i],
                        window.x as int,
                        window.y as int,
                        window.width as int,
                    ) && used_space@[i].y - window.y == m
                &&& forall|j: int|
                    0 <= j < used_space@.len() && height_obstacle(
                        #[trigger] used_space@[j],
                        window.x as int,
                        window.y as int,
                        window.width as int,
                    ) ==> used_space@[j].y - window.y >= m
            },
            None => forall|j: int|
                0 <= j < used_space@.len() && height_obstacle(
                    #[trigger] used_space@[j],
                    window.x as int,
                    window.y as int,
                    window.width as int,
                ) ==> used_space@[j].y - window.y >= u16::MAX,
        },
{
    let mut min_height: u16 = u16::MAX;
    let mut k: usize = 0;

    while k < used_space.len()
        invariant
            k <= used_space@.len(),
            forall|j: int|
                0 <= j < k && height_obstacle(
                    #[trigger] used_space@[j],
                    window.x as int,
                    window.y as int,
                    window.width as int,
                ) ==> used_space@[j].y - window.y >= min_height,
            min_height < u16::MAX ==> exists|i: int|
                0 <= i < k && height_obstacle(
                    #[trigger] used_space@[i],
                    window.x as int,
                    window.y as int,
                    window.width as int,
                ) && used_space@[i].y - window.y == min_height,
        decreases used_space@.len() - k,
    {
        let s = used_space[k];

        if (window.y as u32) < s.y as u32 && (window.x as u32) < (s.x as u32) + (s.width as u32)
            && (s.x as u32) < (window.x as u32) + (window.width as u32) {
            let d = s.y - window.y;

            if d < min_height {
                min_height = d;
            }
        }

        k = k + 1;
    }

    if min_height != u16::MAX {
        Some(min_height)
    } else {
        None
    }
}

/// The origin the floating scan finds: over an empty layout the scan's home
/// corner, otherwise the first unclaimed cell, or nothing where the whole
/// grid is claimed.
fn calculate_origin(used_space: &Vec<Rect>, alignment: WindowAlignment, term_size: (u16, u16)) -> (r:
    Option<(u16, u16)>)
    ensures
        match r {
            Some(o) => origin_ok(used_space@, WindowRoot::Floating(alignment), term_size, o)
                && o.0 <= term_size.0 && o.1 <= term_size.1,
            None => used_space@.len() > 0 && !(exists|o: (u16, u16)|
                #[trigger] origin_ok(used_space@, WindowRoot::Floating(alignment), term_size, o)),
        },
{
    if used_space.len() == 0 {
        return match alignment {
            WindowAlignment::Top => Some((0, 0)),
            WindowAlignment::Bottom => Some((0, term_size.1)),
        };
    }

    let (max_width, max_height) = term_size;

    match alignment {
        WindowAlignment::Top => {
            let mut y: u16 = 0;

            while y < max_height
                invariant
                    y <= max_height,
                    max_width == term_size.0,
                    max_height == term_size.1,
                    used_space@.len() > 0,
                    alignment == WindowAlignment::Top,
                    forall|x2: int, y2: int|
                        0 <= x2 < max_width && 0 <= y2 < y ==> cell_covered(used_space@, x2, y2),
                decreases max_height - y,
            {
                let mut x: u16 = 0;

                while x < max_width
                    invariant
                        x <= max_width,
                        y < max_height,
                        max_width == term_size.0,
                        max_height == term_size.1,
                        used_space@.len() > 0,
                        alignment == WindowAlignment::Top,
                        forall|x2: int, y2: int|
                            0 <= x2 < max_width && 0 <= y2 < y ==> cell_covered(
                                used_space@,
                                x2,
                                y2,
                            ),
                        forall|x2: int| 0 <= x2 < x ==> cell_covered(used_space@, x2, y as int),
                    decreases max_width - x,
                {
                    if !cell_covered_exec(used_space, x, y) {
                        let oy = if y >= 1 {
                            y - 1
                        } else {
                            0
                        };

                        proof {
                            assert(first_free_top(used_space@, term_size, x as int, y as int));
                            assert(origin_ok(
                                used_space@,
                                WindowRoot::Floating(alignment),
                                term_size,
                                (x, oy),
                            ));
                        }

                        return Some((x, oy));
                    }

                    x = x + 1;
                }

                y = y + 1;
            }

            proof {
                assert forall|o: (u16, u16)| !origin_ok(
                    used_space@,
                    WindowRoot::Floating(alignment),
                    term_size,
                    o,
                ) by {
                    if origin_ok(used_space@, WindowRoot::Floating(alignment), term_size, o) {
                        let (fx, fy) = choose|fx: int, fy: int|
                            #[trigger] first_free_top(used_space@, term_size, fx, fy) && o == ((
                            fx as u16,
                            (if fy >= 1 {
                                fy - 1
                            } else {
                                0
                            }) as u16,
                        ));
                        assert(cell_covered(used_space@, fx, fy));
                    }
                }
            }

            None
        },
        WindowAlignment::Bottom => {
            let mut step: u16 = 1;

            while step < max_height
                invariant
                    1 <= step <= max_height || (step == 1 && max_height == 0),
                    max_width == term_size.0,
                    max_height == term_size.1,
                    used_space@.len() > 0,
                    alignment == WindowAlignment::Bottom,
                    forall|x2: int, y2: int|
                        0 <= x2 < max_width && max_height - step < y2 < max_height ==> cell_covered(
                            used_space@,
                            x2,
                            y2,
                        ),
                decreases max_height - step,
            {
                let row = max_height - step;
                let mut x: u16 = 0;

                while x < max_width
                    invariant
                        x <= max_width,
                        row == max_height - step,
                        1 <= step < max_height,
                        max_width == term_size.0,
                        max_height == term_size.1,
                        used_space@.len() > 0,
                        alignment == WindowAlignment::Bottom,
                        forall|x2: int, y2: int|
                            0 <= x2 < max_width && max_height - step < y2 < max_height
                                ==> cell_covered(used_space@, x2, y2),
                        forall|x2: int| 0 <= x2 < x ==> cell_covered(used_space@, x2, row as int),
                    decreases max_width - x,
                {
                    if !cell_covered_exec(used_space, x, row) {
                        proof {
                            assert(first_free_bottom(used_space@, term_size, x as int, row as int));
                            assert(origin_ok(
                                used_space@,
                                WindowRoot::Floating(alignment),
                                term_size,
                                (x, row),
                            ));
                        }

                        return Some((x, row));
                    }

                    x = x + 1;
                }

                step = step + 1;
            }

            proof {
                assert forall|o: (u16, u16)| !origin_ok(
                    used_space@,
                    WindowRoot::Floating(alignment),
                    term_size,
                    o,
                ) by {
                    if origin_ok(used_space@, WindowRoot::Floating(alignment), term_size, o) {
                        let (fx, fy) = choose|fx: int, fy: int|
                            #[trigger] first_free_bottom(used_space@, term_size, fx, fy) && o == ((
                            fx as u16,
                            fy as u16,
                        ));
                        assert(cell_covered(used_space@, fx, fy));
                    }
                }
            }

            None
        },
    }
}

/// The horizontal fill rule yields at most one width.
pub proof fn lemma_fill_width_unique(
    used: Seq<Rect>,
    x: int,
    y: int,
    height: int,
    tw: int,
    w1: int,
    w2: int,
)
    requires
        fill_width_ok(used, x, y, height, tw, w1),
        fill_width_ok(used, x, y, height, tw, w2),
    ensures
        w1 == w2,
{
    if exists|i: int|
        0 <= i < used.len() && width_obstacle(#[trigger] used[i], x, y, height) && used[i].x - x
            == w1 {
        let i1 = choose|i: int|
            0 <= i < used.len() && width_obstacle(#[trigger] used[i], x, y, height) && used[i].x - x
                == w1;
        assert(used[i1].x - x >= w2 || w2 == tw - x);
    }
    if exists|i: int|
        0 <= i < used.len() && width_obstacle(#[trigger] used[i], x, y, height) && used[i].x - x
            == w2 {
        let i2 = choose|i: int|
            0 <= i < used.len() && width_obstacle(#[trigger] used[i], x, y, height) && used[i].x - x
                == w2;
        assert(used[i2].x - x >= w1 || w1 == tw - x);
    }
}

/// The vertical fill rule yields at most one height.
pub proof fn lemma_fill_height_unique(
    used: Seq<Rect>,
    x: int,
    y: int,
    width: int,
    th: int,
    h1: int,
    h2: int,
)
    requires
        fill_height_ok(used, x, y, width, th, h1),
        fill_height_ok(used, x, y, width, th, h2),
    ensures
        h1 == h2,
{
    if exists|i: int|
        0 <= i < used.len() && height_obstacle(#[trigger] used[i], x, y, width) && used[i].y - y
            == h1 {
        let i1 = choose|i: int|
            0 <= i < used.len() && height_obstacle(#[trigger] used[i], x, y, width) && used[i].y - y
                == h1;
        assert(used[i1].y - y >= h2 || h2 == th - y);
    }
    if exists|i: int|
        0 <= i < used.len() && height_obstacle(#[trigger] used[i], x, y, width) && used[i].y - y
            == h2 {
        let i2 = choose|i: int|
            0 <= i < used.len() && height_obstacle(#[trigger] used[i], x, y, width) && used[i].y - y
                == h2;
        assert(used[i2].y - y >= h1 || h1 == th - y);
    }
}

/// One application of the horizontal fill rule: the distance to the nearest
/// obstruction, else the rest of the terminal row, else nothing where even
/// the fallback is impossible.
fn fill_width(used: &Vec<Rect>, x: u16, y: u16, height: u16, term_width: u16) -> (r: Option<u16>)
    ensures
        match r {
            Some(w) => fill_width_ok(
                used@,
                x as int,
                y as int,
                height as int,
                term_width as int,
                w as int,
            ) && x + w <= u16::MAX,
            None => forall|w: int|
                !fill_width_ok(used@, x as int, y as int, height as int, term_width as int, w),
        },
{
    let probe = Rect { x, y, width: 0, height };

    match window_max_width(probe, used) {
        Some(m) => {
            proof {
                let i1 = choose|i: int|
                    0 <= i < used@.len() && width_obstacle(
                        #[trigger] used@[i],
                        x as int,
                        y as int,
                        height as int,
                    ) && used@[i].x - x == m;
                assert(x + m == used@[i1].x);
            }

            Some(m)
        },
        None => {
            if x <= term_width {
                Some(term_width - x)
            } else {
                proof {
                    assert forall|w: int|
                        !fill_width_ok(
                            used@,
                            x as int,
                            y as int,
                            height as int,
                            term_width as int,
                            w,
                        ) by {
                        if fill_width_ok(
                            used@,
                            x as int,
                            y as int,
                            height as int,
                            term_width as int,
                            w,
                        ) {
                            if exists|i: int|
                                0 <= i < used@.len() && width_obstacle(
                                    #[trigger] used@[i],
                                    x as int,
                                    y as int,
                                    height as int,
                                ) && used@[i].x - x == w {
                                let i1 = choose|i: int|
                                    0 <= i < used@.len() && width_obstacle(
                                        #[trigger] used@[i],
                                        x as int,
                                        y as int,
                                        height as int,
                                    ) && used@[i].x - x == w;
                                assert(used@[i1].x - x >= u16::MAX);
                            }
                        }
                    }
                }

                None
            }
        },
    }
}

/// One application of the vertical fill rule: the distance to the nearest
/// obstruction, else the rest of the terminal column, else nothing where
/// even the fallback is impossible.
fn fill_height(used: &Vec<Rect>, x: u16, y: u16, width: u16, term_height: u16) -> (r: Option<u16>)
    ensures
        match r {
            Some(h) => fill_height_ok(
                used@,
                x as int,
                y as int,
                width as int,
                term_height as int,
                h as int,
            ) && y + h <= u16::MAX,
            None => forall|h: int|
                !fill_height_ok(used@, x as int, y as int, width as int, term_height as int, h),
        },
{
    let probe = Rect { x, y, width, height: 0 };

    match window_max_height(probe, used) {
        Some(m) => {
            proof {
                let i1 = choose|i: int|
                    0 <= i < used@.len() && height_obstacle(
                        #[trigger] used@[i],
                        x as int,
                        y as int,
                        width as int,
                    ) && used@[i].y - y == m;
                assert(y + m == used@[i1].y);
            }

            Some(m)
        },
        None => {
            if y <= term_height {
                Some(term_height - y)
            } else {
                proof {
                    assert forall|h: int|
                        !fill_height_ok(
                            used@,
                            x as int,
                            y as int,
                            width as int,
                            term_height as int,
                            h,
                        ) by {
                        if fill_height_ok(
                            used@,
                            x as int,
                            y as int,
                            width as int,
                            term_height as int,
                            h,
                        ) {
                            if exists|i: int|
                                0 <= i < used@.len() && height_obstacle(
                                    #[trigger] used@[i],
                                    x as int,
                                    y as int,
                                    width as int,
                                ) && used@[i].y - y == h {
                                let i1 = choose|i: int|
                                    0 <= i < used@.len() && height_obstacle(
                                        #[trigger] used@[i],
                                        x as int,
                                        y as int,
                                        width as int,
                                    ) && used@[i].y - y == h;
                                assert(used@[i1].y - y >= u16::MAX);
                            }
                        }
                    }
                }

                None
            }
        },
    }
}

/// The rectangle the solver assigns one window over the rectangles already
/// placed: the origin from the root rule, the size from the mode rule, with
/// the terminal's final row reserved. Fails with the layout-infeasible
/// error exactly on the blocked placements `placement_blocked` describes.
pub fn get_window_dimensions(info: WindowInfo, used_space: &Vec<Rect>, term: (u16, u16)) -> (r:
    Result<Rect, UiError>)
    requires
        term.1 >= 1,
        info_fits(info, term),
    ensures
        match r {
            Ok(rect) => placed_ok(info, used_space@, term, rect) && rect.x + rect.width
                <= u16::MAX && rect.y + rect.height <= u16::MAX,
            Err(e) => e == UiError::LayoutInfeasible && placement_blocked(info, used_space@, term),
        },
{
    let o: (u16, u16) = match info.root {
        WindowRoot::Point { x, y } => (x, y),
        WindowRoot::Floating(alignment) => {
            match calculate_origin(used_space, alignment, term) {
                Some(p) => p,
                None => {
                    return Err(UiError::LayoutInfeasible);
                },
            }
        },
    };

    proof {
        assert(origin_ok(used_space@, info.root, term, o));
    }

    let term_width = term.0;
    let term_height = term.1 - 1;
    let (x, y0) = o;

    match info.mode {
        WindowMode::Bounds { width, height } => {
            let y = if is_bottom_floating_exec(info.root) {
                if y0 < height {
                    proof {
                        assert(forall|rect: Rect| !sized_ok(used_space@, info, term, o, rect));
                    }

                    return Err(UiError::LayoutInfeasible);
                }

                y0 - height
            } else {
                y0
            };

            proof {
                assert(sized_ok(used_space@, info, term, o, Rect { x, y, width, height }));
            }

            Ok(Rect { x, y, width, height })
        },
        WindowMode::FillH { height } => {
            let y = if is_bottom_floating_exec(info.root) {
                if y0 < height {
                    proof {
                        assert(forall|rect: Rect| !sized_ok(used_space@, info, term, o, rect));
                    }

                    return Err(UiError::LayoutInfeasible);
                }

                y0 - height
            } else {
                y0
            };

            match fill_width(used_space, x, y, height, term_width) {
                Some(w) => {
                    proof {
                        assert(fill_width_ok(
                            used_space@,
                            o.0 as int,
                            if is_bottom_floating(info.root) {
                                o.1 - height
                            } else {
                                o.1 as int
                            },
                            height as int,
                            term.0 as int,
                            w as int,
                        ));
                        let gw = spec_fill_width(
                            used_space@,
                            o.0 as int,
                            if is_bottom_floating(info.root) {
                                o.1 - height
                            } else {
                                o.1 as int
                            },
                            height as int,
                            term.0 as int,
                        );
                        assert(fill_width_ok(
                            used_space@,
                            o.0 as int,
                            if is_bottom_floating(info.root) {
                                o.1 - height
                            } else {
                                o.1 as int
                            },
                            height as int,
                            term.0 as int,
                            gw,
                        ));
                        lemma_fill_width_unique(
                            used_space@,
                            o.0 as int,
                            if is_bottom_floating(info.root) {
                                o.1 - height
                            } else {
                                o.1 as int
                            },
                            height as int,
                            term.0 as int,
                            gw,
                            w as int,
                        );
                        assert(sized_ok(
                            used_space@,
                            info,
                            term,
                            o,
                            Rect { x, y, width: w, height },
                        ));
                    }

                    Ok(Rect { x, y, width: w, height })
                },
                None => {
                    proof {
                        assert(forall|rect: Rect| !sized_ok(used_space@, info, term, o, rect));
                    }

                    Err(UiError::LayoutInfeasible)
                },
            }
        },
        WindowMode::FillV { width } => {
            match fill_height(used_space, x, y0, width, term_height) {
                Some(h) => {
                    proof {
                        assert(fill_height_ok(
                            used_space@,
                            o.0 as int,
                            o.1 as int,
                            width as int,
                            term.1 - 1,
                            h as int,
                        ));
                        let gh = spec_fill_height(
                            used_space@,
                            o.0 as int,
                            o.1 as int,
                            width as int,
                            term.1 - 1,
                        );
                        assert(fill_height_ok(
                            used_space@,
                            o.0 as int,
                            o.1 as int,
                            width as int,
                            term.1 - 1,
                            gh,
                        ));
                        lemma_fill_height_unique(
                            used_space@,
                            o.0 as int,
                            o.1 as int,
                            width as int,
                            term.1 - 1,
                            gh,
                            h as int,
                        );
                        assert(sized_ok(
                            used_space@,
                            info,
                            term,
                            o,
                            Rect { x, y: y0, width, height: h },
                        ));
                    }

                    Ok(Rect { x, y: y0, width, height: h })
                },
                None => {
                    proof {
                        assert(forall|rect: Rect| !sized_ok(used_space@, info, term, o, rect));
                    }

                    Err(UiError::LayoutInfeasible)
                },
            }
        },
        WindowMode::Fill(FillMode::FillHFirst) => {
            match fill_width(used_space, x, y0, 0, term_width) {
                Some(w) => {
                    match fill_height(used_space, x, y0, w, term_height) {
                        Some(h) => {
                            proof {
                                hfirst_ok_proof(used_space@, o, term, w as int, h as int);
                                assert(sized_ok(
                                    used_space@,
                                    info,
                                    term,
                                    o,
                                    Rect { x, y: y0, width: w, height: h },
                                ));
                            }

                            Ok(Rect { x, y: y0, width: w, height: h })
                        },
                        None => {
                            proof {
                                let gw = spec_fill_width(
                                    used_space@,
                                    o.0 as int,
                                    o.1 as int,
                                    0,
                                    term.0 as int,
                                );
                                assert(fill_width_ok(
                                    used_space@,
                                    o.0 as int,
                                    o.1 as int,
                                    0,
                                    term.0 as int,
                                    gw,
                                ));
                                lemma_fill_width_unique(
                                    used_space@,
                                    o.0 as int,
                                    o.1 as int,
                                    0,
                                    term.0 as int,
                                    gw,
                                    w as int,
                                );
                                assert(forall|rect: Rect|
                                    !sized_ok(used_space@, info, term, o, rect));
                            }

                            Err(UiError::LayoutInfeasible)
                        },
                    }
                },
                None => {
                    proof {
                        assert(forall|rect: Rect| !sized_ok(used_space@, info, term, o, rect));
                    }

                    Err(UiError::LayoutInfeasible)
                },
            }
        },
        WindowMode::Fill(FillMode::FillVFirst) => {
            match fill_height(used_space, x, y0, 0, term_height) {
                Some(h) => {
                    match fill_width(used_space, x, y0, h, term_width) {
                        Some(w) => {
                            proof {
                                vfirst_ok_proof(used_space@, o, term, w as int, h as int);
                                assert(sized_ok(
                                    used_space@,
                                    info,
                                    term,
                                    o,
                                    Rect { x, y: y0, width: w, height: h },
                                ));
                            }

                            Ok(Rect { x, y: y0, width: w, height: h })
                        },
                        None => {
                            proof {
                                let gh = spec_fill_height(
                                    used_space@,
                                    o.0 as int,
                                    o.1 as int,
                                    0,
                                    term.1 - 1,
                                );
                                assert(fill_height_ok(
                                    used_space@,
                                    o.0 as int,
                                    o.1 as int,
                                    0,
                                    term.1 - 1,
                                    gh,
                                ));
                                lemma_fill_height_unique(
                                    used_space@,
                                    o.0 as int,
                                    o.1 as int,
                                    0,
                                    term.1 - 1,
                                    gh,
                                    h as int,
                                );
                                assert(forall|rect: Rect|
                                    !sized_ok(used_space@, info, term, o, rect));
                            }

                            Err(UiError::LayoutInfeasible)
                        },
                    }
                },
                None => {
                    proof {
                        assert(forall|rect: Rect| !sized_ok(used_space@, info, term, o, rect));
                    }

                    Err(UiError::LayoutInfeasible)
                },
            }
        },
        WindowMode::Fill(FillMode::MaxArea) => {
            let wh_opt = fill_width(used_space, x, y0, 0, term_width);
            let hv_opt = fill_height(used_space, x, y0, 0, term_height);

            match (wh_opt, hv_opt) {
                (Some(wh), Some(hv)) => {
                    let hh_opt = fill_height(used_space, x, y0, wh, term_height);
                    let wv_opt = fill_width(used_space, x, y0, hv, term_width);

                    match (hh_opt, wv_opt) {
                        (Some(hh), Some(wv)) => {
                            proof {
                                assert((wh as int) * (hh as int) <= 65535 * 65535 && (wv as int) * (
                                hv as int) <= 65535 * 65535) by (nonlinear_arith)
                                    requires
                                        0 <= wh as int <= 65535,
                                        0 <= hh as int <= 65535,
                                        0 <= wv as int <= 65535,
                                        0 <= hv as int <= 65535,
                                ;
                            }

                            let area_h = (wh as u32) * (hh as u32);
                            let area_v = (wv as u32) * (hv as u32);

                            let rect = if area_h > area_v {
                                Rect { x, y: y0, width: wh, height: hh }
                            } else {
                                Rect { x, y: y0, width: wv, height: hv }
                            };

                            proof {
                                max_area_links_proof(
                                    used_space@,
                                    o,
                                    term,
                                    wh as int,
                                    hh as int,
                                    hv as int,
                                    wv as int,
                                );
                                assert(sized_ok(used_space@, info, term, o, rect));
                            }

                            Ok(rect)
                        },
                        _ => {
                            proof {
                                let gwh = spec_fill_width(
                                    used_space@,
                                    o.0 as int,
                                    o.1 as int,
                                    0,
                                    term.0 as int,
                                );
                                assert(fill_width_ok(
                                    used_space@,
                                    o.0 as int,
                                    o.1 as int,
                                    0,
                                    term.0 as int,
                                    gwh,
                                ));
                                lemma_fill_width_unique(
                                    used_space@,
                                    o.0 as int,
                                    o.1 as int,
                                    0,
                                    term.0 as int,
                                    gwh,
                                    wh as int,
                                );
                                let ghv = spec_fill_height(
                                    used_space@,
                                    o.0 as int,
                                    o.1 as int,
                                    0,
                                    term.1 - 1,
                                );
                                assert(fill_height_ok(
                                    used_space@,
                                    o.0 as int,
                                    o.1 as int,
                                    0,
                                    term.1 - 1,
                                    ghv,
                                ));
                                lemma_fill_height_unique(
                                    used_space@,
                                    o.0 as int,
                                    o.1 as int,
                                    0,
                                    term.1 - 1,
                                    ghv,
                                    hv as int,
                                );
                                assert(forall|rect: Rect|
                                    !sized_ok(used_space@, info, term, o, rect));
                            }

                            Err(UiError::LayoutInfeasible)
                        },
                    }
                },
                _ => {
                    proof {
                        assert(forall|rect: Rect| !sized_ok(used_space@, info, term, o, rect));
                    }

                    Err(UiError::LayoutInfeasible)
                },
            }
        },
    }
}

/// The root is floating with bottom alignment (executable form).
fn is_bottom_floating_exec(root: WindowRoot) -> (r: bool)
    ensures
        r == is_bottom_floating(root),
{
    match root {
        WindowRoot::Floating(WindowAlignment::Bottom) => true,
        _ => false,
    }
}

/// The disjointness the horizontal fill rule guarantees: a window sized by
/// it never reaches any obstruction to the right of its origin within its
/// row band — no cell lies in both. Disjointness holds only in this
/// direction: a window placed with an explicit origin and size is laid down
/// verbatim and may overlap anything, and an obstruction the rule's band
/// test does not see stays invisible to it.
pub proof fn lemma_fill_width_disjoint(
    used: Seq<Rect>,
    x: int,
    y: int,
    height: int,
    tw: int,
    w: int,
    i: int,
)
    requires
        fill_width_ok(used, x, y, height, tw, w),
        0 <= x,
        tw <= u16::MAX,
        0 <= i < used.len(),
        width_obstacle(used[i], x, y, height),
    ensures
        x + w <= used[i].x,
        forall|px: int, py: int|
            covers(used[i], px, py) ==> !(x <= px < x + w && y <= py <= y + height),
{
    if (exists|j: int|
        0 <= j < used.len() && width_obstacle(#[trigger] used[j], x, y, height) && used[j].x - x
            == w) && w < u16::MAX && (forall|j: int|
        0 <= j < used.len() && width_obstacle(#[trigger] used[j], x, y, height) ==> used[j].x - x
            >= w) {
        assert(used[i].x - x >= w);
    } else {
        assert(used[i].x - x >= u16::MAX);
        assert(w == tw - x);
        assert(w <= u16::MAX);
    }
}

/// The disjointness the vertical fill rule guarantees: a window sized by it
/// never reaches any obstruction below its origin whose columns overlap its
/// band.
pub proof fn lemma_fill_height_disjoint(
    used: Seq<Rect>,
    x: int,
    y: int,
    width: int,
    th: int,
    h: int,
    i: int,
)
    requires
        fill_height_ok(used, x, y, width, th, h),
        0 <= y,
        th <= u16::MAX,
        0 <= i < used.len(),
        height_obstacle(used[i], x, y, width),
    ensures
        y + h <= used[i].y,
        forall|px: int, py: int|
            covers(used[i], px, py) ==> !(x <= px < x + width && y <= py < y + h),
{
    if (exists|j: int|
        0 <= j < used.len() && height_obstacle(#[trigger] used[j], x, y, width) && used[j].y - y
            == h) && h < u16::MAX && (forall|j: int|
        0 <= j < used.len() && height_obstacle(#[trigger] used[j], x, y, width) ==> used[j].y - y
            >= h) {
        assert(used[i].y - y >= h);
    } else {
        assert(used[i].y - y >= u16::MAX);
        assert(h == th - y);
        assert(h <= u16::MAX);
    }
}

/// `rects` is the layout the single-pass greedy solver computes for the
/// given placement requests in order: each window's rectangle follows the
/// placement rule over exactly the rectangles placed before it, and no
/// window is ever resized after placement.
pub open spec fn layout_solves(infos: Seq<WindowInfo>, term: (u16, u16), rects: Seq<Rect>) -> bool {
    &&& rects.len() == infos.len()
    &&& forall|i: int|
        0 <= i < infos.len() ==> placed_ok(infos[i], rects.take(i), term, #[trigger] rects[i])
}

/// Links the widths and heights one fill-first order computes to the spec
/// functions naming them.
proof fn hfirst_ok_proof(used: Seq<Rect>, o: (u16, u16), term: (u16, u16), w: int, h: int)
    requires
        fill_width_ok(used, o.0 as int, o.1 as int, 0, term.0 as int, w),
        fill_height_ok(used, o.0 as int, o.1 as int, w, term.1 - 1, h),
    ensures
        spec_fill_width(used, o.0 as int, o.1 as int, 0, term.0 as int) == w,
        spec_fill_height(used, o.0 as int, o.1 as int, w, term.1 - 1) == h,
{
    let gw = spec_fill_width(used, o.0 as int, o.1 as int, 0, term.0 as int);
    assert(fill_width_ok(used, o.0 as int, o.1 as int, 0, term.0 as int, gw));
    lemma_fill_width_unique(used, o.0 as int, o.1 as int, 0, term.0 as int, gw, w);

    let gh = spec_fill_height(used, o.0 as int, o.1 as int, w, term.1 - 1);
    assert(fill_height_ok(used, o.0 as int, o.1 as int, w, term.1 - 1, gh));
    lemma_fill_height_unique(used, o.0 as int, o.1 as int, w, term.1 - 1, gh, h);
}

/// Links the heights and widths the other fill order computes to the spec
/// functions naming them.
proof fn vfirst_ok_proof(used: Seq<Rect>, o: (u16, u16), term: (u16, u16), w: int, h: int)
    requires
        fill_height_ok(used, o.0 as int, o.1 as int, 0, term.1 - 1, h),
        fill_width_ok(used, o.0 as int, o.1 as int, h, term.0 as int, w),
    ensures
        spec_fill_height(used, o.0 as int, o.1 as int, 0, term.1 - 1) == h,
        spec_fill_width(used, o.0 as int, o.1 as int, h, term.0 as int) == w,
{
    let gh = spec_fill_height(used, o.0 as int, o.1 as int, 0, term.1 - 1);
    assert(fill_height_ok(used, o.0 as int, o.1 as int, 0, term.1 - 1, gh));
    lemma_fill_height_unique(used, o.0 as int, o.1 as int, 0, term.1 - 1, gh, h);

    let gw = spec_fill_width(used, o.0 as int, o.1 as int, h, term.0 as int);
    assert(fill_width_ok(used, o.0 as int, o.1 as int, h, term.0 as int, gw));
    lemma_fill_width_unique(used, o.0 as int, o.1 as int, h, term.0 as int, gw, w);
}

/// Links all four fill results of the max-area rule to the spec functions
/// naming them.
proof fn max_area_links_proof(
    used: Seq<Rect>,
    o: (u16, u16),
    term: (u16, u16),
    wh: int,
    hh: int,
    hv: int,
    wv: int,
)
    requires
        fill_width_ok(used, o.0 as int, o.1 as int, 0, term.0 as int, wh),
        fill_height_ok(used, o.0 as int, o.1 as int, wh, term.1 - 1, hh),
        fill_height_ok(used, o.0 as int, o.1 as int, 0, term.1 - 1, hv),
        fill_width_ok(used, o.0 as int, o.1 as int, hv, term.0 as int, wv),
    ensures
        spec_fill_width(used, o.0 as int, o.1 as int, 0, term.0 as int) == wh,
        spec_fill_height(used, o.0 as int, o.1 as int, wh, term.1 - 1) == hh,
        spec_fill_height(used, o.0 as int, o.1 as int, 0, term.1 - 1) == hv,
        spec_fill_width(used, o.0 as int, o.1 as int, hv, term.0 as int) == wv,
{
    hfirst_ok_proof(used, o, term, wh, hh);
    vfirst_ok_proof(used, o, term, wv, hv);
}

} // verus!
