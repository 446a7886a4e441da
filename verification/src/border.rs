use vstd::prelude::*;

verus! {

/// The glyph class of one border cell, decided purely by which of its four
/// axis neighbours are themselves border cells.
#[derive(Debug, Clone, Copy, PartialEq, Eq, Structural)]
pub enum BorderDirection {
    Horizontal,
    Vertical,
    CornerDownRight,
    CornerDownLeft,
    CornerUpRight,
    CornerUpLeft,
    TVerticalRight,
    TVerticalLeft,
    THorizontalDown,
    THorizontalUp,
    Junction,
    Null,
}

/// Which of the two interchangeable box-drawing glyph sets to draw with.
#[derive(Debug, Clone, Copy, PartialEq, Eq, Structural)]
pub enum BorderStyle {
    Light,
    Heavy,
}

/// The point `(x, y)` occurs in the sequence.
pub open spec fn has_point(ps: Seq<(u16, u16)>, x: int, y: int) -> bool {
    exists|i: int| 0 <= i < ps.len() && (#[trigger] ps[i]).0 == x && ps[i].1 == y
}

/// The adjacency table: the glyph class a cell gets from the presence of its
/// up, right, down and left neighbours. Neighbour absence beyond the listed
/// combinations is irrelevant; a cell with no neighbours at all is blank.
pub open spec fn classify_direction(up: bool, right: bool, down: bool, left: bool) -> BorderDirection {
    if !up && !down && (right || left) {
        BorderDirection::Horizontal
    } else if !right && !left && (up || down) {
        BorderDirection::Vertical
    } else if !up && right && down && !left {
        BorderDirection::CornerDownRight
    } else if !up && !right && down && left {
        BorderDirection::CornerDownLeft
    } else if up && right && !down && !left {
        BorderDirection::CornerUpRight
    } else if up && !right && !down && left {
        BorderDirection::CornerUpLeft
    } else if up && right && down && !left {
        BorderDirection::TVerticalRight
    } else if up && !right && down && left {
        BorderDirection::TVerticalLeft
    } else if !up && right && down && left {
        BorderDirection::THorizontalDown
    } else if up && right && !down && left {
        BorderDirection::THorizontalUp
    } else if up && right && down && left {
        BorderDirection::Junction
    } else {
        BorderDirection::Null
    }
}

/// The glyph class of a point over a given point set: the adjacency table
/// applied to the membership of its four axis neighbours. Off-grid
/// neighbours (beyond the `u16` range) count as absent.
pub open spec fn point_direction(ps: Seq<(u16, u16)>, p: (u16, u16)) -> BorderDirection {
    classify_direction(
        p.1 > 0 && has_point(ps, p.0 as int, p.1 - 1),
        has_point(ps, p.0 + 1, p.1 as int),
        has_point(ps, p.0 as int, p.1 + 1),
        p.0 > 0 && has_point(ps, p.0 - 1, p.1 as int),
    )
}

/// A point's glyph class is a pure function of its four-neighbour
/// membership: any two point collections with the same point set — whatever
/// the order or multiplicity the points were inserted with — classify every
/// point identically.
pub proof fn lemma_direction_order_independent(
    ps1: Seq<(u16, u16)>,
    ps2: Seq<(u16, u16)>,
    p: (u16, u16),
)
    requires
        forall|x: int, y: int| #[trigger] has_point(ps1, x, y) <==> #[trigger] has_point(ps2, x, y),
    ensures
        point_direction(ps1, p) == point_direction(ps2, p),
{
    assert(has_point(ps1, p.0 as int, p.1 - 1) <==> has_point(ps2, p.0 as int, p.1 - 1));
    assert(has_point(ps1, p.0 + 1, p.1 as int) <==> has_point(ps2, p.0 + 1, p.1 as int));
    assert(has_point(ps1, p.0 as int, p.1 + 1) <==> has_point(ps2, p.0 as int, p.1 + 1));
    assert(has_point(ps1, p.0 - 1, p.1 as int) <==> has_point(ps2, p.0 - 1, p.1 as int));
}

/// Membership in a concatenation of point lists splits over its parts.
pub proof fn lemma_has_point_append(a: Seq<(u16, u16)>, b: Seq<(u16, u16)>, x: int, y: int)
    ensures
        has_point(a + b, x, y) <==> (has_point(a, x, y) || has_point(b, x, y)),
{
    if has_point(a + b, x, y) {
        let i = choose|i: int| 0 <= i < (a + b).len() && (#[trigger] (a + b)[i]).0 == x && (a
            + b)[i].1 == y;

        if i < a.len() {
            assert(a[i] == (a + b)[i]);
        } else {
            assert(b[i - a.len()] == (a + b)[i]);
        }
    }
    if has_point(a, x, y) {
        let i = choose|i: int| 0 <= i < a.len() && (#[trigger] a[i]).0 == x && a[i].1 == y;
        assert((a + b)[i] == a[i]);
    }
    if has_point(b, x, y) {
        let i = choose|i: int| 0 <= i < b.len() && (#[trigger] b[i]).0 == x && b[i].1 == y;
        assert((a + b)[a.len() + i] == b[i]);
    }
}

/// The point `(x, y)` occurs among the points, compared in `u32` so that
/// neighbour coordinates one past the `u16` range can be asked about safely.
fn contains_point(ps: &Vec<(u16, u16)>, x: u32, y: u32) -> (r: bool)
    ensures
        r == has_point(ps@, x as int, y as int),
{
    let mut i: usize = 0;

    while i < ps.len()
        invariant
            i <= ps@.len(),
            forall|t: int| 0 <= t < i ==> !((#[trigger] ps@[t]).0 == x && ps@[t].1 == y),
        decreases ps@.len() - i,
    {
        let p = ps[i];

        if p.0 as u32 == x && p.1 as u32 == y {
            return true;
        }

        i = i + 1;
    }

    false
}

/// The border map: the union of all visible windows' perimeter points, each
/// carrying the glyph class its neighbourhood gives it. The map is rebuilt
/// from scratch whenever the point set changes.
#[derive(Debug)]
pub struct Border {
    points: Vec<(u16, u16)>,
    directions: Vec<BorderDirection>,
}

impl Border {
    /// The border points, in insertion order.
    pub closed spec fn points_seq(self) -> Seq<(u16, u16)> {
        self.points@
    }

    /// The glyph class stored for each point, parallel to `points_seq`.
    pub closed spec fn directions_seq(self) -> Seq<BorderDirection> {
        self.directions@
    }

    /// Every point carries the glyph class its current neighbourhood gives
    /// it.
    pub open spec fn wf(self) -> bool {
        &&& self.directions_seq().len() == self.points_seq().len()
        &&& forall|i: int|
            0 <= i < self.points_seq().len() ==> #[trigger] self.directions_seq()[i]
                == point_direction(self.points_seq(), self.points_seq()[i])
    }

    pub fn new() -> (r: Border)
        ensures
            r.points_seq() == Seq::<(u16, u16)>::empty(),
            r.wf(),
    {
        Border { points: Vec::new(), directions: Vec::new() }
    }

    /// The glyph class of a point over the current point set.
    pub fn calculate_direction(&self, point: (u16, u16)) -> (r: BorderDirection)
        ensures
            r == point_direction(self.points_seq(), point),
    {
        let (x, y) = point;

        let up = y != 0 && contains_point(&self.points, x as u32, y as u32 - 1);
        let right = contains_point(&self.points, x as u32 + 1, y as u32);
        let down = contains_point(&self.points, x as u32, y as u32 + 1);
        let left = x != 0 && contains_point(&self.points, x as u32 - 1, y as u32);

        if !up && !down && (right || left) {
            BorderDirection::Horizontal
        } else if !right && !left && (up || down) {
            BorderDirection::Vertical
        } else if !up && right && down && !left {
            BorderDirection::CornerDownRight
        } else if !up && !right && down && left {
            BorderDirection::CornerDownLeft
        } else if up && right && !down && !left {
            BorderDirection::CornerUpRight
        } else if up && !right && !down && left {
            BorderDirection::CornerUpLeft
        } else if up && right && down && !left {
            BorderDirection::TVerticalRight
        } else if up && !right && down && left {
            BorderDirection::TVerticalLeft
        } else if !up && right && down && left {
            BorderDirection::THorizontalDown
        } else if up && right && !down && left {
            BorderDirection::THorizontalUp
        } else if up && right && down && left {
            BorderDirection::Junction
        } else {
            BorderDirection::Null
        }
    }

    /// Rebuilds the glyph class of every point from the current point set.
    pub fn recalculate_directions(&mut self)
        ensures
            final(self).points_seq() == old(self).points_seq(),
            final(self).wf(),
    {
        let mut directions: Vec<BorderDirection> = Vec::new();
        let mut i: usize = 0;

        while i < self.points.len()
            invariant
                i <= self.points@.len(),
                directions@.len() == i,
                forall|t: int|
                    0 <= t < i ==> #[trigger] directions@[t] == point_direction(
                        self.points@,
                        self.points@[t],
                    ),
            decreases self.points@.len() - i,
        {
            let d = self.calculate_direction(self.points[i]);
            directions.push(d);

            i = i + 1;
        }

        self.directions = directions;
    }

    /// Adds perimeter points to the border and rebuilds every glyph class
    /// over the enlarged point set.
    pub fn append(&mut self, other: Vec<(u16, u16)>)
        ensures
            final(self).points_seq() == old(self).points_seq() + other@,
            final(self).wf(),
    {
        let mut k: usize = 0;

        while k < other.len()
            invariant
                k <= other@.len(),
                self.points@ == old(self).points@ + other@.take(k as int),
            decreases other@.len() - k,
        {
            self.points.push(other[k]);

            proof {
                assert(self.points@ =~= old(self).points@ + other@.take(k + 1));
            }

            k = k + 1;
        }

        proof {
            assert(self.points@ =~= old(self).points@ + other@);
        }

        self.recalculate_directions();
    }

    /// The points of the border paired with their glyph classes, for the
    /// draw pipeline.
    pub fn entries(&self) -> (r: Vec<((u16, u16), BorderDirection)>)
        requires
            self.wf(),
        ensures
            r@.len() == self.points_seq().len(),
            forall|i: int|
                0 <= i < r@.len() ==> (#[trigger] r@[i]).0 == self.points_seq()[i] && r@[i].1
                    == self.directions_seq()[i],
    {
        let mut r: Vec<((u16, u16), BorderDirection)> = Vec::new();
        let mut i: usize = 0;

        while i < self.points.len()
            invariant
                self.directions@.len() == self.points@.len(),
                i <= self.points@.len(),
                r@.len() == i,
                forall|t: int|
                    0 <= t < i ==> (#[trigger] r@[t]).0 == self.points@[t] && r@[t].1
                        == self.directions@[t],
            decreases self.points@.len() - i,
        {
            r.push((self.points[i], self.directions[i]));

            i = i + 1;
        }

        r
    }
}

/// The box-drawing character for a glyph class, in the chosen glyph set, as
/// a one-character string. A blank cell draws as a space.
pub fn border_glyph(style: BorderStyle, dir: BorderDirection) -> (r: &'static str)
    ensures
        r@.len() == 1,
        r@[0] == spec_border_glyph(style, dir),
{
    proof {
        reveal_strlit("\u{2500}");
        reveal_strlit("\u{2502}");
        reveal_strlit("\u{250c}");
        reveal_strlit("\u{2510}");
        reveal_strlit("\u{2514}");
        reveal_strlit("\u{2518}");
        reveal_strlit("\u{251c}");
        reveal_strlit("\u{2524}");
        reveal_strlit("\u{252c}");
        reveal_strlit("\u{2534}");
        reveal_strlit("\u{253c}");
        reveal_strlit("\u{2501}");
        reveal_strlit("\u{2503}");
        reveal_strlit("\u{250f}");
        reveal_strlit("\u{2513}");
        reveal_strlit("\u{2517}");
        reveal_strlit("\u{251b}");
        reveal_strlit("\u{2523}");
        reveal_strlit("\u{252b}");
        reveal_strlit("\u{2533}");
        reveal_strlit("\u{253b}");
        reveal_strlit("\u{254b}");
        reveal_strlit(" ");
    }

    match style {
        BorderStyle::Light => match dir {
            BorderDirection::Horizontal => "\u{2500}",
            BorderDirection::Vertical => "\u{2502}",
            BorderDirection::CornerDownRight => "\u{250c}",
            BorderDirection::CornerDownLeft => "\u{2510}",
            BorderDirection::CornerUpRight => "\u{2514}",
            BorderDirection::CornerUpLeft => "\u{2518}",
            BorderDirection::TVerticalRight => "\u{251c}",
            BorderDirection::TVerticalLeft => "\u{2524}",
            BorderDirection::THorizontalDown => "\u{252c}",
            BorderDirection::THorizontalUp => "\u{2534}",
            BorderDirection::Junction => "\u{253c}",
            BorderDirection::Null => " ",
        },
        BorderStyle::Heavy => match dir {
            BorderDirection::Horizontal => "\u{2501}",
            BorderDirection::Vertical => "\u{2503}",
            BorderDirection::CornerDownRight => "\u{250f}",
            BorderDirection::CornerDownLeft => "\u{2513}",
            BorderDirection::CornerUpRight => "\u{2517}",
            BorderDirection::CornerUpLeft => "\u{251b}",
            BorderDirection::TVerticalRight => "\u{2523}",
            BorderDirection::TVerticalLeft => "\u{252b}",
            BorderDirection::THorizontalDown => "\u{2533}",
            BorderDirection::THorizontalUp => "\u{253b}",
            BorderDirection::Junction => "\u{254b}",
            BorderDirection::Null => " ",
        },
    }
}

/// The character `border_glyph` picks for each glyph class and set.
pub open spec fn spec_border_glyph(style: BorderStyle, dir: BorderDirection) -> char {
    match style {
        BorderStyle::Light => match dir {
            BorderDirection::Horizontal => '\u{2500}',
            BorderDirection::Vertical => '\u{2502}',
            BorderDirection::CornerDownRight => '\u{250c}',
            BorderDirection::CornerDownLeft => '\u{2510}',
            BorderDirection::CornerUpRight => '\u{2514}',
            BorderDirection::CornerUpLeft => '\u{2518}',
            BorderDirection::TVerticalRight => '\u{251c}',
            BorderDirection::TVerticalLeft => '\u{2524}',
            BorderDirection::THorizontalDown => '\u{252c}',
            BorderDirection::THorizontalUp => '\u{2534}',
            BorderDirection::Junction => '\u{253c}',
            BorderDirection::Null => ' ',
        },
        BorderStyle::Heavy => match dir {
            BorderDirection::Horizontal => '\u{2501}',
            BorderDirection::Vertical => '\u{2503}',
            BorderDirection::CornerDownRight => '\u{250f}',
            BorderDirection::CornerDownLeft => '\u{2513}',
            BorderDirection::CornerUpRight => '\u{2517}',
            BorderDirection::CornerUpLeft => '\u{251b}',
            BorderDirection::TVerticalRight => '\u{2523}',
            BorderDirection::TVerticalLeft => '\u{252b}',
            BorderDirection::THorizontalDown => '\u{2533}',
            BorderDirection::THorizontalUp => '\u{253b}',
            BorderDirection::Junction => '\u{254b}',
            BorderDirection::Null => ' ',
        },
    }
}

} // verus!
