//! Freehand-stroke annotation: recording pointer paths and rasterizing
//! them into the target image with integer Bresenham stepping.
//!
//! A stroke is one continuous pointer drag. On commit, every stroke with at
//! least two points is drawn segment by segment, scaled from logical units
//! to device pixels; writes falling outside the image are skipped, since
//! stroke points are user-driven and may run past the edge.

use crate::geom::{lemma_scale_bounds, spec_scale, Display, LogicalPoint};
use crate::raster::{Pixel, RasterImage};
use vstd::prelude::*;

verus! {

/// Largest endpoint coordinate the line rasterizer accepts. Scaled stroke
/// coordinates stay far below it; the bound keeps the error accumulator in
/// `i32` range.
pub const MAX_LINE_COORD: i32 = 0x200_0000;

/// Magnitude of an integer.
pub open spec fn spec_abs(v: int) -> int {
    if v >= 0 {
        v
    } else {
        -v
    }
}

/// One step of Bresenham line stepping, unrolled as a sequence of visited
/// positions. `dx`, `dy`, `sx`, `sy` are the fixed per-segment constants;
/// `err` is the running error term; `fuel` bounds the walk at the
/// taxicab length of the segment, which the stepping never exceeds.
/// The end position itself is not visited, matching classic stepping that
/// stops on arrival.
pub open spec fn spec_line_walk(
    x: int,
    y: int,
    x1: int,
    y1: int,
    dx: int,
    dy: int,
    sx: int,
    sy: int,
    err: int,
    fuel: nat,
) -> Seq<(int, int)>
    decreases fuel,
{
    if (x == x1 && y == y1) || fuel == 0 {
        Seq::empty()
    } else {
        let e2 = 2 * err;
        let nx = if e2 >= dy {
            x + sx
        } else {
            x
        };
        let ny = if e2 <= dx {
            y + sy
        } else {
            y
        };
        let nerr = err + (if e2 >= dy {
            dy
        } else {
            0
        }) + (if e2 <= dx {
            dx
        } else {
            0
        });
        seq![(x, y)] + spec_line_walk(nx, ny, x1, y1, dx, dy, sx, sy, nerr, (fuel - 1) as nat)
    }
}

/// Whether the stepping of `spec_line_walk` ends by arriving at
/// `(x1, y1)` rather than by running out of fuel. The branches mirror
/// `spec_line_walk` step for step.
pub open spec fn spec_walk_arrives(
    x: int,
    y: int,
    x1: int,
    y1: int,
    dx: int,
    dy: int,
    sx: int,
    sy: int,
    err: int,
    fuel: nat,
) -> bool
    decreases fuel,
{
    if x == x1 && y == y1 {
        true
    } else if fuel == 0 {
        false
    } else {
        let e2 = 2 * err;
        let nx = if e2 >= dy {
            x + sx
        } else {
            x
        };
        let ny = if e2 <= dx {
            y + sy
        } else {
            y
        };
        let nerr = err + (if e2 >= dy {
            dy
        } else {
            0
        }) + (if e2 <= dx {
            dx
        } else {
            0
        });
        spec_walk_arrives(nx, ny, x1, y1, dx, dy, sx, sy, nerr, (fuel - 1) as nat)
    }
}

/// The pixels of the line from `(x0, y0)` to `(x1, y1)`: the stepped
/// positions, which stop short on arrival, with the end position appended
/// so the whole line is painted, endpoints included.
pub open spec fn spec_line_points(x0: int, y0: int, x1: int, y1: int) -> Seq<(int, int)> {
    let dx = spec_abs(x1 - x0);
    let dy = -spec_abs(y1 - y0);
    let sx: int = if x0 < x1 {
        1
    } else {
        -1
    };
    let sy: int = if y0 < y1 {
        1
    } else {
        -1
    };
    spec_line_walk(x0, y0, x1, y1, dx, dy, sx, sy, dx + dy, (dx - dy) as nat).push((x1, y1))
}

/// Induction step for `lemma_line_stepping_arrives`: from any mid-walk
/// state — `px` steps taken along x, `py` along y, with the error term at
/// its invariant value — the stepping reaches the endpoint within the
/// remaining taxicab distance. The error invariant rules the overshoot
/// out: once an axis reaches its target, its step condition goes false
/// until the other axis catches up.
proof fn lemma_walk_reaches(
    x0: int,
    y0: int,
    x1: int,
    y1: int,
    px: int,
    py: int,
    err: int,
    fuel: nat,
)
    requires
        0 <= px <= spec_abs(x1 - x0),
        0 <= py <= spec_abs(y1 - y0),
        err == spec_abs(x1 - x0) + (-spec_abs(y1 - y0)) + px * (-spec_abs(y1 - y0)) + py
            * spec_abs(x1 - x0),
        fuel >= (spec_abs(x1 - x0) - px) + (spec_abs(y1 - y0) - py),
    ensures
        spec_walk_arrives(
            x0 + (if x0 < x1 {
                1int
            } else {
                -1int
            }) * px,
            y0 + (if y0 < y1 {
                1int
            } else {
                -1int
            }) * py,
            x1,
            y1,
            spec_abs(x1 - x0),
            -spec_abs(y1 - y0),
            if x0 < x1 {
                1int
            } else {
                -1int
            },
            if y0 < y1 {
                1int
            } else {
                -1int
            },
            err,
            fuel,
        ),
    decreases fuel,
{
    let dx = spec_abs(x1 - x0);
    let dy = -spec_abs(y1 - y0);
    let sx: int = if x0 < x1 {
        1
    } else {
        -1
    };
    let sy: int = if y0 < y1 {
        1
    } else {
        -1
    };
    let x = x0 + sx * px;
    let y = y0 + sy * py;
    assert(x1 == x0 + sx * dx) by {
        vstd::arithmetic::mul::lemma_mul_basics(dx);
        vstd::arithmetic::mul::lemma_mul_unary_negation(1, dx);
    }
    assert(y1 == y0 + sy * (-dy)) by {
        vstd::arithmetic::mul::lemma_mul_basics(-dy);
        vstd::arithmetic::mul::lemma_mul_unary_negation(1, -dy);
    }
    assert(x == x1 <==> px == dx) by {
        if px == dx {
            assert(sx * px == sx * dx);
        }
        if x == x1 {
            assert(px == dx) by (nonlinear_arith)
                requires
                    sx * px == sx * dx,
                    sx == 1 || sx == -1,
            ;
        }
    }
    assert(y == y1 <==> py == -dy) by {
        if py == -dy {
            assert(sy * py == sy * (-dy));
        }
        if y == y1 {
            assert(py == -dy) by (nonlinear_arith)
                requires
                    sy * py == sy * (-dy),
                    sy == 1 || sy == -1,
            ;
        }
    }
    if x == x1 && y == y1 {
        // Arrival: nothing left to show.
    } else {
        let e2 = 2 * err;
        let step_x = e2 >= dy;
        let step_y = e2 <= dx;
        if px == dx {
            // The x axis is done and the y axis is not: the error term sits
            // at or below dy, so only the y step fires.
            assert(py <= -dy - 1);
            assert(err == dy + dx * (1 + dy + py)) by {
                assert(px * dy == dx * dy);
                vstd::arithmetic::mul::lemma_mul_is_commutative(py, dx);
                vstd::arithmetic::mul::lemma_mul_is_distributive_add(dx, 1 + dy, py);
                vstd::arithmetic::mul::lemma_mul_is_distributive_add(dx, 1, dy);
                vstd::arithmetic::mul::lemma_mul_basics(dx);
            }
            assert(err <= dy) by (nonlinear_arith)
                requires
                    err == dy + dx * (1 + dy + py),
                    dx >= 0,
                    1 + dy + py <= 0,
            ;
            assert(dy <= -1);
            assert(!step_x && step_y);
        } else if py == -dy {
            // The y axis is done and the x axis is not: the error term sits
            // at or above dx, so only the x step fires.
            assert(px <= dx - 1);
            assert(err == dx + dy * (1 + px - dx)) by {
                assert(py * dx == (-dy) * dx);
                vstd::arithmetic::mul::lemma_mul_unary_negation(dy, dx);
                vstd::arithmetic::mul::lemma_mul_is_distributive_sub(dy, 1 + px, dx);
                vstd::arithmetic::mul::lemma_mul_is_distributive_add(dy, 1, px);
                vstd::arithmetic::mul::lemma_mul_is_commutative(px, dy);
                vstd::arithmetic::mul::lemma_mul_basics(dy);
            }
            assert(err >= dx) by (nonlinear_arith)
                requires
                    err == dx + dy * (1 + px - dx),
                    dy <= 0,
                    1 + px - dx <= 0,
            ;
            assert(dx >= 1);
            assert(step_x && !step_y);
        } else {
            // Both axes still have distance to cover; at least one step
            // fires, since a left-hand failure forces the right-hand side.
            assert(px < dx && py < -dy);
            assert(step_x || step_y);
        }
        let npx = if step_x {
            px + 1
        } else {
            px
        };
        let npy = if step_y {
            py + 1
        } else {
            py
        };
        let nerr = err + (if step_x {
            dy
        } else {
            0
        }) + (if step_y {
            dx
        } else {
            0
        });
        assert(nerr == dx + dy + npx * dy + npy * dx) by {
            vstd::arithmetic::mul::lemma_mul_is_distributive_add_other_way(dy, px, 1);
            vstd::arithmetic::mul::lemma_mul_is_distributive_add_other_way(dx, py, 1);
            vstd::arithmetic::mul::lemma_mul_basics(dy);
            vstd::arithmetic::mul::lemma_mul_basics(dx);
        }
        assert(if step_x {
            x + sx
        } else {
            x
        } == x0 + sx * npx) by {
            vstd::arithmetic::mul::lemma_mul_is_distributive_add(sx, px, 1);
            vstd::arithmetic::mul::lemma_mul_basics(sx);
        }
        assert(if step_y {
            y + sy
        } else {
            y
        } == y0 + sy * npy) by {
            vstd::arithmetic::mul::lemma_mul_is_distributive_add(sy, py, 1);
            vstd::arithmetic::mul::lemma_mul_basics(sy);
        }
        lemma_walk_reaches(x0, y0, x1, y1, npx, npy, nerr, (fuel - 1) as nat);
    }
}

/// Bresenham stepping always terminates by arrival: from any start the
/// walk behind `spec_line_points` reaches its endpoint within the
/// segment's taxicab length, so the fuel bound in the definition never
/// cuts a line short.
pub proof fn lemma_line_stepping_arrives(x0: int, y0: int, x1: int, y1: int)
    ensures
        spec_walk_arrives(
            x0,
            y0,
            x1,
            y1,
            spec_abs(x1 - x0),
            -spec_abs(y1 - y0),
            if x0 < x1 {
                1int
            } else {
                -1int
            },
            if y0 < y1 {
                1int
            } else {
                -1int
            },
            spec_abs(x1 - x0) + (-spec_abs(y1 - y0)),
            (spec_abs(x1 - x0) + spec_abs(y1 - y0)) as nat,
        ),
{
    let sx: int = if x0 < x1 {
        1
    } else {
        -1
    };
    let sy: int = if y0 < y1 {
        1
    } else {
        -1
    };
    assert(x0 + sx * 0 == x0) by {
        vstd::arithmetic::mul::lemma_mul_basics(sx);
    }
    assert(y0 + sy * 0 == y0) by {
        vstd::arithmetic::mul::lemma_mul_basics(sy);
    }
    assert(0 * (-spec_abs(y1 - y0)) == 0) by {
        vstd::arithmetic::mul::lemma_mul_basics(-spec_abs(y1 - y0));
    }
    assert(0 * spec_abs(x1 - x0) == 0) by {
        vstd::arithmetic::mul::lemma_mul_basics(spec_abs(x1 - x0));
    }
    lemma_walk_reaches(
        x0,
        y0,
        x1,
        y1,
        0,
        0,
        spec_abs(x1 - x0) + (-spec_abs(y1 - y0)),
        (spec_abs(x1 - x0) + spec_abs(y1 - y0)) as nat,
    );
}

/// Draws the line from `(x0, y0)` to `(x1, y1)` into the image: every
/// in-bounds position of the line, end pixel included, takes `color`;
/// every other pixel keeps its value.
pub fn draw_line(img: &mut RasterImage, x0: i32, y0: i32, x1: i32, y1: i32, color: Pixel)
    requires
        old(img).wf(),
        -MAX_LINE_COORD <= x0 <= MAX_LINE_COORD,
        -MAX_LINE_COORD <= y0 <= MAX_LINE_COORD,
        -MAX_LINE_COORD <= x1 <= MAX_LINE_COORD,
        -MAX_LINE_COORD <= y1 <= MAX_LINE_COORD,
    ensures
        final(img).wf(),
        final(img).width == old(img).width,
        final(img).height == old(img).height,
        forall|px: int, py: int|
            0 <= px < old(img).width && 0 <= py < old(img).height ==> final(img).spec_index(px, py)
                == (if spec_line_points(x0 as int, y0 as int, x1 as int, y1 as int).contains(
                (px, py),
            ) {
                color
            } else {
                old(img).spec_index(px, py)
            }),
{
    let dx: i32 = if x1 >= x0 {
        x1 - x0
    } else {
        x0 - x1
    };
    let dy: i32 = if y1 >= y0 {
        -(y1 - y0)
    } else {
        -(y0 - y1)
    };
    let sx: i32 = if x0 < x1 {
        1
    } else {
        -1
    };
    let sy: i32 = if y0 < y1 {
        1
    } else {
        -1
    };
    let mut err: i32 = dx + dy;
    let mut fuel: i32 = dx - dy;
    let mut x: i32 = x0;
    let mut y: i32 = y0;
    let ghost total = spec_line_walk(
        x0 as int,
        y0 as int,
        x1 as int,
        y1 as int,
        dx as int,
        dy as int,
        sx as int,
        sy as int,
        dx as int + dy as int,
        (dx - dy) as nat,
    );
    let ghost mut done: Seq<(int, int)> = Seq::empty();
    proof {
        assert(total == done + spec_line_walk(
            x as int,
            y as int,
            x1 as int,
            y1 as int,
            dx as int,
            dy as int,
            sx as int,
            sy as int,
            err as int,
            fuel as nat,
        )) by {
            assert(done + spec_line_walk(
                x as int,
                y as int,
                x1 as int,
                y1 as int,
                dx as int,
                dy as int,
                sx as int,
                sy as int,
                err as int,
                fuel as nat,
            ) =~= spec_line_walk(
                x as int,
                y as int,
                x1 as int,
                y1 as int,
                dx as int,
                dy as int,
                sx as int,
                sy as int,
                err as int,
                fuel as nat,
            ));
        }
    }
    while (x != x1 || y != y1) && fuel > 0
        invariant
            img.wf(),
            img.width == old(img).width,
            img.height == old(img).height,
            0 <= dx <= 2 * MAX_LINE_COORD,
            -2 * MAX_LINE_COORD <= dy <= 0,
            sx == 1 || sx == -1,
            sy == 1 || sy == -1,
            2 * dy <= err <= 2 * dx,
            0 <= fuel <= dx - dy,
            -MAX_LINE_COORD <= x0 <= MAX_LINE_COORD,
            -MAX_LINE_COORD <= y0 <= MAX_LINE_COORD,
            spec_abs(x - x0) <= (dx - dy) - fuel,
            spec_abs(y - y0) <= (dx - dy) - fuel,
            total == done + spec_line_walk(
                x as int,
                y as int,
                x1 as int,
                y1 as int,
                dx as int,
                dy as int,
                sx as int,
                sy as int,
                err as int,
                fuel as nat,
            ),
            forall|px: int, py: int|
                0 <= px < old(img).width && 0 <= py < old(img).height ==> img.spec_index(px, py)
                    == (if done.contains((px, py)) {
                    color
                } else {
                    old(img).spec_index(px, py)
                }),
        decreases fuel,
    {
        img.put_pixel_checked(x, y, color);
        proof {
            broadcast use vstd::seq_lib::lemma_seq_contains_after_push;

            let ghost rest = spec_line_walk(
                x as int,
                y as int,
                x1 as int,
                y1 as int,
                dx as int,
                dy as int,
                sx as int,
                sy as int,
                err as int,
                fuel as nat,
            );
            assert(rest == seq![(x as int, y as int)] + spec_line_walk(
                if 2 * err >= dy {
                    x + sx
                } else {
                    x as int
                },
                if 2 * err <= dx {
                    y + sy
                } else {
                    y as int
                },
                x1 as int,
                y1 as int,
                dx as int,
                dy as int,
                sx as int,
                sy as int,
                err + (if 2 * err >= dy {
                    dy as int
                } else {
                    0
                }) + (if 2 * err <= dx {
                    dx as int
                } else {
                    0
                }),
                (fuel - 1) as nat,
            ));
            assert(done + rest =~= done.push((x as int, y as int)) + rest.drop_first());
            done = done.push((x as int, y as int));
        }
        let e2: i32 = 2 * err;
        if e2 >= dy {
            err = err + dy;
            x = x + sx;
        }
        if e2 <= dx {
            err = err + dx;
            y = y + sy;
        }
        fuel = fuel - 1;
    }
    proof {
        assert(total =~= done);
    }
    img.put_pixel_checked(x1, y1, color);
    proof {
        broadcast use vstd::seq_lib::lemma_seq_contains_after_push;

        assert(spec_line_points(x0 as int, y0 as int, x1 as int, y1 as int) == total.push(
            (x1 as int, y1 as int),
        ));
    }
}

/// Largest accepted stroke thickness, in pixels.
pub const MAX_THICKNESS: u32 = 256;

/// The views of a list of recorded strokes.
pub open spec fn spec_deep(strokes: &Vec<Vec<LogicalPoint>>) -> Seq<Seq<LogicalPoint>> {
    strokes@.map_values(|v: Vec<LogicalPoint>| v@)
}

/// Every recorded point is in mapper range.
pub open spec fn spec_all_points_wf(sv: Seq<Seq<LogicalPoint>>) -> bool {
    forall|j: int, i: int|
        0 <= j < sv.len() && 0 <= i < sv[j].len() ==> (#[trigger] sv[j][i]).wf()
}

/// The axis offset of the `k`-th parallel copy of a segment drawn with
/// thickness `t`: `k - t / 2`. Thickness is honored by drawing `t` copies
/// offset along both axes — a cheap approximation of a stroked polygon,
/// intentionally not geometrically exact.
pub open spec fn spec_offset(k: int, t: u32) -> int {
    k - (t as int) / 2
}

/// The pixel positions of one offset copy of the segment from `a` to `b`:
/// both endpoints scaled to device pixels, then shifted by `off` on both
/// axes, then stepped.
pub open spec fn spec_segment_points(
    a: LogicalPoint,
    b: LogicalPoint,
    scale_centi: u32,
    off: int,
) -> Seq<(int, int)> {
    spec_line_points(
        spec_scale(a.x, scale_centi) + off,
        spec_scale(a.y, scale_centi) + off,
        spec_scale(b.x, scale_centi) + off,
        spec_scale(b.y, scale_centi) + off,
    )
}

/// Whether `p` lies on one of the first `kmax` offset copies of the
/// segment from `a` to `b` drawn with thickness `t`.
pub open spec fn spec_seg_cover(
    a: LogicalPoint,
    b: LogicalPoint,
    scale_centi: u32,
    t: u32,
    kmax: nat,
    p: (int, int),
) -> bool
    decreases kmax,
{
    if kmax == 0 {
        false
    } else {
        spec_seg_cover(a, b, scale_centi, t, (kmax - 1) as nat, p) || spec_segment_points(
            a,
            b,
            scale_centi,
            spec_offset(kmax - 1, t),
        ).contains(p)
    }
}

/// Whether `p` lies on one of the first `imax` segments of the stroke,
/// each drawn with all its thickness copies.
pub open spec fn spec_stroke_cover(
    stroke: Seq<LogicalPoint>,
    scale_centi: u32,
    t: u32,
    imax: nat,
    p: (int, int),
) -> bool
    decreases imax,
{
    if imax == 0 {
        false
    } else {
        spec_stroke_cover(stroke, scale_centi, t, (imax - 1) as nat, p) || spec_seg_cover(
            stroke[imax - 1],
            stroke[imax as int],
            scale_centi,
            t,
            t as nat,
            p,
        )
    }
}

/// Whether `p` lies on any segment of any of the first `jmax` strokes.
/// Strokes with fewer than two points have no visible segment and cover
/// nothing.
pub open spec fn spec_strokes_cover(
    sv: Seq<Seq<LogicalPoint>>,
    scale_centi: u32,
    t: u32,
    jmax: nat,
    p: (int, int),
) -> bool
    decreases jmax,
{
    if jmax == 0 {
        false
    } else {
        spec_strokes_cover(sv, scale_centi, t, (jmax - 1) as nat, p) || (sv[jmax - 1].len() >= 2
            && spec_stroke_cover(
            sv[jmax - 1],
            scale_centi,
            t,
            (sv[jmax - 1].len() - 1) as nat,
            p,
        ))
    }
}

/// Whether `p` is painted when the whole stroke list is rasterized.
pub open spec fn spec_annotation_covers(
    sv: Seq<Seq<LogicalPoint>>,
    scale_centi: u32,
    t: u32,
    p: (int, int),
) -> bool {
    spec_strokes_cover(sv, scale_centi, t, sv.len(), p)
}

/// Rasterizes every stroke into the image: each consecutive point pair of
/// each stroke with at least two points becomes `t` offset line copies,
/// scaled from logical units to device pixels. Exactly the covered
/// in-bounds pixels take `color`; everything else keeps its value.
pub fn rasterize_strokes(
    img: &mut RasterImage,
    strokes: &Vec<Vec<LogicalPoint>>,
    d: &Display,
    thickness: u32,
    color: Pixel,
)
    requires
        old(img).wf(),
        d.wf(),
        1 <= thickness <= MAX_THICKNESS,
        spec_all_points_wf(spec_deep(strokes)),
    ensures
        final(img).wf(),
        final(img).width == old(img).width,
        final(img).height == old(img).height,
        forall|px: int, py: int|
            0 <= px < old(img).width && 0 <= py < old(img).height ==> final(img).spec_index(px, py)
                == (if spec_annotation_covers(
                spec_deep(strokes),
                d.scale_centi,
                thickness,
                (px, py),
            ) {
                color
            } else {
                old(img).spec_index(px, py)
            }),
{
    let nstrokes: usize = strokes.len();
    let mut j: usize = 0;
    while j < nstrokes
        invariant
            j <= nstrokes,
            nstrokes == spec_deep(strokes).len(),
            img.wf(),
            img.width == old(img).width,
            img.height == old(img).height,
            d.wf(),
            1 <= thickness <= MAX_THICKNESS,
            spec_all_points_wf(spec_deep(strokes)),
            forall|px: int, py: int|
                0 <= px < old(img).width && 0 <= py < old(img).height ==> img.spec_index(px, py)
                    == (if spec_strokes_cover(
                    spec_deep(strokes),
                    d.scale_centi,
                    thickness,
                    j as nat,
                    (px, py),
                ) {
                    color
                } else {
                    old(img).spec_index(px, py)
                }),
        decreases nstrokes - j,
    {
        let ghost sv = spec_deep(strokes);
        let stroke: &Vec<LogicalPoint> = &strokes[j];
        proof {
            assert(stroke@ == sv[j as int]);
        }
        let npoints: usize = stroke.len();
        if npoints >= 2 {
            let mut i: usize = 0;
            while i < npoints - 1
                invariant
                    i <= npoints - 1,
                    2 <= npoints == stroke@.len(),
                    stroke@ == sv[j as int],
                    sv == spec_deep(strokes),
                    0 <= j < sv.len(),
                    img.wf(),
                    img.width == old(img).width,
                    img.height == old(img).height,
                    d.wf(),
                    1 <= thickness <= MAX_THICKNESS,
                    spec_all_points_wf(sv),
                    forall|px: int, py: int|
                        0 <= px < old(img).width && 0 <= py < old(img).height ==> img.spec_index(
                            px,
                            py,
                        ) == (if spec_strokes_cover(sv, d.scale_centi, thickness, j as nat, (px, py))
                            || spec_stroke_cover(
                            sv[j as int],
                            d.scale_centi,
                            thickness,
                            i as nat,
                            (px, py),
                        ) {
                            color
                        } else {
                            old(img).spec_index(px, py)
                        }),
                decreases npoints - 1 - i,
            {
                let a: LogicalPoint = stroke[i];
                let b: LogicalPoint = stroke[i + 1];
                proof {
                    assert(sv[j as int][i as int].wf());
                    assert(sv[j as int][i as int + 1].wf());
                    lemma_scale_bounds(a.x, d.scale_centi);
                    lemma_scale_bounds(a.y, d.scale_centi);
                    lemma_scale_bounds(b.x, d.scale_centi);
                    lemma_scale_bounds(b.y, d.scale_centi);
                }
                let half: i32 = (thickness as i32) / 2;
                let ax: i32 = crate::geom::scale_coord(a.x, d.scale_centi) as i32;
                let ay: i32 = crate::geom::scale_coord(a.y, d.scale_centi) as i32;
                let bx: i32 = crate::geom::scale_coord(b.x, d.scale_centi) as i32;
                let by: i32 = crate::geom::scale_coord(b.y, d.scale_centi) as i32;
                let mut k: u32 = 0;
                while k < thickness
                    invariant
                        k <= thickness,
                        1 <= thickness <= MAX_THICKNESS,
                        half == (thickness as int) / 2,
                        a == sv[j as int][i as int],
                        b == sv[j as int][i as int + 1],
                        0 <= ax <= 0x100_0000,
                        0 <= ay <= 0x100_0000,
                        0 <= bx <= 0x100_0000,
                        0 <= by <= 0x100_0000,
                        ax == spec_scale(a.x, d.scale_centi),
                        ay == spec_scale(a.y, d.scale_centi),
                        bx == spec_scale(b.x, d.scale_centi),
                        by == spec_scale(b.y, d.scale_centi),
                        sv == spec_deep(strokes),
                        0 <= j < sv.len(),
                        0 <= i < sv[j as int].len() - 1,
                        img.wf(),
                        img.width == old(img).width,
                        img.height == old(img).height,
                        d.wf(),
                        forall|px: int, py: int|
                            0 <= px < old(img).width && 0 <= py < old(img).height
                                ==> img.spec_index(px, py) == (if spec_strokes_cover(
                                sv,
                                d.scale_centi,
                                thickness,
                                j as nat,
                                (px, py),
                            ) || spec_stroke_cover(
                                sv[j as int],
                                d.scale_centi,
                                thickness,
                                i as nat,
                                (px, py),
                            ) || spec_seg_cover(
                                a,
                                b,
                                d.scale_centi,
                                thickness,
                                k as nat,
                                (px, py),
                            ) {
                                color
                            } else {
                                old(img).spec_index(px, py)
                            }),
                    decreases thickness - k,
                {
                    let off: i32 = (k as i32) - half;
                    draw_line(img, ax + off, ay + off, bx + off, by + off, color);
                    proof {
                        assert(forall|p: (int, int)|
                            spec_seg_cover(a, b, d.scale_centi, thickness, (k + 1) as nat, p) == (
                            spec_seg_cover(a, b, d.scale_centi, thickness, k as nat, p)
                                || spec_segment_points(
                                a,
                                b,
                                d.scale_centi,
                                spec_offset(k as int, thickness),
                            ).contains(p)));
                    }
                    k = k + 1;
                }
                proof {
                    assert(forall|p: (int, int)|
                        spec_stroke_cover(
                            sv[j as int],
                            d.scale_centi,
                            thickness,
                            (i + 1) as nat,
                            p,
                        ) == (spec_stroke_cover(sv[j as int], d.scale_centi, thickness, i as nat, p)
                            || spec_seg_cover(
                            sv[j as int][i as int],
                            sv[j as int][i as int + 1],
                            d.scale_centi,
                            thickness,
                            thickness as nat,
                            p,
                        )));
                }
                i = i + 1;
            }
        }
        proof {
            let ghost svj = spec_deep(strokes)[j as int];
            assert(forall|p: (int, int)|
                spec_strokes_cover(
                    spec_deep(strokes),
                    d.scale_centi,
                    thickness,
                    (j + 1) as nat,
                    p,
                ) == (spec_strokes_cover(spec_deep(strokes), d.scale_centi, thickness, j as nat, p)
                    || (svj.len() >= 2 && spec_stroke_cover(
                    svj,
                    d.scale_centi,
                    thickness,
                    (svj.len() - 1) as nat,
                    p,
                ))));
        }
        j = j + 1;
    }
}

/// The strokes recorded by the annotation overlay. The last entry is the
/// stroke currently being drawn; it is empty between drags.
pub struct AnnotationState {
    pub strokes: Vec<Vec<LogicalPoint>>,
}

/// What one pointer sample does to the recorded strokes.
///
/// A first sample seeds an empty current stroke. A pointer position is
/// appended to the current stroke unless it repeats the stroke's last
/// point; pointer release (no position) finalizes a non-empty current
/// stroke by starting a fresh empty one.
pub open spec fn spec_record(
    sv: Seq<Seq<LogicalPoint>>,
    sample: Option<LogicalPoint>,
) -> Seq<Seq<LogicalPoint>> {
    let base = if sv.len() == 0 {
        sv.push(Seq::empty())
    } else {
        sv
    };
    let cur = base.last();
    match sample {
        Some(p) => {
            if cur.len() > 0 && cur.last() == p {
                base
            } else {
                base.update(base.len() - 1, cur.push(p))
            }
        },
        None => {
            if cur.len() > 0 {
                base.push(Seq::empty())
            } else {
                base
            }
        },
    }
}

impl AnnotationState {
    /// The recorded strokes as sequences of points.
    pub open spec fn spec_strokes(self) -> Seq<Seq<LogicalPoint>> {
        spec_deep(&self.strokes)
    }

    /// Every recorded point is in mapper range.
    pub open spec fn wf(self) -> bool {
        spec_all_points_wf(self.spec_strokes())
    }

    /// No strokes recorded yet.
    pub fn new() -> (s: AnnotationState)
        ensures
            s.spec_strokes().len() == 0,
            s.wf(),
    {
        AnnotationState { strokes: Vec::new() }
    }

    /// Discards every recorded stroke.
    pub fn clear(&mut self)
        ensures
            final(self).spec_strokes().len() == 0,
            final(self).wf(),
    {
        self.strokes.clear();
    }

    /// Feeds one per-frame pointer sample into the recording:
    /// `Some(position)` while the pointer is down on the canvas, `None`
    /// once it is released.
    pub fn record_sample(&mut self, sample: Option<LogicalPoint>)
        requires
            old(self).wf(),
            sample matches Some(p) ==> p.wf(),
        ensures
            final(self).spec_strokes() == spec_record(old(self).spec_strokes(), sample),
            final(self).wf(),
    {
        if self.strokes.len() == 0 {
            self.strokes.push(Vec::new());
        }
        let n: usize = self.strokes.len();
        let ghost base = self.strokes@.map_values(|v: Vec<LogicalPoint>| v@);
        match sample {
            Some(p) => {
                let cur: &Vec<LogicalPoint> = &self.strokes[n - 1];
                let repeat: bool = cur.len() > 0 && cur[cur.len() - 1] == p;
                if !repeat {
                    let mut cur_owned: Vec<LogicalPoint> = self.strokes.pop().unwrap();
                    cur_owned.push(p);
                    self.strokes.push(cur_owned);
                    proof {
                        assert(self.spec_strokes() =~= base.update(
                            base.len() - 1,
                            base.last().push(p),
                        ));
                    }
                } else {
                    proof {
                        assert(self.spec_strokes() =~= base);
                    }
                }
            },
            None => {
                let cur_len: usize = self.strokes[n - 1].len();
                if cur_len > 0 {
                    self.strokes.push(Vec::new());
                }
            },
        }
        proof {
            assert(self.spec_strokes() =~= spec_record(old(self).spec_strokes(), sample));
        }
    }

    /// Flushes the recorded strokes into the target image and clears the
    /// recording: every covered in-bounds pixel takes the stroke color,
    /// every other pixel keeps its value, and committing with nothing
    /// recorded leaves the image untouched.
    pub fn commit(&mut self, img: &mut RasterImage, d: &Display, thickness: u32, color: Pixel)
        requires
            old(self).wf(),
            old(img).wf(),
            d.wf(),
            1 <= thickness <= MAX_THICKNESS,
        ensures
            final(self).spec_strokes().len() == 0,
            final(self).wf(),
            final(img).wf(),
            final(img).width == old(img).width,
            final(img).height == old(img).height,
            forall|px: int, py: int|
                0 <= px < old(img).width && 0 <= py < old(img).height ==> final(img).spec_index(
                    px,
                    py,
                ) == (if spec_annotation_covers(
                    old(self).spec_strokes(),
                    d.scale_centi,
                    thickness,
                    (px, py),
                ) {
                    color
                } else {
                    old(img).spec_index(px, py)
                }),
            old(self).spec_strokes().len() == 0 ==> *final(img) == *old(img),
    {
        if self.strokes.len() > 0 {
            rasterize_strokes(img, &self.strokes, d, thickness, color);
        }
        self.strokes.clear();
    }
}

} // verus!
