//! The pictures: each takes what was computed of a scene and paints it onto
//! a canvas of the picture's size.

use vstd::prelude::*;
use crate::canvas::{lemma_written_pixel, Canvas};
use crate::colors::Color;
use crate::intersections::{ahead, hit_among, Intersection};
use crate::vectors::Tuple;

verus! {

/// The colour of a mark: full red.
pub open spec fn red() -> Color {
    Color { r: 255, g: 0, b: 0 }
}

/// The colour of a canvas that nothing was painted on.
pub open spec fn black() -> Color {
    Color { r: 0, g: 0, b: 0 }
}

/// Whether one of the first `n` positions falls on the pixel `(x, y)`: its
/// `x` and `y`, cut to indices, are `x` and `y`.
pub open spec fn passes(log: Seq<Tuple>, n: int, x: int, y: int) -> bool {
    exists|k: int|
        0 <= k < n && (#[trigger] log[k]).x.to_usize_spec() == x && log[k].y.to_usize_spec() == y
}

/// Whether one of the first `n` tuples falls on the pixel `(x, y)` of a
/// canvas whose middle is `(mid_x, mid_y)`.
pub open spec fn points_at(hands: Seq<Tuple>, n: int, mid_x: int, mid_y: int, x: int, y: int) -> bool {
    exists|k: int|
        0 <= k < n && mid_x + (#[trigger] hands[k]).x.to_isize_spec() == x && mid_y
            + hands[k].y.to_isize_spec() == y
}

/// Whether the ray through the pixel `(x, y)` meets something ahead of its
/// start: `found[y][x]` holds the ray's intersections.
pub open spec fn covered(found: Seq<Vec<Vec<Intersection>>>, x: int, y: int) -> bool {
    &&& 0 <= y < found.len()
    &&& 0 <= x < found[y]@.len()
    &&& exists|j: int| 0 <= j < found[y]@[x]@.len() && ahead(#[trigger] found[y]@[x]@[j])
}

/// The colour that was computed for the pixel `(x, y)`, if one was:
/// `shades[y][x]`.
pub open spec fn shade(shades: Seq<Vec<Option<Color>>>, x: int, y: int) -> Option<Color> {
    if 0 <= y < shades.len() && 0 <= x < shades[y]@.len() {
        shades[y]@[x]
    } else {
        None
    }
}

/// The flight of a projectile on a canvas 1200 wide and 800 high: red where
/// a position of the flight falls, black elsewhere. Positions outside the
/// canvas leave no mark.
pub fn write_projectile_image(log: &Vec<Tuple>) -> (canvas: Canvas)
    ensures
        canvas.wf(),
        canvas.width == 1200,
        canvas.height == 800,
        forall|x: int, y: int|
            0 <= x < 1200 && 0 <= y < 800 ==> #[trigger] canvas.pixel(x, y) == if passes(
                log@,
                log@.len() as int,
                x,
                y,
            ) {
                red()
            } else {
                black()
            },
{
    let mut canvas = Canvas::new(1200, 800);
    let mut i: usize = 0;
    assert forall|x: int, y: int| 0 <= x < 1200 && 0 <= y < 800 implies #[trigger] canvas.pixel(x, y)
        == black() && !passes(log@, 0, x, y) by {}
    while i < log.len()
        invariant
            0 <= i <= log@.len(),
            canvas.wf(),
            canvas.width == 1200,
            canvas.height == 800,
            forall|x: int, y: int|
                0 <= x < 1200 && 0 <= y < 800 ==> #[trigger] canvas.pixel(x, y) == if passes(
                    log@,
                    i as int,
                    x,
                    y,
                ) {
                    red()
                } else {
                    black()
                },
        decreases log@.len() - i,
    {
        let pos = log[i];
        let px: usize = pos.x.to_usize();
        let py: usize = pos.y.to_usize();
        let ghost before = canvas;
        canvas.write(px, py, Color::red());
        proof {
            assert forall|x: int, y: int| 0 <= x < 1200 && 0 <= y < 800 implies #[trigger] canvas.pixel(
                x,
                y,
            ) == if passes(log@, i + 1, x, y) {
                red()
            } else {
                black()
            } by {
                lemma_written_pixel(before@, 1200, 800, px as int, py as int, red(), x, y);
                assert(before.pixel(x, y) == if passes(log@, i as int, x, y) {
                    red()
                } else {
                    black()
                });
                if x == px && y == py {
                    assert(log@[i as int].x.to_usize_spec() == x);
                    assert(passes(log@, i + 1, x, y));
                } else if passes(log@, i as int, x, y) {
                    let k = choose|k: int|
                        0 <= k < i && (#[trigger] log@[k]).x.to_usize_spec() == x
                            && log@[k].y.to_usize_spec() == y;
                    assert(0 <= k < i + 1 && log@[k].x.to_usize_spec() == x);
                    assert(passes(log@, i + 1, x, y));
                } else if passes(log@, i + 1, x, y) {
                    let k = choose|k: int|
                        0 <= k < i + 1 && (#[trigger] log@[k]).x.to_usize_spec() == x
                            && log@[k].y.to_usize_spec() == y;
                    assert(k < i);
                    assert(passes(log@, i as int, x, y));
                }
            }
        }
        i += 1;
    }
    canvas
}

/// The face of a clock on a canvas 1200 wide and 800 high: red where one of
/// the tuples falls, seen from the middle of the canvas, black elsewhere.
pub fn clock(hands: &Vec<Tuple>) -> (canvas: Canvas)
    ensures
        canvas.wf(),
        canvas.width == 1200,
        canvas.height == 800,
        forall|x: int, y: int|
            0 <= x < 1200 && 0 <= y < 800 ==> #[trigger] canvas.pixel(x, y) == if points_at(
                hands@,
                hands@.len() as int,
                600,
                400,
                x,
                y,
            ) {
                red()
            } else {
                black()
            },
{
    let mut canvas = Canvas::new(1200, 800);
    let mut i: usize = 0;
    assert forall|x: int, y: int| 0 <= x < 1200 && 0 <= y < 800 implies #[trigger] canvas.pixel(x, y)
        == black() && !points_at(hands@, 0, 600, 400, x, y) by {}
    while i < hands.len()
        invariant
            0 <= i <= hands@.len(),
            canvas.wf(),
            canvas.width == 1200,
            canvas.height == 800,
            forall|x: int, y: int|
                0 <= x < 1200 && 0 <= y < 800 ==> #[trigger] canvas.pixel(x, y) == if points_at(
                    hands@,
                    i as int,
                    600,
                    400,
                    x,
                    y,
                ) {
                    red()
                } else {
                    black()
                },
        decreases hands@.len() - i,
    {
        let p = hands[i];
        let ghost before = canvas;
        let ghost wx = 600 + p.x.to_isize_spec();
        let ghost wy = 400 + p.y.to_isize_spec();
        canvas.write_point(p, Color::red());
        proof {
            assert forall|x: int, y: int| 0 <= x < 1200 && 0 <= y < 800 implies #[trigger] canvas.pixel(
                x,
                y,
            ) == if points_at(hands@, i + 1, 600, 400, x, y) {
                red()
            } else {
                black()
            } by {
                lemma_written_pixel(before@, 1200, 800, wx, wy, red(), x, y);
                assert(before.pixel(x, y) == if points_at(hands@, i as int, 600, 400, x, y) {
                    red()
                } else {
                    black()
                });
                if x == wx && y == wy {
                    assert(600 + hands@[i as int].x.to_isize_spec() == x);
                    assert(points_at(hands@, i + 1, 600, 400, x, y));
                } else if points_at(hands@, i as int, 600, 400, x, y) {
                    let k = choose|k: int|
                        0 <= k < i && 600 + (#[trigger] hands@[k]).x.to_isize_spec() == x && 400
                            + hands@[k].y.to_isize_spec() == y;
                    assert(0 <= k < i + 1 && 600 + hands@[k].x.to_isize_spec() == x);
                    assert(points_at(hands@, i + 1, 600, 400, x, y));
                } else if points_at(hands@, i + 1, 600, 400, x, y) {
                    let k = choose|k: int|
                        0 <= k < i + 1 && 600 + (#[trigger] hands@[k]).x.to_isize_spec() == x && 400
                            + hands@[k].y.to_isize_spec() == y;
                    assert(k < i);
                    assert(points_at(hands@, i as int, 600, 400, x, y));
                }
            }
        }
        i += 1;
    }
    canvas
}

/// Whether the pixel `(x, y)` comes before `(at_x, at_y)` where the pixels
/// are taken row by row from the lowest, each row from the left.
pub open spec fn before_pixel(x: int, y: int, at_x: int, at_y: int) -> bool {
    y < at_y || (y == at_y && x < at_x)
}

/// A ball seen from above on a canvas 100 wide and 100 high: red where the
/// ray through the pixel meets the ball ahead of its start, black elsewhere.
/// `found[y][x]` holds the intersections of the ray through the pixel
/// `(x, y)`; a pixel without an entry is black.
pub fn ball_above(found: &Vec<Vec<Vec<Intersection>>>) -> (canvas: Canvas)
    ensures
        canvas.wf(),
        canvas.width == 100,
        canvas.height == 100,
        forall|x: int, y: int|
            0 <= x < 100 && 0 <= y < 100 ==> #[trigger] canvas.pixel(x, y) == if covered(
                found@,
                x,
                y,
            ) {
                red()
            } else {
                black()
            },
{
    let mut canvas = Canvas::new(100, 100);
    let mut y: usize = 0;
    assert forall|px: int, py: int| 0 <= px < 100 && 0 <= py < 100 implies #[trigger] canvas.pixel(
        px,
        py,
    ) == black() by {}
    while y < 100
        invariant
            0 <= y <= 100,
            canvas.wf(),
            canvas.width == 100,
            canvas.height == 100,
            forall|px: int, py: int|
                0 <= px < 100 && 0 <= py < 100 ==> #[trigger] canvas.pixel(px, py) == if before_pixel(
                    px,
                    py,
                    0,
                    y as int,
                ) && covered(found@, px, py) {
                    red()
                } else {
                    black()
                },
        decreases 100 - y,
    {
        let mut x: usize = 0;
        while x < 100
            invariant
                0 <= x <= 100,
                0 <= y < 100,
                canvas.wf(),
                canvas.width == 100,
                canvas.height == 100,
                forall|px: int, py: int|
                    0 <= px < 100 && 0 <= py < 100 ==> #[trigger] canvas.pixel(px, py)
                        == if before_pixel(px, py, x as int, y as int) && covered(found@, px, py) {
                        red()
                    } else {
                        black()
                    },
            decreases 100 - x,
        {
            let ghost before = canvas;
            let mut seen = false;
            if y < found.len() {
                if x < found[y].len() {
                    seen = hit_among(&found[y][x]).is_some();
                }
            }
            assert(seen == covered(found@, x as int, y as int));
            if seen {
                canvas.write(x, y, Color::red());
            }
            proof {
                assert forall|px: int, py: int| 0 <= px < 100 && 0 <= py < 100 implies #[trigger] canvas.pixel(
                    px,
                    py,
                ) == if before_pixel(px, py, x + 1, y as int) && covered(found@, px, py) {
                    red()
                } else {
                    black()
                } by {
                    lemma_written_pixel(before@, 100, 100, x as int, y as int, red(), px, py);
                    assert(before.pixel(px, py) == if before_pixel(px, py, x as int, y as int)
                        && covered(found@, px, py) {
                        red()
                    } else {
                        black()
                    });
                }
            }
            x += 1;
        }
        y += 1;
    }
    canvas
}

/// A lit ball on a canvas 1000 wide and 1000 high: each pixel has the colour
/// that was computed for it, and is black where none was. `shades[y][x]` is
/// the colour of the pixel `(x, y)`.
pub fn ball_lightning(shades: &Vec<Vec<Option<Color>>>) -> (canvas: Canvas)
    ensures
        canvas.wf(),
        canvas.width == 1000,
        canvas.height == 1000,
        forall|x: int, y: int|
            0 <= x < 1000 && 0 <= y < 1000 ==> #[trigger] canvas.pixel(x, y) == match shade(
                shades@,
                x,
                y,
            ) {
                Some(color) => color,
                None => black(),
            },
{
    let mut canvas = Canvas::new(1000, 1000);
    let mut y: usize = 0;
    assert forall|px: int, py: int| 0 <= px < 1000 && 0 <= py < 1000 implies #[trigger] canvas.pixel(
        px,
        py,
    ) == black() by {}
    while y < 1000
        invariant
            0 <= y <= 1000,
            canvas.wf(),
            canvas.width == 1000,
            canvas.height == 1000,
            forall|px: int, py: int|
                0 <= px < 1000 && 0 <= py < 1000 ==> #[trigger] canvas.pixel(px, py) == (
                if before_pixel(px, py, 0, y as int) {
                    match shade(shades@, px, py) {
                        Some(color) => color,
                        None => black(),
                    }
                } else {
                    black()
                }),
        decreases 1000 - y,
    {
        let mut x: usize = 0;
        while x < 1000
            invariant
                0 <= x <= 1000,
                0 <= y < 1000,
                canvas.wf(),
                canvas.width == 1000,
                canvas.height == 1000,
                forall|px: int, py: int|
                    0 <= px < 1000 && 0 <= py < 1000 ==> #[trigger] canvas.pixel(px, py) == (
                    if before_pixel(px, py, x as int, y as int) {
                        match shade(shades@, px, py) {
                            Some(color) => color,
                            None => black(),
                        }
                    } else {
                        black()
                    }),
            decreases 1000 - x,
        {
            let ghost before = canvas;
            let mut computed: Option<Color> = None;
            if y < shades.len() {
                if x < shades[y].len() {
                    computed = shades[y][x];
                }
            }
            assert(computed == shade(shades@, x as int, y as int));
            let ghost mut colour = black();
            match computed {
                Some(color) => {
                    proof {
                        colour = color;
                    }
                    canvas.write(x, y, color);
                },
                None => {},
            }
            proof {
                assert forall|px: int, py: int|
                    0 <= px < 1000 && 0 <= py < 1000 implies #[trigger] canvas.pixel(px, py) == (
                if before_pixel(px, py, x + 1, y as int) {
                    match shade(shades@, px, py) {
                        Some(color) => color,
                        None => black(),
                    }
                } else {
                    black()
                }) by {
                    lemma_written_pixel(before@, 1000, 1000, x as int, y as int, colour, px, py);
                    assert(before.pixel(px, py) == (if before_pixel(px, py, x as int, y as int) {
                        match shade(shades@, px, py) {
                            Some(color) => color,
                            None => black(),
                        }
                    } else {
                        black()
                    }));
                }
            }
            x += 1;
        }
        y += 1;
    }
    canvas
}

} // verus!
