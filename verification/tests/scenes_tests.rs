use ray_tracer::canvas::Canvas;
use ray_tracer::colors::Color;
use ray_tracer::intersections::Intersection;
use ray_tracer::scalar::Scalar;
use ray_tracer::scenes::{ball_above, ball_lightning, clock, write_projectile_image};
use ray_tracer::vectors::Tuple;
use uuid::Uuid;

fn num(value: f64) -> Scalar {
    Scalar::from_bits(value.to_bits())
}

fn point(x: f64, y: f64, z: f64) -> Tuple {
    Tuple::point(num(x), num(y), num(z))
}

fn vector(x: f64, y: f64, z: f64) -> Tuple {
    Tuple::vector(num(x), num(y), num(z))
}

fn meets(t: f64) -> Intersection {
    Intersection { object_id: Uuid::new_v4(), t: num(t) }
}

/// The pixel at `(x, y)` from the lower left corner.
fn pixel(canvas: &Canvas, x: usize, y: usize) -> Color {
    canvas.pixels[canvas.height - 1 - y][x]
}

fn count(canvas: &Canvas, color: Color) -> usize {
    canvas.pixels.iter().flatten().filter(|p| **p == color).count()
}

#[test]
fn the_flight_marks_the_pixels_it_passes() {
    let log = vec![
        point(0.0, 1.0, 0.0),
        point(15.4, 27.2, 0.0),
        point(15.9, 27.9, 3.0),
        point(1199.99, 799.99, 0.0),
        point(1200.0, 5.0, 0.0),
        point(5.0, 800.0, 0.0),
        point(-3.0, 5.0, 0.0),
        point(7.0, -0.5, 0.0),
        point(f64::NAN, 2.0, 0.0),
    ];
    let canvas = write_projectile_image(&log);
    assert_eq!(canvas.width, 1200);
    assert_eq!(canvas.height, 800);
    assert!(canvas.well_formed());
    assert_eq!(pixel(&canvas, 0, 1), Color::red());
    assert_eq!(pixel(&canvas, 15, 27), Color::red());
    assert_eq!(pixel(&canvas, 1199, 799), Color::red());
    // a negative coordinate and a NaN are cut to 0
    assert_eq!(pixel(&canvas, 0, 5), Color::red());
    assert_eq!(pixel(&canvas, 7, 0), Color::red());
    assert_eq!(pixel(&canvas, 0, 2), Color::red());
    assert_eq!(count(&canvas, Color::red()), 6);
    assert_eq!(count(&canvas, Color::black()), 1200 * 800 - 6);
}

#[test]
fn an_empty_flight_leaves_the_canvas_black() {
    let canvas = write_projectile_image(&vec![]);
    assert_eq!(count(&canvas, Color::black()), 1200 * 800);
}

#[test]
fn the_clock_marks_its_hours_about_the_middle() {
    let hands = vec![
        vector(0.0, 300.0, 0.0),
        vector(300.0, 0.0, 0.0),
        vector(0.0, -300.0, 0.0),
        vector(-300.0, 0.0, 0.0),
        vector(149.99999, 259.8, 0.0),
        vector(600.0, 0.0, 0.0),
        vector(-600.5, 0.0, 0.0),
        vector(-601.0, 0.0, 0.0),
        vector(0.0, 400.0, 0.0),
        vector(0.0, -400.9, 0.0),
    ];
    let canvas = clock(&hands);
    assert_eq!(canvas.width, 1200);
    assert_eq!(canvas.height, 800);
    assert_eq!(pixel(&canvas, 600, 700), Color::red());
    assert_eq!(pixel(&canvas, 900, 400), Color::red());
    assert_eq!(pixel(&canvas, 600, 100), Color::red());
    assert_eq!(pixel(&canvas, 300, 400), Color::red());
    assert_eq!(pixel(&canvas, 749, 659), Color::red());
    assert_eq!(pixel(&canvas, 0, 400), Color::red());
    assert_eq!(pixel(&canvas, 600, 0), Color::red());
    assert_eq!(count(&canvas, Color::red()), 7);
}

#[test]
fn the_ball_is_red_where_a_ray_meets_it_ahead() {
    let mut found: Vec<Vec<Vec<Intersection>>> = vec![vec![vec![]; 100]; 100];
    found[0][0] = vec![meets(4.0), meets(6.0)];
    found[99][99] = vec![meets(-1.0), meets(1.0)];
    found[10][20] = vec![meets(-6.0), meets(-4.0)];
    found[30][40] = vec![meets(0.0), meets(0.0)];
    found[50][60] = vec![meets(f64::NAN), meets(f64::NAN)];
    found[70][80] = vec![meets(-0.0)];
    let canvas = ball_above(&found);
    assert_eq!(canvas.width, 100);
    assert_eq!(canvas.height, 100);
    assert!(canvas.well_formed());
    assert_eq!(pixel(&canvas, 0, 0), Color::red());
    assert_eq!(pixel(&canvas, 99, 99), Color::red());
    assert_eq!(pixel(&canvas, 20, 10), Color::black());
    assert_eq!(pixel(&canvas, 40, 30), Color::red());
    assert_eq!(pixel(&canvas, 60, 50), Color::black());
    assert_eq!(pixel(&canvas, 80, 70), Color::red());
    assert_eq!(count(&canvas, Color::red()), 4);
}

#[test]
fn the_ball_takes_a_grid_of_any_size() {
    let canvas = ball_above(&vec![]);
    assert_eq!(count(&canvas, Color::black()), 100 * 100);

    let mut found: Vec<Vec<Vec<Intersection>>> = vec![vec![vec![meets(1.0)]; 3]; 2];
    found.push(vec![vec![meets(1.0)]; 150]);
    let canvas = ball_above(&found);
    assert_eq!(count(&canvas, Color::red()), 3 + 3 + 100);
    assert_eq!(pixel(&canvas, 2, 1), Color::red());
    assert_eq!(pixel(&canvas, 3, 1), Color::black());
    assert_eq!(pixel(&canvas, 99, 2), Color::red());
    assert_eq!(pixel(&canvas, 0, 3), Color::black());
}

#[test]
fn the_lit_ball_has_the_colours_that_were_computed() {
    let mut shades: Vec<Vec<Option<Color>>> = vec![vec![None; 1000]; 1000];
    shades[0][0] = Some(Color::new(1, 2, 3));
    shades[999][999] = Some(Color::new(255, 51, 255));
    shades[500][250] = Some(Color::new(400, 0, 0));
    shades[7][8] = Some(Color::black());
    let canvas = ball_lightning(&shades);
    assert_eq!(canvas.width, 1000);
    assert_eq!(canvas.height, 1000);
    assert!(canvas.well_formed());
    assert_eq!(pixel(&canvas, 0, 0), Color::new(1, 2, 3));
    assert_eq!(pixel(&canvas, 999, 999), Color::new(255, 51, 255));
    assert_eq!(pixel(&canvas, 250, 500), Color::new(400, 0, 0));
    assert_eq!(count(&canvas, Color::black()), 1000 * 1000 - 3);
}

#[test]
fn the_lit_ball_takes_a_grid_of_any_size() {
    let canvas = ball_lightning(&vec![vec![Some(Color::red()); 2000]; 3]);
    assert_eq!(count(&canvas, Color::red()), 3000);
    assert_eq!(pixel(&canvas, 999, 2), Color::red());
    assert_eq!(pixel(&canvas, 0, 3), Color::black());
}
