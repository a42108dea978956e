use boids::boid::Boid;
use boids::flock::Flock;
use boids::render::{Color, DrawCmd};
use boids::vec2::Vec2;

// One simulation unit is 1000 fixed-point steps.

#[test]
fn add() {
    // Positive
    let v1 = Vec2::new(1_000, 2_000);
    let v2 = Vec2::new(2_000, 1_000);
    assert_eq!(Vec2::new(3_000, 3_000), v1.add(v2));

    // Negative
    let v1 = Vec2::new(-1_000, -2_000);
    let v2 = Vec2::new(-2_000, -1_000);
    assert_eq!(Vec2::new(-3_000, -3_000), v1.add(v2));
}

#[test]
fn mag() {
    let v1 = Vec2::new(-5_000, -5_000);
    let v2 = Vec2::new(5_000, 5_000);
    // The flooring square root of 200 units squared: floor(14142.13...)
    assert_eq!(14_142, v1.sub(v2).mag());
    assert_eq!(14_142, v2.sub(v1).mag());
}

#[test]
fn vector_laws_on_values() {
    let a = Vec2::new(3, -7);
    let b = Vec2::new(10, 2);
    assert_eq!(a.add(b), b.add(a));
    assert_eq!(a.sub(b), b.sub(a).neg());
}

#[test]
fn normalize_unit_length() {
    let v = Vec2::new(3_000, 4_000);
    assert_eq!(5_000, v.mag());
    let n = v.norm();
    assert_eq!(Vec2::new(600, 800), n);
    assert_eq!(1_000, n.mag());
}

#[test]
fn normalize_short_vector_is_zero() {
    let v = Vec2::new(0, 0);
    assert_eq!(Vec2::new(0, 0), v.norm());
    assert_eq!(0, v.mag());
}

#[test]
fn scalar_mul_and_div() {
    let v = Vec2::new(600, -800);
    // Scaling by 5.0 units (5000 steps per unit).
    assert_eq!(Vec2::new(3_000, -4_000), v.mul(5_000));
    // Dividing by a neighbour count of 2, truncating toward zero.
    assert_eq!(Vec2::new(300, -400), v.div(2));
    let w = Vec2::new(601, -801);
    assert_eq!(Vec2::new(300, -400), w.div(2));
}

#[test]
fn assigning_operators_match_plain_ones() {
    let mut v = Vec2::new(600, -800);
    v.add_assign(Vec2::new(100, 50));
    assert_eq!(Vec2::new(700, -750), v);
    v.sub_assign(Vec2::new(100, 50));
    assert_eq!(Vec2::new(600, -800), v);
    v.mul_assign(5_000);
    assert_eq!(Vec2::new(3_000, -4_000), v);
    v.div_assign(2);
    assert_eq!(Vec2::new(1_500, -2_000), v);
}

#[test]
fn normalize_sub_unit_vector() {
    // Below one unit the fixed-point grid is coarse: the length after
    // normalising stays near one unit but only within a wide tolerance.
    let v = Vec2::new(1, 1);
    let n = v.norm();
    assert_eq!(Vec2::new(1_000, 1_000), n);
    assert!(997 <= n.mag() && n.mag() <= 1_732);
}

#[test]
fn neighbour_exclusion() {
    // Agent 0 has a distinctive velocity; were it counted among its own
    // neighbours the cohesion average would drag it along its own heading.
    let b1 = Boid::from_parts(Vec2::new(10_000, 10_000), Vec2::new(1_000, 0));
    let b2 = Boid::from_parts(Vec2::new(13_000, 14_000), Vec2::new(0, 0));
    let mut f = Flock {
        area_width: 100_000,
        area_height: 100_000,
        boids: vec![b1, b2],
        since_last_update: 0,
    };
    f.draw(17, false, false, 10_000);

    // The same update, stepping each by hand against only the other.
    let mut c1 = b1;
    let mut c2 = b2;
    c1.step(&vec![b2], 17, 10_000, 100_000, 100_000);
    c2.step(&vec![b1], 17, 10_000, 100_000, 100_000);
    assert_eq!(c1, f.boids[0]);
    assert_eq!(c2, f.boids[1]);
}

#[test]
fn speed_clamp() {
    // A velocity of magnitude 14142 steps is over the 10000-step cap and
    // is rescaled onto the cap, direction preserved.
    let mut b = Boid::from_parts(Vec2::new(0, 0), Vec2::new(10_000, 10_000));
    let others: Vec<Boid> = Vec::new();
    b.step(&others, 17, 10_000, 100_000, 100_000);
    assert_eq!(Vec2::new(7_070, 7_070), b.vel);
    assert!(b.vel.mag() <= 10_000);
}

#[test]
fn separation_fade_with_distance() {
    // Two motionless neighbours on opposite sides, 1600 and 1599 units
    // away: their alignment offsets nearly cancel (average 0.5 units) and
    // their separation pushes differ only through the distance fade, whose
    // weights at those ranges are 848 and 863 thousandths. The goal is
    // 15 + 500 steps along x, integrated over 100 ms.
    let mut b1 = Boid::from_parts(Vec2::new(0, 0), Vec2::new(0, 0));
    let b2 = Boid::from_parts(Vec2::new(1_600_000, 0), Vec2::new(0, 0));
    let b3 = Boid::from_parts(Vec2::new(-1_599_000, 0), Vec2::new(0, 0));
    b1.step(&vec![b2, b3], 100, 1_600_000, 10_000_000, 10_000_000);
    assert_eq!(Vec2::new(515, 0), b1.vel);
    assert_eq!(Vec2::new(515, 0), b1.pos);
}

#[test]
fn resize_is_exact() {
    let mut f = Flock::new(100_000, 100_000, 5);
    assert_eq!(5, f.size());
    f.change_size(2);
    assert_eq!(2, f.size());
    f.change_size(7);
    assert_eq!(7, f.size());
    f.change_size(0);
    assert_eq!(0, f.size());
}

#[test]
fn resize_truncates_from_tail() {
    let mut f = Flock::new(100_000, 100_000, 4);
    let kept: Vec<Boid> = f.boids[..2].to_vec();
    f.change_size(2);
    assert_eq!(kept, f.boids);
}

#[test]
fn boundary_wrap() {
    // A 100 x 100 unit area: leaving the right edge re-enters at the left.
    let mut b = Boid::from_parts(Vec2::new(99_000, 50_000), Vec2::new(10_000, 0));
    let others: Vec<Boid> = Vec::new();
    b.step(&others, 100, 0, 100_000, 100_000);
    // Displacement 10000 * 100 / 100 = 10000 steps: 109000 wraps to 9000.
    assert_eq!(Vec2::new(9_000, 50_000), b.pos);
    assert!(0 <= b.pos.x && b.pos.x < 100_000);
    assert!(0 <= b.pos.y && b.pos.y < 100_000);
}

#[test]
fn boundary_wrap_mixes_width_into_height_modulus() {
    // The wrap shifts by the width but reduces both axes modulo the
    // height; with a 200 x 100 unit area a motionless agent standing at
    // x = 150 units is carried to (150 + 200) mod 100 = 50 units.
    let mut b = Boid::from_parts(Vec2::new(150_000, 20_000), Vec2::new(0, 0));
    let others: Vec<Boid> = Vec::new();
    b.step(&others, 17, 0, 200_000, 100_000);
    assert_eq!(Vec2::new(50_000, 20_000), b.pos);
}

#[test]
fn frame_throttle() {
    let mut f = Flock::new(100_000, 100_000, 3);
    f.draw(17, false, false, 10_000);
    let frozen = f.boids.clone();
    // 5 ms later: no simulation step, but still a full render pass.
    let cmds = f.draw(22, true, true, 10_000);
    assert_eq!(frozen, f.boids);
    assert_eq!(1 + 3 * 3, cmds.len());
    assert_eq!(
        DrawCmd::Clear { width: 100_000, height: 100_000 },
        cmds[0]
    );
}

#[test]
fn render_pass_layering() {
    let b1 = Boid::from_parts(Vec2::new(10_000, 20_000), Vec2::new(0, 0));
    let b2 = Boid::from_parts(Vec2::new(30_000, 40_000), Vec2::new(0, 0));
    let mut f = Flock {
        area_width: 100_000,
        area_height: 100_000,
        boids: vec![b1, b2],
        since_last_update: 0,
    };
    // 5 ms elapsed: render only, so the commands reflect the given state.
    let cmds = f.draw(5, true, true, 7_000);
    assert_eq!(7, cmds.len());
    assert_eq!(DrawCmd::Clear { width: 100_000, height: 100_000 }, cmds[0]);
    // Neighbourhood circles first ...
    assert_eq!(
        DrawCmd::Circle { x: 10_000, y: 20_000, radius: 7_000, color: Color::Grey, filled: false },
        cmds[1]
    );
    assert_eq!(
        DrawCmd::Circle { x: 30_000, y: 40_000, radius: 7_000, color: Color::Grey, filled: false },
        cmds[2]
    );
    // ... then velocity lines (zero velocity: a zero-length line) ...
    assert_eq!(
        DrawCmd::Line { x1: 10_000, y1: 20_000, x2: 10_000, y2: 20_000, color: Color::Black },
        cmds[3]
    );
    assert_eq!(
        DrawCmd::Line { x1: 30_000, y1: 40_000, x2: 30_000, y2: 40_000, color: Color::Black },
        cmds[4]
    );
    // ... then bodies.
    assert_eq!(
        DrawCmd::Circle { x: 10_000, y: 20_000, radius: 2_000, color: Color::Red, filled: true },
        cmds[5]
    );
    assert_eq!(
        DrawCmd::Circle { x: 30_000, y: 40_000, radius: 2_000, color: Color::Red, filled: true },
        cmds[6]
    );
}

#[test]
fn two_agent_scenario() {
    // Two agents in range, no initial motion: the cohesion and alignment
    // averages over the single neighbour are exactly that neighbour's
    // velocity and offset (count = 1 divides away nothing).
    let mut b1 = Boid::from_parts(Vec2::new(10_000, 10_000), Vec2::new(0, 0));
    let b2 = Boid::from_parts(Vec2::new(13_000, 14_000), Vec2::new(0, 0));
    b1.step(&vec![b2], 17, 10_000, 100_000, 100_000);
    // Separation: -(600, 800) at full damping; alignment: (3000, 4000);
    // cohesion: (0, 0). Goal (2400, 3200), integrated over 17 ms.
    assert_eq!(Vec2::new(408, 544), b1.vel);
    assert_eq!(Vec2::new(10_069, 10_092), b1.pos);
}

#[test]
fn fresh_agents_are_inside_the_area() {
    let f = Flock::new(50_000, 30_000, 40);
    assert_eq!(40, f.boids.len());
    for b in f.boids.iter() {
        assert!(0 <= b.pos.x && b.pos.x < 50_000);
        assert!(0 <= b.pos.y && b.pos.y < 30_000);
        // A fresh agent moves at the fixed initial speed of five units,
        // within a fixed-point step either way; only the vanishing draw
        // below the normalisation epsilon gives a standstill.
        let speed = b.vel.mag();
        assert!(speed == 0 || (4_989 <= speed && speed <= 5_004));
    }
}

#[test]
fn fresh_agent_keeps_its_position() {
    let b = Boid::new(12_345, -6_789);
    assert_eq!(12_345, b.pos.x);
    assert_eq!(-6_789, b.pos.y);
}
