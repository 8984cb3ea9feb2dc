use ball_game::geometry::{
    advance, confine, get_bounds, touching, unit_direction, Bounds, Direction, Playfield,
    Position, POS_LIMIT,
};
use ball_game::random::scale_draw;

fn field(w: i64, h: i64) -> Playfield {
    Playfield { width: w * 1000, height: h * 1000 }
}

#[test]
fn bounds_of_player_in_800_by_600() {
    let b = get_bounds(&field(800, 600), 64_000);
    assert_eq!(b, Bounds { x_min: 32_000, x_max: 768_000, y_min: 32_000, y_max: 568_000 });
}

#[test]
fn confine_clamps_each_axis() {
    let b = get_bounds(&field(800, 600), 64_000);
    assert_eq!(confine(Position { x: -5, y: 900_000 }, &b), Position { x: 32_000, y: 568_000 });
    assert_eq!(confine(Position { x: 900_000, y: 0 }, &b), Position { x: 768_000, y: 32_000 });
    assert_eq!(confine(Position { x: 400_000, y: 300_000 }, &b), Position { x: 400_000, y: 300_000 });
}

#[test]
fn confine_keeps_positions_within_half_size() {
    let f = field(800, 600);
    let b = get_bounds(&f, 30_000);
    for x in [-1_000_000i64, 0, 14_999, 15_000, 400_000, 785_000, 785_001, 2_000_000] {
        for y in [-7i64, 15_000, 300_000, 585_001, 10_000_000] {
            let q = confine(Position { x, y }, &b);
            assert!(15_000 <= q.x && q.x <= 800_000 - 15_000);
            assert!(15_000 <= q.y && q.y <= 600_000 - 15_000);
        }
    }
}

#[test]
fn confine_in_window_smaller_than_entity() {
    let b = get_bounds(&field(40, 40), 64_000);
    assert_eq!(b.x_min, 32_000);
    assert_eq!(b.x_max, 8_000);
    assert_eq!(confine(Position { x: 0, y: 50_000 }, &b), Position { x: 32_000, y: 8_000 });
}

#[test]
fn touching_is_strictly_below_reach() {
    let a = Position { x: 0, y: 0 };
    assert!(!touching(a, Position { x: 47_000, y: 0 }, 47_000));
    assert!(touching(a, Position { x: 46_999, y: 0 }, 47_000));
    assert!(touching(a, Position { x: 30_000, y: 30_000 }, 47_000));
    assert!(!touching(a, Position { x: 34_000, y: 34_000 }, 47_000));
    assert!(!touching(a, a, 0));
}

#[test]
fn touching_at_the_largest_coordinates() {
    let a = Position { x: POS_LIMIT, y: POS_LIMIT };
    let b = Position { x: -POS_LIMIT, y: -POS_LIMIT };
    assert!(!touching(a, b, POS_LIMIT));
    assert!(touching(a, a, 1));
}

#[test]
fn unit_directions() {
    assert_eq!(unit_direction(1000, 0), Direction { x: 1000, y: 0 });
    assert_eq!(unit_direction(0, -1000), Direction { x: 0, y: -1000 });
    assert_eq!(unit_direction(1000, 1000), Direction { x: 707, y: 707 });
    assert_eq!(unit_direction(-1000, 1000), Direction { x: -707, y: 707 });
    assert_eq!(unit_direction(3, 4), Direction { x: 600, y: 800 });
    assert_eq!(unit_direction(0, 0), Direction { x: 0, y: 0 });
}

#[test]
fn advance_by_one_second() {
    let p = Position { x: 0, y: 0 };
    let q = advance(p, Direction { x: 1000, y: -1000 }, 500, 1_000_000_000);
    assert_eq!(q, Position { x: 500_000, y: -500_000 });
}

#[test]
fn advance_by_one_frame_rounds_toward_zero() {
    let p = Position { x: 100_000, y: 100_000 };
    let q = advance(p, Direction { x: 707, y: -707 }, 200, 16_666_667);
    // 707 * 200 * 16_666_667 / 1e9 = 2356.66...
    assert_eq!(q, Position { x: 102_356, y: 97_644 });
}

#[test]
fn advance_saturates() {
    let p = Position { x: POS_LIMIT - 1, y: -POS_LIMIT + 1 };
    let q = advance(p, Direction { x: 1000, y: -1000 }, 1_000_000, u64::MAX);
    assert_eq!(q, Position { x: POS_LIMIT, y: -POS_LIMIT });
}

#[test]
fn draws_scale_into_extent() {
    assert_eq!(scale_draw(0, 800_000), 0);
    assert_eq!(scale_draw(u32::MAX, 1001), 1000);
    assert_eq!(scale_draw(1 << 31, 800_000), 400_000);
    assert_eq!(scale_draw(u32::MAX, 0), 0);
}
