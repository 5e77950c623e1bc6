use console_backend::fov::{
    calculate_fov, calculate_fov_for_direction, ray_stays_on_map, Visibility,
};
use console_backend::map::{Tile, TileMap};
use console_backend::viewport::Viewport;
use console_backend::font::Ratio;

fn corridor() -> TileMap {
    let mut map = vec![vec![Tile::wall(); 3]; 8];
    for x in 1..6 {
        map[x][1] = Tile::empty();
    }
    map
}

#[test]
fn visibility_is_a_set_of_cells() {
    let mut seen = Visibility::new();
    assert!(!seen.contains((1, 2)));
    seen.insert((1, 2));
    seen.insert((1, 2));
    seen.insert((-3, 4));
    assert!(seen.contains((1, 2)));
    assert!(seen.contains((-3, 4)));
    assert!(!seen.contains((2, 1)));
}

#[test]
fn a_ray_is_seen_up_to_the_first_wall() {
    let map = corridor();
    let mut seen = Visibility::new();
    let ray = vec![(2, 1), (3, 1), (4, 1), (5, 1), (6, 1), (7, 1)];
    calculate_fov_for_direction(&ray, &map, &mut seen);
    for x in 2..=6 {
        assert!(seen.contains((x, 1)));
    }
    assert!(!seen.contains((7, 1)));
    assert!(!seen.contains((1, 1)));
}

#[test]
fn a_ray_that_starts_in_a_wall_sees_only_the_wall() {
    let map = corridor();
    let mut seen = Visibility::new();
    seen.insert((0, 0));
    calculate_fov_for_direction(&vec![(2, 0), (2, 1), (2, 2)], &map, &mut seen);
    assert!(seen.contains((2, 0)));
    assert!(!seen.contains((2, 1)));
    assert!(seen.contains((0, 0)));
    calculate_fov_for_direction(&vec![], &map, &mut seen);
    assert!(!seen.contains((2, 1)));
}

#[test]
fn a_ray_without_a_wall_is_seen_to_its_end() {
    let map = corridor();
    let mut seen = Visibility::new();
    calculate_fov_for_direction(&vec![(1, 1), (2, 1), (3, 1)], &map, &mut seen);
    assert!(seen.contains((1, 1)) && seen.contains((2, 1)) && seen.contains((3, 1)));
    assert!(!seen.contains((4, 1)));
}

#[test]
fn the_field_of_view_is_what_any_ray_sees() {
    let map = corridor();
    let rays = vec![
        vec![(3, 1), (4, 1), (5, 1), (6, 1), (7, 1)],
        vec![(3, 1), (2, 1), (1, 1), (0, 1)],
        vec![(3, 1), (3, 2)],
        vec![(3, 1), (3, 0)],
    ];
    let seen = calculate_fov(&rays, &map);
    for cell in [(0, 1), (1, 1), (2, 1), (3, 1), (4, 1), (5, 1), (6, 1), (3, 0), (3, 2)] {
        assert!(seen.contains(cell));
    }
    assert!(!seen.contains((7, 1)));
    assert!(!seen.contains((2, 0)));
    let nothing = calculate_fov(&vec![], &map);
    assert!(!nothing.contains((3, 1)));
}

#[test]
fn viewport_covers_the_window_and_follows_its_size() {
    let mut viewport = Viewport::for_window((800, 600));
    assert_eq!(viewport, Viewport { x: 0, y: 0, w: 800, h: 600 });
    assert_eq!(viewport.aspect_ratio(), Ratio { numerator: 800, denominator: 600 });
    assert_eq!(viewport.update_size((1024, 768)), (1024, 768));
    assert_eq!(viewport, Viewport { x: 0, y: 0, w: 1024, h: 768 });
}

#[test]
fn rays_that_leave_the_map_are_told_beforehand() {
    let map = corridor();
    assert!(ray_stays_on_map(&vec![], &map));
    assert!(ray_stays_on_map(&vec![(2, 1), (3, 1), (4, 1)], &map));
    assert!(ray_stays_on_map(&vec![(5, 1), (6, 1), (7, 1), (8, 1), (-4, 9)], &map));
    assert!(!ray_stays_on_map(&vec![(2, 1), (2, 3)], &map));
    assert!(!ray_stays_on_map(&vec![(2, 1), (-1, 1)], &map));
    assert!(!ray_stays_on_map(&vec![(2, 1), (2, -1)], &map));
    assert!(!ray_stays_on_map(&vec![(8, 1)], &map));
    assert!(ray_stays_on_map(&vec![(0, 0), (8, 1)], &map));
}
