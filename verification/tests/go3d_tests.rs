use p2pgo_ui::go3d::{Color3D, Coord3D, Go3DGame, ViewPlane};
use p2pgo_ui::go3d_wireframe::{Color3D as WColor, Coord3D as WCoord, Go3DWireframe};

#[test]
fn colors_take_turns_in_threes() {
    assert_eq!(Color3D::Black.next(), Color3D::White);
    assert_eq!(Color3D::White.next(), Color3D::Red);
    assert_eq!(Color3D::Red.next(), Color3D::Black);
}

#[test]
fn validity_and_neighbours() {
    assert!(Coord3D::new(0, 0, 4).is_valid());
    assert!(Coord3D::new(4, 8, 8).is_valid());
    assert!(!Coord3D::new(0, 0, 0).is_valid());
    assert!(!Coord3D::new(9, 0, 4).is_valid());
    let adj = Coord3D::new(0, 0, 4).adjacent();
    assert_eq!(adj, vec![Coord3D::new(1, 0, 4), Coord3D::new(0, 1, 4)]);
    // The centre line lies on all three planes.
    assert_eq!(Coord3D::new(4, 4, 4).adjacent().len(), 6);
}

#[test]
fn placing_stones_reports_errors() {
    let mut game = Go3DGame::new();
    assert_eq!(game.place_stone(Coord3D::new(0, 0, 0)), Err("Position not on any plane"));
    assert_eq!(game.place_stone(Coord3D::new(1, 1, 4)), Ok(()));
    assert_eq!(game.stone_at(Coord3D::new(1, 1, 4)), Some(Color3D::Black));
    assert_eq!(game.current_player(), Color3D::White);
    assert_eq!(game.place_stone(Coord3D::new(1, 1, 4)), Err("Position already occupied"));
    assert_eq!(game.move_count(), 1);
    assert_eq!(game.last_move(), Some(Coord3D::new(1, 1, 4)));
}

#[test]
fn toggling_cycles_through_colours_then_empties() {
    let mut game = Go3DGame::new();
    let c = Coord3D::new(2, 4, 6);
    game.toggle_stone(c);
    assert_eq!(game.stone_at(c), Some(Color3D::Black));
    assert_eq!(game.current_player(), Color3D::White);
    game.toggle_stone(c);
    assert_eq!(game.stone_at(c), Some(Color3D::White));
    game.toggle_stone(c);
    assert_eq!(game.stone_at(c), Some(Color3D::Red));
    game.toggle_stone(c);
    assert_eq!(game.stone_at(c), None);
}

#[test]
fn views_project_and_unproject() {
    let mut game = Go3DGame::new();
    let c = Coord3D::new(3, 4, 7);
    assert!(!game.coord_in_view(&c));
    game.set_view(ViewPlane::XZ);
    assert!(game.coord_in_view(&c));
    assert_eq!(game.current_view(), ViewPlane::XZ);
    let (x, y) = game.project_to_2d(&c);
    assert_eq!((x, y), (3, 7));
    assert_eq!(game.unproject_from_2d(x, y), c);
}

#[test]
fn random_stones_stay_on_the_planes() {
    let mut game = Go3DGame::new();
    game.add_random_stones();
    let mut seen = 0;
    for x in 0..9u8 {
        for y in 0..9u8 {
            for z in 0..9u8 {
                let c = Coord3D::new(x, y, z);
                if game.stone_at(c).is_some() {
                    assert!(c.is_valid());
                    seen += 1;
                }
            }
        }
    }
    assert!(seen >= 1 && seen <= 30);
    game.clear_board();
    assert_eq!(game.stone_at(Coord3D::new(4, 4, 4)), None);
    assert_eq!(game.move_count(), 0);
}

#[test]
fn wireframe_places_only_on_empty_plane_points() {
    let mut game = Go3DWireframe::new();
    game.place_stone(WCoord::new(1, 1, 1));
    assert_eq!(game.stone_count(), 0);
    game.place_stone(WCoord::new(-4, 2, 0));
    assert_eq!(game.stone_at(WCoord::new(-4, 2, 0)), Some(WColor::Black));
    assert_eq!(game.current_player(), WColor::White);
    game.place_stone(WCoord::new(-4, 2, 0));
    assert_eq!(game.stone_count(), 1);
    assert_eq!(game.current_player(), WColor::White);
    game.add_random_stones();
    assert!(game.stone_count() >= 1 && game.stone_count() <= 16);
    game.clear_board();
    assert_eq!(game.stone_count(), 0);
    assert_eq!(game.current_player(), WColor::Black);
}
