use tower_defense::grid::{load_map, GridMap, PlacementError};
use tower_defense::tower::charge_shot::{spawn_charge_shot, ChargeShot};
use tower_defense::tower::debuffs::{
    debuff_event_handler, AddDebuff, Debuff, Overheatable, Shape, SpeedUpPoint,
};
use tower_defense::tower::jammer::spawn_jammer;
use tower_defense::tower::laser::{spawn_laser, Direction, Laser};
use tower_defense::tower::missile::spawn_silo;
use tower_defense::tower::sniper::{spawn_sniper, Sniper};
use tower_defense::tower::{
    cells_of_shape, handle_tower_placement, place_tower, PlacedTower, TargetMode, Tower,
    TowerPlaced, TowerType, Weapon,
};
use tower_defense::timer::Timer;

fn all_debuffs() -> Vec<Debuff> {
    vec![
        Debuff::MoveSpeedUp(25),
        Debuff::ReduceNeighbourDamage(20),
        Debuff::ReduceRowDamage(20),
        Debuff::ReduceColumnDamage(20),
        Debuff::ReduceNeighbourRate(30),
        Debuff::ReduceRowRate(30),
        Debuff::ReduceColumnRate(30),
        Debuff::Overheat,
        Debuff::RowOverheat,
        Debuff::ColumnOverheat,
        Debuff::TurretIncompatible,
        Debuff::SniperIncompatible,
        Debuff::LaserIncompatible,
        Debuff::MissileIncompatible,
        Debuff::TargetClosest,
        Debuff::TargetRandom,
        Debuff::Immune,
    ]
}

fn open_map() -> GridMap {
    GridMap::new(vec![vec![0; 6]; 6], (-1, 4), vec![(6, 4)])
}

fn all_types() -> Vec<TowerType> {
    vec![
        TowerType::ChargeShot,
        TowerType::Laser,
        TowerType::Sniper,
        TowerType::Jammer,
        TowerType::Missile,
    ]
}

#[test]
fn tower_names_and_descriptions() {
    let names: Vec<&str> = all_types().iter().map(|t| t.name()).collect();
    assert_eq!(names, vec!["Turret", "Laser", "Sniper", "Signal Jammer", "Missile Launcher"]);
    assert_eq!(
        TowerType::ChargeShot.description(),
        "A tower that regularly shoots a projectile at the first enemy in range"
    );
    assert_eq!(
        TowerType::Laser.description(),
        "A tower that shoots a continuous beam. Pierces enemies"
    );
    assert_eq!(
        TowerType::Sniper.description(),
        "A long range tower with high damage but slow rate of fire"
    );
    assert_eq!(TowerType::Jammer.description(), "Slows down enemies within 1 tile");
    assert_eq!(
        TowerType::Missile.description(),
        "Launches a high damage missile at the strongest enemy. Infinite range"
    );
}

#[test]
fn tower_kinds_by_roll() {
    let kinds: Vec<TowerType> = (0..=8).map(TowerType::from_roll).collect();
    assert_eq!(
        kinds,
        vec![
            TowerType::ChargeShot,
            TowerType::ChargeShot,
            TowerType::ChargeShot,
            TowerType::Laser,
            TowerType::Laser,
            TowerType::Sniper,
            TowerType::Sniper,
            TowerType::Jammer,
            TowerType::Missile,
        ]
    );
}

#[test]
fn debuffs_by_roll() {
    let expect = [
        (0, Debuff::MoveSpeedUp(17)),
        (1, Debuff::MoveSpeedUp(17)),
        (2, Debuff::ReduceNeighbourDamage(17)),
        (3, Debuff::ReduceNeighbourDamage(17)),
        (4, Debuff::ReduceNeighbourRate(17)),
        (5, Debuff::ReduceNeighbourRate(17)),
        (6, Debuff::Overheat),
        (7, Debuff::Overheat),
        (8, Debuff::TurretIncompatible),
        (9, Debuff::TurretIncompatible),
        (10, Debuff::SniperIncompatible),
        (11, Debuff::LaserIncompatible),
        (12, Debuff::MissileIncompatible),
        (13, Debuff::TargetClosest),
        (14, Debuff::TargetClosest),
        (15, Debuff::TargetRandom),
        (16, Debuff::TargetRandom),
        (17, Debuff::RowOverheat),
        (18, Debuff::RowOverheat),
        (19, Debuff::ColumnOverheat),
        (20, Debuff::ColumnOverheat),
        (21, Debuff::ReduceRowDamage(17)),
        (22, Debuff::ReduceRowDamage(17)),
        (23, Debuff::ReduceColumnDamage(17)),
        (24, Debuff::ReduceColumnDamage(17)),
        (25, Debuff::ReduceRowRate(17)),
        (26, Debuff::ReduceRowRate(17)),
        (27, Debuff::ReduceColumnRate(17)),
        (28, Debuff::ReduceColumnRate(17)),
        (29, Debuff::Immune),
    ];
    for (roll, debuff) in expect {
        assert_eq!(Debuff::from_roll(roll, 17), debuff);
    }
    assert_eq!(Debuff::bounds_of_roll(0), (15, 45));
    assert_eq!(Debuff::bounds_of_roll(3), (15, 40));
    assert_eq!(Debuff::bounds_of_roll(5), (10, 40));
    assert_eq!(Debuff::bounds_of_roll(21), (10, 35));
    assert_eq!(Debuff::bounds_of_roll(28), (10, 35));
}

fn percent_of(d: Debuff) -> Option<(u32, u32, u32)> {
    match d {
        Debuff::MoveSpeedUp(p) => Some((p, 15, 45)),
        Debuff::ReduceNeighbourDamage(p) => Some((p, 15, 40)),
        Debuff::ReduceNeighbourRate(p) => Some((p, 10, 40)),
        Debuff::ReduceRowDamage(p)
        | Debuff::ReduceColumnDamage(p)
        | Debuff::ReduceRowRate(p)
        | Debuff::ReduceColumnRate(p) => Some((p, 10, 35)),
        _ => None,
    }
}

#[test]
fn random_debuffs_stay_within_their_bounds_and_vary() {
    let mut kinds = std::collections::HashSet::new();
    let mut percents = std::collections::HashSet::new();
    for _ in 0..2000 {
        let d = Debuff::random();
        if let Some((p, low, high)) = percent_of(d) {
            assert!(low <= p && p <= high, "{:?}", d);
            percents.insert(p);
        }
        kinds.insert(std::mem::discriminant(&d));
    }
    // Thirty faces and two thousand rolls: every kind turns up.
    assert_eq!(kinds.len(), 17);
    assert!(percents.len() > 20);
}

#[test]
fn compatibility_table() {
    for d in all_debuffs() {
        assert!(Tower::suits(TowerType::ChargeShot, d));
        assert!(Tower::suits(TowerType::Sniper, d));
        let targeting = matches!(d, Debuff::TargetClosest | Debuff::TargetRandom);
        assert_eq!(Tower::suits(TowerType::Laser, d), !targeting);
        assert_eq!(Tower::suits(TowerType::Missile, d), !targeting);
        let jamming = matches!(d, Debuff::Overheat | Debuff::MoveSpeedUp(_));
        assert_eq!(Tower::suits(TowerType::Jammer, d), !targeting && !jamming);
    }
}

#[test]
fn random_towers_have_stock_stats_and_suitable_debuffs() {
    let mut kinds = std::collections::HashSet::new();
    let mut turret_damage = std::collections::HashSet::new();
    for _ in 0..2000 {
        let t = Tower::new_random();
        assert!(Tower::suits(t.variant, t.debuff), "{:?}", t);
        assert!(!t.overheating);
        assert_eq!(t.target_mode, TargetMode::First);
        match t.variant {
            TowerType::ChargeShot => {
                assert!(300 <= t.damage && t.damage <= 500 && t.damage % 10 == 0);
                assert_eq!(t.rate, 1800);
                turret_damage.insert(t.damage);
            }
            TowerType::Laser => assert_eq!((t.damage, t.rate), (160, 4000)),
            TowerType::Sniper => assert_eq!((t.damage, t.rate), (3000, 300)),
            TowerType::Jammer => assert_eq!((t.damage, t.rate), (0, 0)),
            TowerType::Missile => assert_eq!((t.damage, t.rate), (8000, 135)),
        }
        kinds.insert(t.variant as u8);
    }
    assert_eq!(kinds.len(), 5);
    assert!(turret_damage.len() > 10);
}

#[test]
fn assemble_builds_the_stock_tower() {
    let t = Tower::assemble(TowerType::ChargeShot, 42, Debuff::Immune);
    assert_eq!(t, Tower::new(420, 1800, TowerType::ChargeShot, Debuff::Immune));
    let l = Tower::assemble(TowerType::Laser, 42, Debuff::Overheat);
    assert_eq!(l, Tower::new(160, 4000, TowerType::Laser, Debuff::Overheat));
}

#[test]
fn shapes_and_effects_of_debuffs() {
    let shapes: Vec<Shape> = all_debuffs().iter().map(|d| d.reach()).collect();
    assert_eq!(
        shapes,
        vec![
            Shape::Own,
            Shape::Neighbours,
            Shape::Row,
            Shape::Column,
            Shape::Neighbours,
            Shape::Row,
            Shape::Column,
            Shape::Own,
            Shape::Row,
            Shape::Column,
            Shape::Neighbours,
            Shape::Neighbours,
            Shape::Neighbours,
            Shape::Neighbours,
            Shape::Own,
            Shape::Own,
            Shape::Nowhere,
        ]
    );
    assert_eq!(Debuff::ReduceRowDamage(20).delivered(), Debuff::ReduceNeighbourDamage(20));
    assert_eq!(Debuff::ReduceColumnDamage(20).delivered(), Debuff::ReduceNeighbourDamage(20));
    assert_eq!(Debuff::ReduceRowRate(30).delivered(), Debuff::ReduceNeighbourRate(30));
    assert_eq!(Debuff::ReduceColumnRate(30).delivered(), Debuff::ReduceNeighbourRate(30));
    assert_eq!(Debuff::RowOverheat.delivered(), Debuff::Overheat);
    assert_eq!(Debuff::ColumnOverheat.delivered(), Debuff::Overheat);
    assert_eq!(Debuff::LaserIncompatible.delivered(), Debuff::LaserIncompatible);
    assert_eq!(Debuff::MoveSpeedUp(25).delivered(), Debuff::MoveSpeedUp(25));
}

#[test]
fn cells_of_each_shape() {
    assert_eq!(cells_of_shape(Shape::Own, (2, 3), 6, 6), vec![(2, 3)]);
    assert_eq!(cells_of_shape(Shape::Nowhere, (2, 3), 6, 6), vec![]);
    assert_eq!(
        cells_of_shape(Shape::Neighbours, (2, 3), 6, 6),
        vec![(2, 4), (2, 2), (3, 3), (1, 3)]
    );
    // Cells off the board are left out.
    assert_eq!(cells_of_shape(Shape::Neighbours, (0, 0), 6, 6), vec![(0, 1), (1, 0)]);
    assert_eq!(cells_of_shape(Shape::Neighbours, (5, 5), 6, 6), vec![(5, 4), (4, 5)]);
    assert_eq!(cells_of_shape(Shape::Neighbours, (0, 0), 1, 1), vec![]);
    assert_eq!(
        cells_of_shape(Shape::Row, (2, 3), 6, 6),
        vec![(0, 3), (1, 3), (3, 3), (4, 3), (5, 3)]
    );
    assert_eq!(
        cells_of_shape(Shape::Column, (2, 3), 6, 4),
        vec![(2, 0), (2, 1), (2, 2)]
    );
    assert_eq!(cells_of_shape(Shape::Row, (0, 0), 1, 1), vec![]);
    assert_eq!(cells_of_shape(Shape::Row, (-1, 2), 2, 4), vec![(0, 2), (1, 2)]);
    assert_eq!(cells_of_shape(Shape::Row, (127, 0), 1000, 1).len(), 127);
    assert_eq!(cells_of_shape(Shape::Column, (0, 0), 1, 1000).last(), Some(&(0, 127)));
}

#[test]
fn reductions_lower_damage_and_rate() {
    let mut t = Tower::new(10_000, 1_800, TowerType::ChargeShot, Debuff::Overheat);
    t.reduce_damage_by(20);
    assert_eq!(t.damage, 8_000);
    t.reduce_rate_by(50);
    assert_eq!(t.rate, 900);
    t.reduce_damage_by(100);
    assert_eq!(t.damage, 0);
    t.reduce_damage_by(100);
    assert_eq!(t.damage, 0);
    t.reduce_rate_by(1_000);
    assert_eq!(t.rate, 0);
}

#[test]
fn incompatibility_halves_only_the_named_kind() {
    let table = [
        (Debuff::TurretIncompatible, TowerType::ChargeShot),
        (Debuff::SniperIncompatible, TowerType::Sniper),
        (Debuff::LaserIncompatible, TowerType::Laser),
        (Debuff::MissileIncompatible, TowerType::Missile),
    ];
    for (debuff, named) in table {
        for variant in all_types() {
            let mut t = Tower::new(3_000, 1_000, variant, Debuff::Overheat);
            t.apply_debuff(debuff);
            assert_eq!(t.damage, if variant == named { 1_500 } else { 3_000 });
            assert_eq!(t.rate, 1_000);
        }
    }
}

#[test]
fn targeting_debuffs_set_the_mode() {
    let mut t = Tower::new(3_000, 1_000, TowerType::Sniper, Debuff::TargetClosest);
    assert_eq!(t.target_mode, TargetMode::First);
    t.apply_debuff(Debuff::TargetClosest);
    assert_eq!(t.target_mode, TargetMode::Closest);
    t.apply_debuff(Debuff::TargetRandom);
    assert_eq!(t.target_mode, TargetMode::Random);
}

#[test]
fn immune_towers_take_nothing() {
    for debuff in all_debuffs() {
        let mut t = Tower::new(3_000, 1_000, TowerType::ChargeShot, Debuff::Immune);
        let before = t;
        t.apply_debuff(debuff);
        assert_eq!(t, before);
    }
    let mut map = load_map();
    let mut towers = Vec::new();
    let mut points = Vec::new();
    let immune = Tower::new(3_000, 1_000, TowerType::ChargeShot, Debuff::Immune);
    place_tower(immune, (2, 2), Direction::Down, &mut towers, &mut map, &mut points).unwrap();
    let events = vec![
        AddDebuff { grid_pos: (2, 2), debuff: Debuff::Overheat },
        AddDebuff { grid_pos: (2, 2), debuff: Debuff::MoveSpeedUp(30) },
        AddDebuff { grid_pos: (2, 2), debuff: Debuff::ReduceNeighbourDamage(30) },
    ];
    debuff_event_handler(&events, &mut towers, &map, &mut points);
    assert_eq!(towers[0].tower, immune);
    assert_eq!(towers[0].overheat, None);
    assert!(points.is_empty());
}

#[test]
fn spawning_gives_each_kind_its_weapon() {
    let mut map = load_map();
    let mut towers = Vec::new();
    let mut points = Vec::new();
    let t = |variant, rate| Tower::new(1_000, rate, variant, Debuff::Immune);
    let e = spawn_charge_shot(t(TowerType::ChargeShot, 1_800), (0, 0), &mut towers, &mut map);
    assert_eq!(e, TowerPlaced { grid_pos: (0, 0) });
    spawn_sniper(t(TowerType::Sniper, 300), (1, 0), &mut towers, &mut map);
    spawn_laser(t(TowerType::Laser, 4_000), (2, 0), Direction::Left, &mut towers, &mut map);
    spawn_silo(t(TowerType::Missile, 135), (3, 0), &mut towers, &mut map);
    spawn_jammer(t(TowerType::Jammer, 0), (4, 0), &mut towers, &mut map, &mut points);
    let weapons: Vec<Weapon> = towers.iter().map(|p| p.weapon).collect();
    assert_eq!(
        weapons,
        vec![
            Weapon::ChargeShot(ChargeShot { range: 1_000, timer: Timer::new(555) }),
            Weapon::Sniper(Sniper { range: 3_000, timer: Timer::new(3_333) }),
            Weapon::Laser(Laser { direction: Direction::Left, timer: Timer::new(250) }),
            Weapon::Missile(tower_defense::tower::missile::Silo { timer: Timer::new(7_407) }),
            Weapon::Jammer,
        ]
    );
    assert_eq!(points, vec![SpeedUpPoint { percent: -40, x: 128_000, y: 0 }]);
    for (id, placed) in towers.iter().enumerate() {
        assert_eq!(placed.grid_pos, (id as i8, 0));
        assert_eq!(map.tower_at(placed.grid_pos), Some(id));
        assert_eq!(placed.overheat, None);
    }
    assert_eq!(ChargeShot::new(1_500, 2_000), ChargeShot { range: 1_500, timer: Timer::new(500) });
    assert_eq!(Sniper::new(3_000, 0).timer.duration, u64::MAX);
}

#[test]
fn a_neighbour_reduction_reaches_the_tower_placed_next_to_it() {
    let mut map = load_map();
    let mut towers = Vec::new();
    let mut points = Vec::new();
    let first = Tower::new(3_000, 300, TowerType::Sniper, Debuff::ReduceNeighbourDamage(20));
    let second = Tower::new(10_000, 1_800, TowerType::ChargeShot, Debuff::Immune);
    let placed = place_tower(first, (2, 2), Direction::Down, &mut towers, &mut map, &mut points);
    assert_eq!(placed, Ok(TowerPlaced { grid_pos: (2, 2) }));
    let second = Tower { debuff: Debuff::TargetClosest, ..second };
    place_tower(second, (2, 3), Direction::Down, &mut towers, &mut map, &mut points).unwrap();
    // 10 less 20 percent is 8.
    assert_eq!(towers[1].tower.damage, 8_000);
    assert_eq!(towers[1].tower.rate, 1_800);
    assert_eq!(towers[1].tower.target_mode, TargetMode::Closest);
    assert_eq!(towers[0].tower, first);
}

#[test]
fn placement_events_come_in_the_documented_order() {
    let mut map = open_map();
    let mut towers = Vec::new();
    let mut points = Vec::new();
    let t = |variant, debuff| Tower::new(1_000, 1_000, variant, debuff);
    // Around (2, 2): above, below, to the right; further along the row and
    // the column.
    spawn_charge_shot(t(TowerType::ChargeShot, Debuff::ReduceNeighbourRate(10)), (2, 3), &mut towers, &mut map);
    spawn_charge_shot(t(TowerType::ChargeShot, Debuff::LaserIncompatible), (2, 1), &mut towers, &mut map);
    spawn_charge_shot(t(TowerType::ChargeShot, Debuff::ReduceRowDamage(15)), (4, 2), &mut towers, &mut map);
    spawn_charge_shot(t(TowerType::ChargeShot, Debuff::ColumnOverheat), (2, 5), &mut towers, &mut map);
    spawn_charge_shot(t(TowerType::ChargeShot, Debuff::ReduceColumnRate(35)), (2, 0), &mut towers, &mut map);
    spawn_charge_shot(t(TowerType::ChargeShot, Debuff::ReduceRowRate(5)), (5, 5), &mut towers, &mut map);
    spawn_laser(t(TowerType::Laser, Debuff::ReduceRowDamage(40)), (2, 2), Direction::Up, &mut towers, &mut map);
    let events = handle_tower_placement(&TowerPlaced { grid_pos: (2, 2) }, &towers, &map);
    let d = |grid_pos, debuff| AddDebuff { grid_pos, debuff };
    assert_eq!(
        events,
        vec![
            // What the new tower sends along its row.
            d((0, 2), Debuff::ReduceNeighbourDamage(40)),
            d((1, 2), Debuff::ReduceNeighbourDamage(40)),
            d((3, 2), Debuff::ReduceNeighbourDamage(40)),
            d((4, 2), Debuff::ReduceNeighbourDamage(40)),
            d((5, 2), Debuff::ReduceNeighbourDamage(40)),
            // What its neighbours send: above, then below.
            d((2, 2), Debuff::ReduceNeighbourRate(10)),
            d((2, 2), Debuff::LaserIncompatible),
            // What its row sends.
            d((2, 2), Debuff::ReduceNeighbourDamage(15)),
            // What its column sends, by rising row.
            d((2, 2), Debuff::ReduceNeighbourRate(35)),
            d((2, 2), Debuff::Overheat),
        ]
    );
    debuff_event_handler(&events, &mut towers, &map, &mut points);
    // 1000 halved, then less 15 percent.
    assert_eq!(towers[6].tower.damage, 425);
    // 1000 less 10 percent, then less 35 percent.
    assert_eq!(towers[6].tower.rate, 585);
    assert_eq!(towers[6].overheat, Some(Overheatable(Timer::new(20_000))));
    assert_eq!(towers[2].tower.damage, 600);
    for id in [0, 1, 3, 4, 5] {
        assert_eq!(towers[id].tower.damage, 1_000);
        assert_eq!(towers[id].tower.rate, 1_000);
    }
}

#[test]
fn own_debuffs_act_on_the_tower_itself() {
    let mut map = load_map();
    let mut towers = Vec::new();
    let mut points = Vec::new();
    let t = |debuff| Tower::new(1_000, 1_000, TowerType::ChargeShot, debuff);
    place_tower(t(Debuff::MoveSpeedUp(30)), (0, 0), Direction::Down, &mut towers, &mut map, &mut points).unwrap();
    place_tower(t(Debuff::Overheat), (5, 5), Direction::Down, &mut towers, &mut map, &mut points).unwrap();
    place_tower(t(Debuff::TargetRandom), (0, 5), Direction::Down, &mut towers, &mut map, &mut points).unwrap();
    assert_eq!(points, vec![SpeedUpPoint { percent: 30, x: 0, y: 0 }]);
    assert_eq!(towers[0].overheat, None);
    assert_eq!(towers[1].overheat, Some(Overheatable(Timer::new(20_000))));
    assert!(!towers[1].tower.overheating);
    // The overheating spreads neither along the row nor along the column.
    assert_eq!(towers[2].overheat, None);
    assert_eq!(towers[2].tower.target_mode, TargetMode::Random);
    assert_eq!(towers[0].tower.target_mode, TargetMode::First);
}

#[test]
fn rejected_placements_change_nothing() {
    let mut map = load_map();
    let mut towers = Vec::new();
    let mut points = Vec::new();
    let jammer = Tower::new(0, 0, TowerType::Jammer, Debuff::ReduceRowDamage(30));
    let r = place_tower(jammer, (1, 1), Direction::Down, &mut towers, &mut map, &mut points);
    assert_eq!(r, Err(PlacementError::NotBuildable));
    let r = place_tower(jammer, (0, 6), Direction::Down, &mut towers, &mut map, &mut points);
    assert_eq!(r, Err(PlacementError::NotBuildable));
    assert!(towers.is_empty() && points.is_empty() && map.placements.is_empty());
    place_tower(jammer, (0, 0), Direction::Down, &mut towers, &mut map, &mut points).unwrap();
    let before: Vec<PlacedTower> = towers.clone();
    let r = place_tower(jammer, (0, 0), Direction::Down, &mut towers, &mut map, &mut points);
    assert_eq!(r, Err(PlacementError::AlreadyOccupied));
    assert_eq!(towers, before);
    assert_eq!(points.len(), 1);
    assert_eq!(map.placements.len(), 1);
}

fn place_pair(a: Tower, pa: (i8, i8), b: Tower, pb: (i8, i8)) -> (PlacedTower, PlacedTower) {
    let mut map = load_map();
    let mut towers = Vec::new();
    let mut points = Vec::new();
    place_tower(a, pa, Direction::Down, &mut towers, &mut map, &mut points).unwrap();
    place_tower(b, pb, Direction::Right, &mut towers, &mut map, &mut points).unwrap();
    (towers[0], towers[1])
}

#[test]
fn two_towers_end_up_the_same_in_either_order() {
    let cells = [((2, 2), (2, 3)), ((2, 2), (4, 2)), ((2, 2), (2, 5)), ((0, 0), (5, 5))];
    for (pa, pb) in cells {
        for da in all_debuffs() {
            for db in all_debuffs() {
                for va in all_types() {
                    for vb in all_types() {
                        let a = Tower::new(3_333, 777, va, da);
                        let b = Tower::new(4_321, 1_234, vb, db);
                        let (a1, b1) = place_pair(a, pa, b, pb);
                        let mut map = load_map();
                        let mut towers = Vec::new();
                        let mut points = Vec::new();
                        place_tower(b, pb, Direction::Right, &mut towers, &mut map, &mut points)
                            .unwrap();
                        place_tower(a, pa, Direction::Down, &mut towers, &mut map, &mut points)
                            .unwrap();
                        assert_eq!(towers[1], a1);
                        assert_eq!(towers[0], b1);
                    }
                }
            }
        }
    }
}

#[test]
fn a_third_tower_can_tell_the_order_of_two_reductions() {
    let run = |first_row: bool| {
        let mut map = load_map();
        let mut towers = Vec::new();
        let mut points = Vec::new();
        let third = Tower::new(3, 1_000, TowerType::ChargeShot, Debuff::Immune);
        let third = Tower { debuff: Debuff::TargetClosest, ..third };
        place_tower(third, (2, 2), Direction::Down, &mut towers, &mut map, &mut points).unwrap();
        let row = Tower::new(0, 0, TowerType::Jammer, Debuff::ReduceRowDamage(50));
        let column = Tower::new(0, 0, TowerType::Jammer, Debuff::ReduceColumnDamage(40));
        if first_row {
            place_tower(row, (4, 2), Direction::Down, &mut towers, &mut map, &mut points).unwrap();
            place_tower(column, (2, 5), Direction::Down, &mut towers, &mut map, &mut points).unwrap();
        } else {
            place_tower(column, (2, 5), Direction::Down, &mut towers, &mut map, &mut points).unwrap();
            place_tower(row, (4, 2), Direction::Down, &mut towers, &mut map, &mut points).unwrap();
        }
        towers[0].tower.damage
    };
    // 3 less 50 percent is 2 (one is cut), less 40 percent stays 2.
    assert_eq!(run(true), 2);
    // 3 less 40 percent is 2, less 50 percent is 1.
    assert_eq!(run(false), 1);
}

#[test]
fn debuff_descriptions() {
    assert_eq!(Debuff::MoveSpeedUp(25).description(), "Enemies within 1 tile move 25% faster");
    assert_eq!(
        Debuff::ReduceNeighbourDamage(20).description(),
        "Towers directly next to this one do 20% less damage"
    );
    assert_eq!(Debuff::ReduceRowDamage(7).description(), "Towers in the same row do 7% less damage");
    assert_eq!(
        Debuff::ReduceColumnDamage(100).description(),
        "Towers in the same column do 100% less damage"
    );
    assert_eq!(
        Debuff::ReduceNeighbourRate(0).description(),
        "Towers directly next to this one shoot 0% slower"
    );
    assert_eq!(Debuff::ReduceRowRate(35).description(), "Towers in the same row shoot 35% slower");
    assert_eq!(
        Debuff::ReduceColumnRate(4_294_967_295).description(),
        "Towers in the same column shoot 4294967295% slower"
    );
    assert_eq!(
        Debuff::Overheat.description(),
        "Has a chance to randomly overheat, rendering it ineffective for a few seconds"
    );
    assert_eq!(
        Debuff::RowOverheat.description(),
        "All towers in the same row have a chance to randomly overheat, rendering them ineffective for a few seconds"
    );
    assert_eq!(
        Debuff::ColumnOverheat.description(),
        "All towers in the same column have a chance to randomly overheat, rendering them ineffective for a few seconds"
    );
    assert_eq!(
        Debuff::TurretIncompatible.description(),
        "Towers of type 'Turret' directly next to this one do half damage"
    );
    assert_eq!(
        Debuff::SniperIncompatible.description(),
        "Towers of type 'Sniper' directly next to this one do half damage"
    );
    assert_eq!(
        Debuff::LaserIncompatible.description(),
        "Towers of type 'Laser' directly next to this one do half damage"
    );
    assert_eq!(
        Debuff::MissileIncompatible.description(),
        "Towers of type 'Missile Launcher' directly next to this one do half damage"
    );
    assert_eq!(
        Debuff::TargetClosest.description(),
        "This tower will target the closest enemy in range instead of the one at the front"
    );
    assert_eq!(
        Debuff::TargetRandom.description(),
        "This tower will fire randomly at enemies in range"
    );
    assert_eq!(
        Debuff::Immune.description(),
        "This tower is immune to the effects of neighbouring tiles"
    );
}

#[test]
fn on_a_board_with_towers_the_order_does_not_matter_where_debuffs_do_not_overlap() {
    let run = |a_first: bool| {
        let mut map = open_map();
        let mut towers = Vec::new();
        let mut points = Vec::new();
        let t = |damage, variant, debuff| Tower::new(damage, 1_111, variant, debuff);
        // Standing towers: one sends along its column, one is reached by A only, one by B only.
        place_tower(t(777, TowerType::Sniper, Debuff::ReduceColumnRate(35)), (4, 0), Direction::Down, &mut towers, &mut map, &mut points).unwrap();
        place_tower(t(333, TowerType::ChargeShot, Debuff::TargetClosest), (0, 2), Direction::Down, &mut towers, &mut map, &mut points).unwrap();
        place_tower(t(999, TowerType::Laser, Debuff::Immune), (4, 5), Direction::Down, &mut towers, &mut map, &mut points).unwrap();
        place_tower(t(555, TowerType::ChargeShot, Debuff::Overheat), (5, 4), Direction::Down, &mut towers, &mut map, &mut points).unwrap();
        let a = t(3_333, TowerType::Laser, Debuff::ReduceRowDamage(33));
        let b = t(4_321, TowerType::ChargeShot, Debuff::ReduceNeighbourDamage(17));
        let (pa, pb) = ((2, 2), (4, 4));
        if a_first {
            place_tower(a, pa, Direction::Up, &mut towers, &mut map, &mut points).unwrap();
            place_tower(b, pb, Direction::Up, &mut towers, &mut map, &mut points).unwrap();
            (towers[..4].to_vec(), towers[4], towers[5])
        } else {
            place_tower(b, pb, Direction::Up, &mut towers, &mut map, &mut points).unwrap();
            place_tower(a, pa, Direction::Up, &mut towers, &mut map, &mut points).unwrap();
            (towers[..4].to_vec(), towers[5], towers[4])
        }
    };
    let (standing_ab, a_ab, b_ab) = run(true);
    let (standing_ba, a_ba, b_ba) = run(false);
    assert_eq!(standing_ab, standing_ba);
    assert_eq!(a_ab, a_ba);
    assert_eq!(b_ab, b_ba);
    // The tower in A's row lost a third of its damage, the one next to B 17 percent.
    assert_eq!(standing_ab[1].tower.damage, 333 - 109);
    assert_eq!(standing_ab[3].tower.damage, 555 - 94);
    assert_eq!(standing_ab[2].tower.damage, 999);
    // B stands in the column of the first tower.
    assert_eq!(b_ab.tower.rate, 1_111 - 388);
    assert_eq!(a_ab.tower.damage, 3_333);
}
