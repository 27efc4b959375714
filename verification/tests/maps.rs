use eldiron::map::LevelMap;

fn square(map: &mut LevelMap) -> Option<u32> {
    let a = map.add_vertex_at(0, 0);
    let b = map.add_vertex_at(10, 0);
    let c = map.add_vertex_at(10, 10);
    let d = map.add_vertex_at(0, 10);
    map.create_linedef(a, b);
    map.create_linedef(b, c);
    map.create_linedef(c, d);
    map.create_linedef(d, a).1
}

#[test]
fn adding_a_vertex_twice_gives_the_same_id() {
    let mut map = LevelMap::new();
    let a = map.add_vertex_at(3, 4);
    let b = map.add_vertex_at(3, 4);
    assert_eq!(a, b);
    assert_eq!(map.vertices.len(), 1);
    assert_eq!(map.find_vertex_at(3, 4), Some(a));
    assert_eq!(map.find_vertex_at(4, 3), None);
}

#[test]
fn closing_a_polygon_creates_a_sector() {
    let mut map = LevelMap::new();
    let sector = square(&mut map);
    assert_eq!(sector, Some(0));
    assert_eq!(map.sectors.len(), 1);
    assert_eq!(map.sectors[0].linedefs, vec![0, 1, 2, 3]);
    assert!(map.possible_polygon.is_empty());
    for l in &map.linedefs {
        assert_eq!(l.front_sector, Some(0));
    }
    assert!(map.is_linedef_in_closed_polygon(2));
    assert_eq!(map.find_sector_by_linedefs(&[3, 2, 1, 0]), Some(0));
}

#[test]
fn open_polygon_creates_no_sector() {
    let mut map = LevelMap::new();
    let a = map.add_vertex_at(0, 0);
    let b = map.add_vertex_at(10, 0);
    assert_eq!(map.create_linedef(a, b), (0, None));
    assert!(!map.test_for_closed_polygon());
    assert!(!map.is_linedef_in_closed_polygon(0));
}

#[test]
fn deleting_a_vertex_removes_its_linedefs_and_sectors() {
    let mut map = LevelMap::new();
    square(&mut map);
    map.delete_elements(&[0], &[], &[]);
    assert!(map.vertices.iter().all(|v| v.id != 0));
    assert!(map.linedefs.iter().all(|l| l.start_vertex != 0 && l.end_vertex != 0));
    assert_eq!(map.sectors.len(), 1);
    assert_eq!(map.sectors[0].linedefs, vec![1, 2]);
}

#[test]
fn deleting_all_linedefs_of_a_sector_removes_it() {
    let mut map = LevelMap::new();
    square(&mut map);
    map.delete_elements(&[], &[0, 1, 2, 3], &[]);
    assert!(map.linedefs.is_empty());
    assert!(map.sectors.is_empty());
}

#[test]
fn clearing_temp_state() {
    let mut map = LevelMap::new();
    let a = map.add_vertex_at(0, 0);
    let b = map.add_vertex_at(1, 0);
    map.create_linedef(a, b);
    map.clear_temp();
    assert!(map.possible_polygon.is_empty());
    assert_eq!(map.linedefs.len(), 1);
}

#[test]
fn vertex_changes_in_place() {
    let mut map = LevelMap::new();
    let a = map.add_vertex_at(1, 1);
    map.add_vertex_at(2, 2);
    if let Some(v) = map.find_vertex_mut(a) {
        v.x = 9;
    }
    assert_eq!(map.vertices[0].x, 9);
    assert!(map.find_vertex_mut(77).is_none());
    assert_eq!(map.find_vertex(a).map(|v| v.y), Some(1));
}

#[test]
fn negative_zero_finds_the_vertex_at_zero() {
    let mut map = LevelMap::new();
    let zero = 0.0f32.to_bits();
    let minus_zero = (-0.0f32).to_bits();
    let a = map.add_vertex_at(zero, 1.5f32.to_bits());
    assert_eq!(map.add_vertex_at(minus_zero, 1.5f32.to_bits()), a);
    assert_eq!(map.vertices.len(), 1);
    let nan = f32::NAN.to_bits();
    let b = map.add_vertex_at(nan, 0);
    assert_ne!(map.add_vertex_at(nan, 0), b);
}
