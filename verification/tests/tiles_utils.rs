use spitfire::tiles::{TileInstance, TileMap};
use spitfire::utils::{FontMap, ResourceRef};

#[test]
fn index_uses_both_coordinates() {
    let map = TileMap::new((8, 8), 0);
    // Same row, different columns must give different indices; this is
    // the regression guard for the row-major formula `y * width + x`.
    assert_ne!(map.index((2, 3)), map.index((5, 3)));
    assert_eq!(map.index((2, 3)), 3 * 8 + 2);
    assert_eq!(map.index((0, 0)), 0);
    assert_eq!(map.index((7, 7)), 63);
}

#[test]
fn location_inverts_index() {
    let map = TileMap::new((8, 4), 0);
    for index in 0..32 {
        let (x, y) = map.location(index);
        assert_eq!(map.index((x, y)), index);
    }
    assert_eq!(map.location(17), (1, 2));
}

#[test]
fn get_and_set_respect_bounds() {
    let mut map = TileMap::new((4, 4), 9);
    assert_eq!(map.get((1, 1)), Some(9));
    map.set((1, 1), 5);
    assert_eq!(map.get((1, 1)), Some(5));
    // A location whose linear index falls outside the buffer reads
    // nothing and writes nothing.
    assert_eq!(map.get((0, 4)), None);
    map.set((0, 4), 7);
    assert_eq!(map.buffer().len(), 16);
}

#[test]
fn with_buffer_rejects_wrong_lengths() {
    assert!(TileMap::with_buffer((3, 3), vec![0; 9]).is_some());
    assert!(TileMap::with_buffer((3, 3), vec![0; 8]).is_none());
}

#[test]
fn fill_covers_exactly_the_rectangle() {
    let mut map = TileMap::new((4, 4), 0);
    map.fill((1, 1), (3, 3), 7);
    for y in 0..4 {
        for x in 0..4 {
            let expected = if (1..3).contains(&x) && (1..3).contains(&y) { 7 } else { 0 };
            assert_eq!(map.get((x, y)), Some(expected), "at ({x}, {y})");
        }
    }
}

#[test]
fn emit_filters_by_include_and_exclude_sets() {
    let mut map = TileMap::with_buffer((2, 2), vec![1, 2, 3, 2]).unwrap();
    let all: Vec<TileInstance> = map.emit();
    assert_eq!(all.len(), 4);
    assert_eq!(all[0], TileInstance { id: 1, location: (0, 0) });
    assert_eq!(all[3], TileInstance { id: 2, location: (1, 1) });
    map.include_ids.insert(2);
    let included: Vec<TileInstance> = map.emit();
    assert_eq!(included.len(), 2);
    assert!(included.iter().all(|t| t.id == 2));
    map.include_ids.clear();
    map.exclude_ids.insert(2);
    let excluded: Vec<TileInstance> = map.emit();
    assert_eq!(excluded.len(), 2);
    assert!(excluded.iter().all(|t| t.id != 2));
}

#[test]
fn font_map_inserts_replaces_and_removes() {
    let mut fonts: FontMap<u32> = FontMap::new();
    fonts.insert("regular".to_owned(), 1);
    fonts.insert("bold".to_owned(), 2);
    assert_eq!(fonts.index_of(&"regular".to_owned()), Some(0));
    assert_eq!(fonts.index_of(&"bold".to_owned()), Some(1));
    assert_eq!(fonts.get(&"bold".to_owned()), Some(&2));
    // Replacing keeps the name's position.
    fonts.insert("regular".to_owned(), 3);
    assert_eq!(fonts.index_of(&"regular".to_owned()), Some(0));
    assert_eq!(fonts.get(&"regular".to_owned()), Some(&3));
    assert_eq!(fonts.keys().len(), 2);
    assert_eq!(fonts.values(), &[3, 2]);
    // Removing returns the font and closes the gap.
    assert_eq!(fonts.remove(&"regular".to_owned()), Some(3));
    assert_eq!(fonts.index_of(&"bold".to_owned()), Some(0));
    assert_eq!(fonts.remove(&"missing".to_owned()), None);
    assert_eq!(fonts.get(&"missing".to_owned()), None);
}

#[test]
fn resource_ref_carries_name_or_object() {
    let by_name: ResourceRef<u32> = ResourceRef::name("checker".to_owned());
    match by_name {
        ResourceRef::Name(name) => assert_eq!(name, "checker"),
        ResourceRef::Object(_) => panic!("expected a name"),
    }
    let by_object: ResourceRef<u32> = ResourceRef::object(5);
    match by_object {
        ResourceRef::Name(_) => panic!("expected an object"),
        ResourceRef::Object(value) => assert_eq!(value, 5),
    }
}
