use battlecode_engine::quadtree::{Bounds, Quadtree};
use battlecode_engine::spatialhashmap::{Bounds as BucketBounds, SpatialHashMap};
use std::collections::HashSet;

#[test]
fn quadtree_bounds() {
    let bounds = Bounds { minx: 12, maxx: 37, miny: 55, maxy: 200 };
    for x in 0..255 {
        for y in 0..255 {
            let inbounds = bounds.minx <= x && x <= bounds.maxx && bounds.miny <= y && y <= bounds.maxy;
            assert_eq!(bounds.contains((x, y)), inbounds);
        }
    }
    let split = bounds.split();
    for x in bounds.minx..bounds.maxx + 1 {
        for y in bounds.miny..bounds.maxy + 1 {
            let corner = bounds.child((x, y));
            for i in 0..4u8 {
                assert_eq!(split[i as usize].contains((x, y)), corner as u8 == i);
            }
        }
    }
}

#[test]
fn quadtree_bounds_overlap() {
    let bounds_a = Bounds { minx: 12, maxx: 37, miny: 55, maxy: 200 };
    let bounds_b = Bounds { minx: 25, maxx: 27, miny: 190, maxy: 255 };
    let bounds_c = Bounds { minx: 0, maxx: 128, miny: 210, maxy: 220 };
    assert!(bounds_a.overlaps(&bounds_b));
    assert!(bounds_b.overlaps(&bounds_c));
    assert!(!bounds_a.overlaps(&bounds_c));
}

#[test]
fn quadtree_basics() {
    let mut q = Quadtree::new();
    q.insert((0, 1), "banana");
    q.insert((233, 57), "ocelot");
    assert!(q.check());
    assert_eq!(q.get((0, 1)), Some(&"banana"));
    assert_eq!(q.get((233, 57)), Some(&"ocelot"));
    assert_eq!(q.get((25, 0)), None);
    assert_eq!(q.remove((0, 1)), Some("banana"));
    assert_eq!(q.remove((0, 1)), None);
}

#[test]
fn quadtree_tile() {
    let mut q = Quadtree::new();
    let hash = |x: u8, y: u8| x as usize + y as usize * 100;
    for x in 0..100 {
        for y in 0..100 {
            q.insert((x, y), hash(x, y));
        }
    }
    assert!(q.check());
    for x in 0..100 {
        for y in 0..100 {
            assert_eq!(q.get((x, y)), Some(&hash(x, y)));
        }
    }
    let mut count = 0;
    let mut visited = HashSet::new();
    let bounds = Bounds { minx: 3, maxx: 97, miny: 66, maxy: 78 };
    for (loc, value) in q.rect_query(bounds.minx, bounds.maxx, bounds.miny, bounds.maxy) {
        assert!(bounds.contains(loc));
        assert_eq!(value, hash(loc.0, loc.1));
        assert!(!visited.contains(&loc));
        visited.insert(loc);
        count += 1;
    }
    assert_eq!(count, (bounds.maxx - bounds.minx + 1) as usize * (bounds.maxy - bounds.miny + 1) as usize);
}

#[test]
fn quadtree_range_and_split() {
    let mut q = Quadtree::new();
    for x in 10..30u8 {
        q.insert((x, 40), x as u32);
    }
    let found = q.range_query((20, 40), 2);
    let mut xs: Vec<u8> = found.iter().map(|(l, _)| l.0).collect();
    xs.sort();
    assert_eq!(xs, vec![18, 19, 20, 21, 22]);
    assert_eq!(q.remove((25, 40)), Some(25));
    assert_eq!(q.get((25, 40)), None);
    assert_eq!(q.get((26, 40)), Some(&26));
    assert!(q.check());
}

#[test]
fn spatialhashmap_bounds() {
    let bounds = BucketBounds { minx: 12, maxx: 37, miny: 55, maxy: 200 };
    for x in 0..255 {
        for y in 0..255 {
            let inbounds = bounds.minx <= x && x <= bounds.maxx && bounds.miny <= y && y <= bounds.maxy;
            assert_eq!(bounds.contains((x, y)), inbounds);
        }
    }
}

#[test]
fn spatialhashmap_basics() {
    let mut q = SpatialHashMap::new();
    q.insert((0, 1), "banana");
    q.insert((33, 57), "ocelot");
    assert!(q.check());
    assert_eq!(q.get((0, 1)), Some(&"banana"));
    assert_eq!(q.get((33, 57)), Some(&"ocelot"));
    assert_eq!(q.get((25, 0)), None);
    assert_eq!(q.remove((0, 1)), Some("banana"));
    assert_eq!(q.remove((0, 1)), None);
}

#[test]
fn spatialhashmap_tile() {
    let mut q = SpatialHashMap::new();
    let hash = |x: u8, y: u8| x as usize + y as usize * 64;
    for x in 0..63 {
        for y in 0..63 {
            q.insert((x, y), hash(x, y));
        }
    }
    assert!(q.check());
    for x in 0..63 {
        for y in 0..63 {
            assert_eq!(q.get((x, y)), Some(&hash(x, y)));
        }
    }
    let mut count = 0;
    let mut visited = HashSet::new();
    let bounds = BucketBounds { minx: 3, maxx: 57, miny: 16, maxy: 28 };
    for (loc, value) in q.rect_query(bounds.minx, bounds.maxx, bounds.miny, bounds.maxy) {
        assert!(bounds.contains(loc));
        assert_eq!(value, hash(loc.0, loc.1));
        assert!(!visited.contains(&loc));
        visited.insert(loc);
        count += 1;
    }
    assert_eq!(count, (bounds.maxx - bounds.minx + 1) as usize * (bounds.maxy - bounds.miny + 1) as usize);
}

#[test]
fn spatialhashmap_out_of_map_and_range() {
    let mut q = SpatialHashMap::new();
    q.insert((63, 0), 1u32);
    assert_eq!(q.get((63, 0)), None);
    q.insert((10, 10), 2u32);
    q.insert((12, 10), 3u32);
    q.insert((14, 10), 4u32);
    let found = q.range_query((10, 10), 4);
    let mut vals: Vec<u32> = found.iter().map(|(_, v)| *v).collect();
    vals.sort();
    assert_eq!(vals, vec![2, 3]);
}

#[test]
fn rect_query_reaches_the_corner_bucket() {
    let mut m: SpatialHashMap<u8> = SpatialHashMap::new();
    m.insert((8, 8), 1u8);
    m.insert((16, 3), 2u8);
    let found = m.rect_query(8, 8, 8, 8);
    assert_eq!(found, vec![((8, 8), 1u8)]);
    let found = m.rect_query(0, 62, 0, 62);
    assert_eq!(found.len(), 2);
    let found = m.rect_query(16, 255, 0, 3);
    assert_eq!(found, vec![((16, 3), 2u8)]);
}

#[test]
fn rect_queries_list_each_location_once() {
    let mut q: Quadtree<u32> = Quadtree::new();
    let mut m: SpatialHashMap<u32> = SpatialHashMap::new();
    for x in 0..40u8 {
        for y in 0..40u8 {
            q.insert((x, y), (x as u32) * 100 + y as u32);
            m.insert((x, y), (x as u32) * 100 + y as u32);
        }
    }
    let mut from_tree: Vec<(u8, u8)> = q.rect_query(5, 30, 7, 33).into_iter().map(|(l, _)| l).collect();
    let mut from_buckets: Vec<(u8, u8)> = m.rect_query(5, 30, 7, 33).into_iter().map(|(l, _)| l).collect();
    assert_eq!(from_tree.len(), 26 * 27);
    assert_eq!(from_buckets.len(), 26 * 27);
    from_tree.sort();
    from_tree.dedup();
    from_buckets.sort();
    from_buckets.dedup();
    assert_eq!(from_tree.len(), 26 * 27);
    assert_eq!(from_buckets.len(), 26 * 27);
}
