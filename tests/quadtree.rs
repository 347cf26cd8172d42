use ballpit::geometry::Rect;
use ballpit::quadtree::{Entry, QuadTree, CAPACITY};

/// A small deterministic generator for test data.
fn next(state: &mut u64) -> u64 {
    *state = state.wrapping_mul(6364136223846793005).wrapping_add(1442695040888963407);
    *state >> 33
}

fn random_entries(n: usize, seed: u64) -> Vec<Entry> {
    let mut s = seed;
    (0..n)
        .map(|index| {
            let size = (next(&mut s) % 40 + 1) as i64;
            let x = (next(&mut s) % 700) as i64 - 30;
            let y = (next(&mut s) % 540) as i64 - 30;
            Entry { index, bounds: Rect { x: x - size, y: y - size, w: 2 * size, h: 2 * size } }
        })
        .collect()
}

fn build(entries: &[Entry]) -> QuadTree {
    let mut tree = QuadTree::new(Rect { x: 0, y: 0, w: 640, h: 480 });
    for e in entries {
        tree = tree.insert(*e);
    }
    tree
}

fn sorted_indices(v: &[Entry]) -> Vec<usize> {
    let mut r: Vec<usize> = v.iter().map(|e| e.index).collect();
    r.sort();
    r.dedup();
    r
}

#[test]
fn query_matches_a_scan() {
    for seed in 1..20u64 {
        let entries = random_entries(60, seed);
        let tree = build(&entries);
        let mut s = seed * 977;
        for _ in 0..30 {
            let q = Rect {
                x: (next(&mut s) % 700) as i64 - 30,
                y: (next(&mut s) % 540) as i64 - 30,
                w: (next(&mut s) % 300) as i64,
                h: (next(&mut s) % 300) as i64,
            };
            let found = tree.query_region(&q);
            let expected: Vec<usize> =
                entries.iter().filter(|e| e.bounds.intersects(&q)).map(|e| e.index).collect();
            assert_eq!(sorted_indices(&found), expected);
        }
    }
}

#[test]
fn whole_arena_query_finds_everything_inside() {
    let entries = random_entries(100, 42);
    let tree = build(&entries);
    let found = tree.query_region(&Rect { x: -100, y: -100, w: 900, h: 700 });
    assert_eq!(sorted_indices(&found), (0..100).collect::<Vec<usize>>());
}

#[test]
fn empty_tree_finds_nothing() {
    let tree = QuadTree::new(Rect { x: 0, y: 0, w: 640, h: 480 });
    assert!(tree.query_region(&Rect { x: 0, y: 0, w: 640, h: 480 }).is_empty());
    assert_eq!(tree.rendering_rects().len(), 1);
}

#[test]
fn a_full_leaf_splits() {
    let spots = [(10, 10), (400, 10), (10, 300), (400, 300), (100, 100)];
    assert_eq!(spots.len(), CAPACITY + 1);
    let entries: Vec<Entry> = spots
        .iter()
        .enumerate()
        .map(|(i, &(x, y))| Entry { index: i, bounds: Rect { x, y, w: 4, h: 4 } })
        .collect();
    let small = build(&entries[..CAPACITY]);
    let rects = small.rendering_rects();
    assert_eq!(rects.len(), 1);
    assert!(!rects[0].many);
    let tree = build(&entries);
    let rects = tree.rendering_rects();
    assert_eq!(rects.len(), 5);
    assert!(rects[0].many);
    assert_eq!(rects[0].rect, Rect { x: 0, y: 0, w: 640, h: 480 });
    assert_eq!(rects[1].rect, Rect { x: 0, y: 0, w: 320, h: 240 });
    assert_eq!(tree.boundary(), Rect { x: 0, y: 0, w: 640, h: 480 });
}

#[test]
fn straddling_entry_is_still_found() {
    // Crosses both center lines, so it stays at the root after a split.
    let mut entries: Vec<Entry> = (0..6)
        .map(|i| Entry { index: i, bounds: Rect { x: 10 + 20 * i as i64, y: 10, w: 4, h: 4 } })
        .collect();
    entries.push(Entry { index: 6, bounds: Rect { x: 310, y: 230, w: 20, h: 20 } });
    let tree = build(&entries);
    let found = tree.query_region(&Rect { x: 325, y: 245, w: 2, h: 2 });
    assert_eq!(sorted_indices(&found), vec![6]);
}
