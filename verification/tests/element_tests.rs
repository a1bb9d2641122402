use yeehaw::ch::{ChPlus, DrawCh, DrawChPos};
use yeehaw::draw_cache::{DrawAction, DrawUpdate};
use yeehaw::element::DrawingCache;

fn dcp(c: char, x: u16, y: u16) -> DrawChPos<u8> {
    DrawChPos::new(DrawCh::new(ChPlus::Char(c), 0), x, y)
}

fn ids(v: &[&str]) -> Vec<String> {
    v.iter().map(|s| s.to_string()).collect()
}

fn upd(sub: &[&str], zs: Vec<u32>, action: DrawAction<u8>) -> DrawUpdate<u8> {
    DrawUpdate { sub_id: ids(sub), z_indicies: zs, action }
}

fn chars(d: &[DrawChPos<u8>]) -> String {
    d.iter()
        .map(|p| match p.ch.ch {
            ChPlus::Char(c) => c,
            _ => '?',
        })
        .collect()
}

#[test]
fn element_cache_sorts_by_z_and_keeps_equal_z_in_order() {
    let mut cache: DrawingCache<u8> = DrawingCache::default();
    let d = cache.update_and_get(vec![
        upd(&["c"], vec![5], DrawAction::Update(vec![dcp('c', 0, 0)])),
        upd(&["a"], vec![1, 2], DrawAction::Update(vec![dcp('a', 0, 0), dcp('A', 1, 0)])),
        upd(&["b"], vec![1], DrawAction::Update(vec![dcp('b', 0, 0)])),
        upd(&["d"], vec![5], DrawAction::Update(vec![dcp('d', 0, 0)])),
        upd(&["e"], vec![], DrawAction::Update(vec![dcp('e', 0, 0)])),
    ]);
    assert_eq!(chars(&d), "ebaAcd");
    assert_eq!(cache.0.len(), 5);
    assert_eq!(cache.0[0].1, Vec::<u32>::new());
    assert_eq!(cache.0[1].1, vec![1]);
    assert_eq!(cache.0[2].1, vec![1, 2]);
}

#[test]
fn element_cache_update_replaces_and_extend_appends() {
    let mut cache: DrawingCache<u8> = DrawingCache::default();
    cache.update(vec![upd(&["a"], vec![1], DrawAction::Update(vec![dcp('x', 0, 0)]))]);
    cache.update(vec![upd(&["a"], vec![3], DrawAction::Update(vec![dcp('y', 0, 0)]))]);
    assert_eq!(cache.0.len(), 1);
    assert_eq!(cache.0[0].1, vec![3]);
    cache.update(vec![upd(&["a"], vec![4], DrawAction::Extend(vec![dcp('z', 1, 0)]))]);
    assert_eq!(cache.0.len(), 1);
    assert_eq!(cache.0[0].1, vec![4]);
    assert_eq!(chars(&cache.get_drawing()), "yz");
    cache.update(vec![upd(&["b"], vec![0], DrawAction::Extend(vec![dcp('w', 0, 0)]))]);
    assert_eq!(cache.0.len(), 2);
    assert_eq!(chars(&cache.get_drawing()), "wyz");
}

#[test]
fn element_cache_remove_and_clear_all() {
    let mut cache: DrawingCache<u8> = DrawingCache::default();
    cache.update(vec![
        upd(&["a"], vec![1], DrawAction::Update(vec![dcp('a', 0, 0)])),
        upd(&["a", "b"], vec![1, 1], DrawAction::Update(vec![dcp('b', 0, 0)])),
        upd(&["a", "c"], vec![1, 2], DrawAction::Update(vec![dcp('c', 0, 0)])),
        upd(&["d"], vec![2], DrawAction::Update(vec![dcp('d', 0, 0)])),
    ]);
    cache.update(vec![upd(&["a", "b"], vec![], DrawAction::Remove)]);
    assert_eq!(chars(&cache.get_drawing()), "acd");
    cache.update(vec![upd(&["a"], vec![], DrawAction::ClearAll)]);
    assert_eq!(chars(&cache.get_drawing()), "d");
    cache.update(vec![upd(&[], vec![], DrawAction::ClearAll)]);
    assert_eq!(cache.0.len(), 0);
}
