use yeehaw::ch::{ChPlus, DrawCh, DrawChPos};
use yeehaw::draw_cache::{CachedPos, DrawAction, DrawUpdate, DrawingCache};

fn dcp(c: char, x: u16, y: u16, style: u8) -> DrawChPos<u8> {
    DrawChPos::new(DrawCh::new(ChPlus::Char(c), style), x, y)
}

fn ids(v: &[&str]) -> Vec<String> {
    v.iter().map(|s| s.to_string()).collect()
}

fn upd(sub: &[&str], zs: Vec<u32>, action: DrawAction<u8>) -> DrawUpdate<u8> {
    DrawUpdate { sub_id: ids(sub), z_indicies: zs, action }
}

/// Styles of 1 have a time gradient.
fn timed(s: &u8) -> bool {
    *s == 1
}

fn layer_chars(cache: &DrawingCache<u8, ()>, x: usize, y: usize) -> Vec<char> {
    cache.cache_2d[y][x]
        .layers
        .iter()
        .map(|l| match l.2.ch.ch {
            ChPlus::Char(c) => c,
            _ => '?',
        })
        .collect()
}

#[test]
fn update_adds_and_grows_the_screen() {
    let mut cache: DrawingCache<u8, ()> = DrawingCache::default();
    cache.update(&timed, vec![upd(&["a"], vec![1], DrawAction::Update(vec![dcp('x', 2, 1, 0)]))]);
    assert_eq!(cache.cached_upd.len(), 1);
    assert_eq!(cache.cache_2d.len(), 2);
    assert_eq!(cache.cache_2d[1].len(), 3);
    assert_eq!(cache.cache_2d[0].len(), 0);
    assert_eq!(layer_chars(&cache, 2, 1), vec!['x']);
    assert!(cache.cache_2d[1][0].dirty);
    assert_eq!(cache.time_grad_count, 0);
}

#[test]
fn update_replaces_the_drawing_of_a_path() {
    let mut cache: DrawingCache<u8, ()> = DrawingCache::default();
    cache.update(&timed, vec![upd(&["a"], vec![1], DrawAction::Update(vec![dcp('x', 0, 0, 0)]))]);
    cache.update(&timed, vec![upd(&["a"], vec![1], DrawAction::Update(vec![dcp('y', 0, 0, 0)]))]);
    assert_eq!(cache.cached_upd.len(), 1);
    assert_eq!(layer_chars(&cache, 0, 0), vec!['y']);
}

#[test]
fn extend_adds_to_the_drawing() {
    let mut cache: DrawingCache<u8, ()> = DrawingCache::default();
    cache.update(&timed, vec![upd(&["a"], vec![1], DrawAction::Extend(vec![dcp('x', 0, 0, 0)]))]);
    cache.update(&timed, vec![upd(&["a"], vec![2], DrawAction::Extend(vec![dcp('y', 0, 0, 0)]))]);
    assert_eq!(cache.cached_upd.len(), 1);
    assert_eq!(cache.cached_upd[0].1, vec![2]);
    assert_eq!(cache.cached_upd[0].2.len(), 2);
    assert_eq!(layer_chars(&cache, 0, 0), vec!['x', 'y']);
}

#[test]
fn clear_all_takes_every_path_with_the_prefix() {
    let mut cache: DrawingCache<u8, ()> = DrawingCache::default();
    cache.update(
        &timed,
        vec![
            upd(&["a", "b"], vec![1, 1], DrawAction::Update(vec![dcp('1', 0, 0, 1)])),
            upd(&["a", "c"], vec![1, 2], DrawAction::Update(vec![dcp('2', 0, 0, 0)])),
            upd(&["z"], vec![3], DrawAction::Update(vec![dcp('3', 0, 0, 0)])),
        ],
    );
    assert_eq!(cache.time_grad_count, 1);
    assert_eq!(cache.cache_2d[0][0].time_grad_count, 1);
    assert_eq!(layer_chars(&cache, 0, 0), vec!['1', '2', '3']);
    cache.update(&timed, vec![upd(&["a"], vec![], DrawAction::ClearAll)]);
    assert_eq!(cache.cached_upd.len(), 1);
    assert_eq!(cache.cached_upd[0].0, ids(&["z"]));
    assert_eq!(layer_chars(&cache, 0, 0), vec!['3']);
    assert_eq!(cache.time_grad_count, 0);
    assert_eq!(cache.cache_2d[0][0].time_grad_count, 0);
}

#[test]
fn remove_takes_only_the_exact_path() {
    let mut cache: DrawingCache<u8, ()> = DrawingCache::default();
    cache.update(
        &timed,
        vec![
            upd(&["a"], vec![1], DrawAction::Update(vec![dcp('1', 0, 0, 0)])),
            upd(&["a", "b"], vec![1, 1], DrawAction::Update(vec![dcp('2', 0, 0, 0)])),
        ],
    );
    cache.update(&timed, vec![DrawUpdate::remove_at_sub_id(ids(&["a"]))]);
    assert_eq!(cache.cached_upd.len(), 1);
    assert_eq!(layer_chars(&cache, 0, 0), vec!['2']);
}

#[test]
fn empty_update_changes_nothing() {
    let mut cache: DrawingCache<u8, ()> = DrawingCache::default();
    cache.update(&timed, vec![upd(&["a"], vec![1], DrawAction::Update(vec![dcp('1', 1, 0, 1)]))]);
    let before = cache.cached_upd.len();
    cache.update(&timed, vec![]);
    assert_eq!(cache.cached_upd.len(), before);
    assert_eq!(cache.time_grad_count, 1);
}

#[test]
fn clear_screen_marks_everything_dirty() {
    let mut cache: DrawingCache<u8, u32> = DrawingCache::default();
    cache.update(&timed, vec![upd(&["a"], vec![1], DrawAction::Update(vec![dcp('1', 1, 0, 0)]))]);
    cache.cache_2d[0][1].last_draw_ch = Some(5);
    cache.cache_2d[0][1].dirty = false;
    cache.clear_screen();
    assert!(cache.cache_2d[0][1].dirty);
    assert_eq!(cache.cache_2d[0][1].last_draw_ch, None);
    assert_eq!(cache.cache_2d[0][1].layers.len(), 1);
}

#[test]
fn cached_pos_add_and_remove() {
    let mut c: CachedPos<u8, ()> = CachedPos::default();
    assert_eq!(c.add(&timed, &ids(&["a"]), &vec![1], dcp('x', 0, 0, 1)), 1);
    assert_eq!(c.add(&timed, &ids(&["b"]), &vec![1], dcp('y', 0, 0, 0)), 0);
    assert_eq!(c.add(&timed, &ids(&["a"]), &vec![1], dcp('z', 0, 0, 1)), 1);
    assert_eq!(c.time_grad_count, 2);
    c.dirty = false;
    assert_eq!(c.remove(&timed, &ids(&["a"])), 2);
    assert_eq!(c.time_grad_count, 0);
    assert!(c.dirty);
    assert_eq!(c.layers.len(), 1);
}

#[test]
fn draw_update_constructors() {
    let mut u: DrawUpdate<u8> = DrawUpdate::clear_all();
    assert!(matches!(u.action, DrawAction::ClearAll));
    u.prepend_id("p".to_string(), 4);
    u.prepend_id("q".to_string(), 5);
    assert_eq!(u.sub_id, ids(&["q", "p"]));
    assert_eq!(u.z_indicies, vec![5, 4]);
    let r: DrawUpdate<u8> = DrawUpdate::remove();
    assert!(matches!(r.action, DrawAction::Remove));
    let e = DrawUpdate::extend(vec![dcp('x', 0, 0, 0)]);
    assert!(matches!(e.action, DrawAction::Extend(ref v) if v.len() == 1));
    let d = DrawUpdate::update(vec![dcp('x', 0, 0, 0)]);
    assert!(matches!(d.action, DrawAction::Update(_)));
    let c: DrawUpdate<u8> = DrawUpdate::clear_all_at_sub_id(ids(&["w"]));
    assert_eq!(c.sub_id, ids(&["w"]));
}

fn blank() -> (char, u8) {
    (' ', 0)
}

/// Draws a character over what is below it; a transparent character keeps the character below
/// and takes its style.
fn draw_over(d: &DrawChPos<u8>, below: &(char, u8)) -> (char, u8) {
    match &d.ch.ch {
        ChPlus::Char(c) => (*c, d.ch.style),
        _ => (below.0, d.ch.style),
    }
}

fn same(a: &(char, u8), b: &(char, u8)) -> bool {
    a == b
}

#[test]
fn get_update_draws_the_layers_in_z_order_once() {
    let mut c: CachedPos<u8, (char, u8)> = CachedPos::default();
    c.add(&timed, &ids(&["top"]), &vec![2], DrawChPos::new(DrawCh::new(ChPlus::Transparent, 7), 0, 0));
    c.add(&timed, &ids(&["bottom"]), &vec![1], dcp('b', 0, 0, 0));
    assert_eq!(c.get_update(&blank, &draw_over, &same), Some(('b', 7)));
    assert!(!c.dirty);
    assert_eq!(c.layers[0].1, vec![1]);
    assert_eq!(c.last_draw_ch, Some(('b', 7)));
    // not dirty and no time gradient: nothing to send
    assert_eq!(c.get_update(&blank, &draw_over, &same), None);
    // dirty again but drawing the same thing: nothing to send
    c.dirty = true;
    assert_eq!(c.get_update(&blank, &draw_over, &same), None);
    assert!(!c.dirty);
    // must_get_draw_ch gives the last drawing
    assert_eq!(c.must_get_draw_ch(&blank, &draw_over, &same), ('b', 7));
}

#[test]
fn must_get_draw_ch_of_an_empty_position_is_blank() {
    let mut c: CachedPos<u8, (char, u8)> = CachedPos::default();
    c.dirty = false;
    assert_eq!(c.must_get_draw_ch(&blank, &draw_over, &same), (' ', 0));
    c.dirty = true;
    assert_eq!(c.must_get_draw_ch(&blank, &draw_over, &same), (' ', 0));
    assert_eq!(c.last_draw_ch, Some((' ', 0)));
}

#[test]
fn update_and_get_sends_changed_cells_row_by_row() {
    let mut cache: DrawingCache<u8, (char, u8)> = DrawingCache::default();
    let out = cache.update_and_get(
        &timed,
        vec![upd(&["a"], vec![1], DrawAction::Update(vec![dcp('x', 1, 0, 0), dcp('y', 0, 1, 0)]))],
        &blank,
        &draw_over,
        &same,
    );
    assert_eq!(out, vec![(0, 0, (' ', 0)), (1, 0, ('x', 0)), (0, 1, ('y', 0))]);
    // nothing changed and no time gradients: nothing to send
    let out = cache.update_and_get(&timed, vec![], &blank, &draw_over, &same);
    assert!(out.is_empty());
    // replacing the drawing: only the cells that change are sent
    let out = cache.update_and_get(
        &timed,
        vec![upd(&["a"], vec![1], DrawAction::Update(vec![dcp('x', 1, 0, 0), dcp('z', 0, 1, 0)]))],
        &blank,
        &draw_over,
        &same,
    );
    assert_eq!(out, vec![(0, 1, ('z', 0))]);
}

#[test]
fn removal_later_in_a_batch_takes_back_the_update() {
    let mut cache: DrawingCache<u8, ()> = DrawingCache::default();
    cache.update(&timed, vec![upd(&["a"], vec![1], DrawAction::Update(vec![dcp('o', 0, 0, 0)]))]);
    cache.update(
        &timed,
        vec![
            upd(&["a"], vec![1], DrawAction::Update(vec![dcp('x', 1, 0, 0)])),
            DrawUpdate::remove_at_sub_id(ids(&["a"])),
            upd(&["b"], vec![1], DrawAction::Update(vec![dcp('y', 1, 0, 0)])),
            upd(&["b"], vec![1], DrawAction::Update(vec![dcp('z', 0, 0, 0)])),
        ],
    );
    assert!(cache.cached_upd.iter().all(|e| e.0 != ids(&["a"])));
    assert_eq!(layer_chars(&cache, 0, 0), vec!['z']);
    // the drawings taken back within the batch never reach the screen
    assert_eq!(cache.cache_2d[0].len(), 1);
}

#[test]
fn time_gradient_counts_follow_the_cells() {
    let mut cache: DrawingCache<u8, ()> = DrawingCache::default();
    cache.update(
        &timed,
        vec![
            upd(&["a"], vec![1], DrawAction::Update(vec![dcp('1', 0, 0, 1), dcp('2', 1, 0, 1)])),
            upd(&["b"], vec![2], DrawAction::Update(vec![dcp('3', 0, 1, 1), dcp('4', 0, 0, 0)])),
        ],
    );
    assert_eq!(cache.cache_2d[0][0].time_grad_count, 1);
    assert_eq!(cache.cache_2d[0][1].time_grad_count, 1);
    assert_eq!(cache.cache_2d[1][0].time_grad_count, 1);
    assert_eq!(cache.time_grad_count, 3);
    cache.update(&timed, vec![DrawUpdate::remove_at_sub_id(ids(&["a"]))]);
    assert_eq!(cache.cache_2d[0][0].time_grad_count, 0);
    assert_eq!(cache.cache_2d[0][1].time_grad_count, 0);
    assert_eq!(cache.time_grad_count, 1);
}

#[test]
fn a_second_get_update_without_changes_sends_nothing() {
    let mut c: CachedPos<u8, (char, u8)> = CachedPos::default();
    c.add(&timed, &ids(&["a"]), &vec![1], dcp('q', 0, 0, 0));
    assert!(c.get_update(&blank, &draw_over, &same).is_some());
    assert!(!c.dirty);
    assert_eq!(c.get_update(&blank, &draw_over, &same), None);
    assert!(!c.dirty);
    assert_eq!(c.layers.len(), 1);
}

#[test]
fn each_cell_holds_a_layer_per_cached_character() {
    let mut cache: DrawingCache<u8, ()> = DrawingCache::default();
    cache.update(&timed, vec![upd(&["a"], vec![1], DrawAction::Extend(vec![dcp('1', 0, 0, 0), dcp('2', 0, 0, 0)]))]);
    cache.update(&timed, vec![upd(&["a"], vec![1], DrawAction::Extend(vec![dcp('3', 1, 0, 0)]))]);
    assert_eq!(layer_chars(&cache, 0, 0), vec!['1', '2']);
    assert_eq!(layer_chars(&cache, 1, 0), vec!['3']);
    cache.update(&timed, vec![upd(&["a"], vec![1], DrawAction::Update(vec![dcp('4', 1, 0, 0)]))]);
    assert_eq!(layer_chars(&cache, 0, 0), Vec::<char>::new());
    assert_eq!(layer_chars(&cache, 1, 0), vec!['4']);
    assert_eq!(cache.cached_upd.len(), 1);
    assert_eq!(cache.cached_upd[0].2.len(), 1);
}
