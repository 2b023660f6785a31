use std::collections::hash_map::DefaultHasher;
use std::hash::{Hash, Hasher};
use kama_panels::project::{Clip, Composition, Project};
use kama_panels::render_cache::{
    live_cache_clip_ids, nested_cache_scope, scoped_clip_id, scoped_id_from_hash, GraphGeneratorVariants,
    GRAPH_GENERATOR_VARIANT_CAPACITY,
};

const TOP: u64 = 1 << 63;

#[test]
fn read_after_write() {
    let mut cache: GraphGeneratorVariants<String> = GraphGeneratorVariants::new();
    assert_eq!(cache.get(1), None);
    assert_eq!(cache.latest(), None);
    cache.insert(1, "one".to_string());
    assert_eq!(cache.get(1), Some("one".to_string()));
    cache.insert(1, "uno".to_string());
    assert_eq!(cache.get(1), Some("uno".to_string()));
    assert_eq!(cache.latest(), Some("uno".to_string()));
}

#[test]
fn least_recently_used_variant_leaves() {
    assert_eq!(GRAPH_GENERATOR_VARIANT_CAPACITY, 4);
    let mut cache: GraphGeneratorVariants<u32> = GraphGeneratorVariants::new();
    for key in 1..=4u64 {
        cache.insert(key, key as u32 * 10);
    }
    assert_eq!(cache.get(1), Some(10));
    cache.insert(5, 50);
    assert_eq!(cache.get(2), None);
    assert_eq!(cache.get(1), Some(10));
    assert_eq!(cache.get(3), Some(30));
    assert_eq!(cache.get(4), Some(40));
    assert_eq!(cache.get(5), Some(50));
    assert_eq!(cache.latest(), Some(50));
    cache.insert(6, 60);
    assert_eq!(cache.get(1), None);
    assert_eq!(cache.latest(), Some(60));
}

#[test]
fn scoped_ids_have_the_top_bit() {
    assert_eq!(scoped_id_from_hash(0), TOP);
    assert_eq!(scoped_id_from_hash(5), TOP | 5);
    assert_eq!(scoped_id_from_hash(u64::MAX), u64::MAX);
    let a = scoped_clip_id(1, 2);
    assert!(a >= TOP);
    assert_eq!(a, scoped_clip_id(1, 2));
    assert_ne!(a, scoped_clip_id(1, 3));
    assert_eq!(nested_cache_scope(7, 8), nested_cache_scope(7, 8));
    assert_ne!(nested_cache_scope(7, 8), nested_cache_scope(8, 7));
}

fn comp(id: u64, clips: Vec<Clip>) -> Composition {
    Composition { id, canvas_size: [16, 9], clips }
}

#[test]
fn live_ids_of_a_flat_timeline() {
    let clips = vec![Clip { id: 1, composition: None }, Clip { id: 2, composition: None }];
    let project = Project { compositions: vec![comp(1, clips.clone())], media: Vec::new(), pipelines: Vec::new(), active_composition: 1 };
    let ids = live_cache_clip_ids(&project, &clips);
    let mut list: Vec<u64> = ids.into_iter().collect();
    list.sort();
    assert_eq!(list, vec![1, 2]);
}

#[test]
fn live_ids_of_nested_compositions() {
    let inner = comp(3, vec![Clip { id: 7, composition: None }, Clip { id: 8, composition: Some(1) }]);
    let top_clips = vec![Clip { id: 1, composition: Some(3) }, Clip { id: 2, composition: None }];
    let project = Project {
        compositions: vec![comp(1, top_clips.clone()), inner],
        media: Vec::new(),
        pipelines: Vec::new(),
        active_composition: 1,
    };
    let ids = live_cache_clip_ids(&project, &top_clips);
    let scope = nested_cache_scope(1, 3);
    let mut expected = vec![1u64, 2, scoped_clip_id(scope, 7), scoped_clip_id(scope, 8)];
    expected.sort();
    let mut list: Vec<u64> = ids.into_iter().collect();
    list.sort();
    assert_eq!(list, expected);
    assert!(list[2] >= TOP && list[3] >= TOP);
}

#[test]
fn self_reference_stops() {
    let clips = vec![Clip { id: 4, composition: Some(1) }];
    let project = Project { compositions: vec![comp(1, clips.clone())], media: Vec::new(), pipelines: Vec::new(), active_composition: 1 };
    let ids = live_cache_clip_ids(&project, &clips);
    assert_eq!(ids.len(), 1);
    assert!(ids.contains(&4));
}

use kama_panels::render_cache::{placeholder_checker, placeholder_label_hash, placeholder_tint_seeds};

#[test]
fn placeholder_tint_from_label() {
    assert_eq!(placeholder_label_hash(""), 0);
    assert_eq!(placeholder_label_hash("a"), 97);
    assert_eq!(placeholder_label_hash("ab"), 1_627_429_073);
    assert_eq!(placeholder_label_hash("Missing media"), 3_901_276_652);
    assert_eq!(placeholder_tint_seeds("ab"), [209, 152, 0]);
    assert_eq!(placeholder_tint_seeds("Missing media"), [236, 193, 136]);
}

#[test]
fn placeholder_checker_squares() {
    assert!(!placeholder_checker(0, 0));
    assert!(placeholder_checker(32, 0));
    assert!(placeholder_checker(31, 32));
    assert!(!placeholder_checker(32, 32));
    assert!(placeholder_checker(u32::MAX, 0));
}

#[test]
fn keys_are_the_std_hash_of_the_numbers() {
    let mut h = DefaultHasher::new();
    1u64.hash(&mut h);
    2u32.hash(&mut h);
    assert_eq!(scoped_clip_id(1, 2), h.finish() | TOP);
    let mut h = DefaultHasher::new();
    7u64.hash(&mut h);
    8u64.hash(&mut h);
    assert_eq!(nested_cache_scope(7, 8), h.finish());
}

#[test]
fn live_ids_two_levels_deep() {
    let deepest = comp(5, vec![Clip { id: 9, composition: None }]);
    let middle = comp(3, vec![Clip { id: 7, composition: Some(5) }]);
    let top_clips = vec![Clip { id: 1, composition: Some(3) }];
    let project = Project {
        compositions: vec![comp(1, top_clips.clone()), middle, deepest],
        media: Vec::new(),
        pipelines: Vec::new(),
        active_composition: 1,
    };
    let ids = live_cache_clip_ids(&project, &top_clips);
    let middle_scope = nested_cache_scope(1, 3);
    let seven = scoped_clip_id(middle_scope, 7);
    let deepest_scope = nested_cache_scope(seven, 5);
    let mut expected = vec![1u64, seven, scoped_clip_id(deepest_scope, 9)];
    expected.sort();
    let mut list: Vec<u64> = ids.into_iter().collect();
    list.sort();
    assert_eq!(list, expected);
}
