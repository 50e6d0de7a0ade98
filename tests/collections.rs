use std::collections::HashMap;

use collection_store::cache::{cache_key, cache_keys, COLLECTIONS_NAMESPACE, DEFAULT_EXPIRY};
use collection_store::collection::{distinct_projects, Collection, CollectionBuilder, CollectionRow};
use collection_store::ids::{CollectionId, ProjectId, UserId};
use collection_store::status::CollectionStatus;

fn builder(id: i64, projects: Vec<i64>) -> CollectionBuilder {
    CollectionBuilder {
        collection_id: CollectionId(id),
        user_id: UserId(7),
        title: format!("title {}", id),
        description: String::new(),
        status: CollectionStatus::Listed,
        projects: projects.into_iter().map(ProjectId).collect(),
    }
}

/// An in-memory durable tier: stores rows as the relational tier would
/// and answers the aggregated query.
struct Durable {
    rows: HashMap<i64, Collection>,
    links: Vec<(i64, i64)>,
}

impl Durable {
    fn new() -> Self {
        Durable { rows: HashMap::new(), links: Vec::new() }
    }

    fn insert(&mut self, c: &Collection) {
        self.rows.insert(c.id.0, c.clone());
        for p in c.project_links() {
            if !self.links.contains(&(c.id.0, p.0)) {
                self.links.push((c.id.0, p.0));
            }
        }
    }

    fn delete(&mut self, id: CollectionId) {
        self.links.retain(|l| l.0 != id.0);
        self.rows.remove(&id.0);
    }

    fn select_many(&self, ids: &[CollectionId]) -> Vec<Collection> {
        let mut out = Vec::new();
        for (id, c) in self.rows.iter() {
            if ids.iter().any(|x| x.0 == *id) {
                let mods: Vec<i64> =
                    self.links.iter().filter(|l| l.0 == *id).map(|l| l.1).collect();
                out.push(Collection::from_row(CollectionRow {
                    id: c.id.0,
                    user_id: c.user_id.0,
                    title: c.title.clone(),
                    description: c.description.clone(),
                    icon_url: c.icon_url.clone(),
                    color: c.color.map(|x| x as i32),
                    created: c.created,
                    updated: c.updated,
                    status: c.status.to_string(),
                    mods: if mods.is_empty() { None } else { Some(mods) },
                }));
            }
        }
        out
    }
}

/// Runs a batched read through the library's steps against two in-memory
/// tiers, counting the tier calls.
fn read_many(
    ids: &[CollectionId],
    cache: &mut HashMap<Vec<u8>, Collection>,
    durable: &Durable,
    calls: &mut usize,
) -> Vec<Collection> {
    let ids = ids.to_vec();
    let keys = match Collection::plan_cache_read(COLLECTIONS_NAMESPACE, &ids) {
        None => return Vec::new(),
        Some(keys) => keys,
    };
    *calls += 1;
    let cached: Vec<Option<Collection>> = keys.iter().map(|k| cache.get(k).cloned()).collect();
    let (found, remaining) = Collection::split_cache_hits(&ids, cached);
    let mut fetched = Vec::new();
    if !remaining.is_empty() {
        *calls += 1;
        for c in durable.select_many(&remaining) {
            cache.insert(cache_key(COLLECTIONS_NAMESPACE, c.id), c.clone());
            fetched.push(c);
        }
    }
    Collection::merge_read(found, fetched)
}

fn sorted_projects(c: &Collection) -> Vec<i64> {
    let mut v: Vec<i64> = c.projects.iter().map(|p| p.0).collect();
    v.sort();
    v
}

#[test]
fn status_names_round_trip() {
    for s in [
        CollectionStatus::Listed,
        CollectionStatus::Unlisted,
        CollectionStatus::Private,
        CollectionStatus::Rejected,
        CollectionStatus::Unknown,
    ] {
        assert_eq!(CollectionStatus::from_str(s.as_str()), s);
    }
    assert_eq!(CollectionStatus::Unlisted.to_string(), "unlisted");
    assert_eq!(CollectionStatus::from_str("archived"), CollectionStatus::Unknown);
    assert_eq!(CollectionStatus::from_str(""), CollectionStatus::Unknown);
}

#[test]
fn cache_key_formats_namespace_and_id() {
    assert_eq!(cache_key(COLLECTIONS_NAMESPACE, CollectionId(42)), b"collections:42".to_vec());
    assert_eq!(cache_key("c", CollectionId(0)), b"c:0".to_vec());
    assert_eq!(cache_key("c", CollectionId(-15)), b"c:-15".to_vec());
    assert_eq!(
        cache_key("c", CollectionId(i64::MIN)),
        format!("c:{}", i64::MIN).into_bytes()
    );
    assert_eq!(
        cache_key("c", CollectionId(i64::MAX)),
        format!("c:{}", i64::MAX).into_bytes()
    );
    assert_eq!(DEFAULT_EXPIRY, 1800);
    let keys = cache_keys("c", &vec![CollectionId(1), CollectionId(1), CollectionId(30)]);
    assert_eq!(keys, vec![b"c:1".to_vec(), b"c:1".to_vec(), b"c:30".to_vec()]);
}

#[test]
fn empty_read_asks_no_tier() {
    assert!(Collection::plan_cache_read(COLLECTIONS_NAMESPACE, &Vec::new()).is_none());
    let mut cache = HashMap::new();
    let durable = Durable::new();
    let mut calls = 0;
    assert!(read_many(&[], &mut cache, &durable, &mut calls).is_empty());
    assert_eq!(calls, 0);
}

#[test]
fn distinct_projects_drops_repeats() {
    let v = vec![ProjectId(10), ProjectId(10), ProjectId(20), ProjectId(10)];
    assert_eq!(distinct_projects(&v), vec![ProjectId(10), ProjectId(20)]);
    assert!(distinct_projects(&Vec::new()).is_empty());
}

#[test]
fn builder_sets_both_timestamps() {
    let c = builder(3, vec![5, 5]).build(1_700_000_000_000_000);
    assert_eq!(c.id, CollectionId(3));
    assert_eq!(c.user_id, UserId(7));
    assert_eq!(c.created, 1_700_000_000_000_000);
    assert_eq!(c.updated, 1_700_000_000_000_000);
    assert_eq!(c.icon_url, None);
    assert_eq!(c.color, None);
    assert_eq!(c.projects, vec![ProjectId(5), ProjectId(5)]);
    assert_eq!(c.project_links(), vec![ProjectId(5)]);
}

#[test]
fn row_maps_fields_and_dedups_members() {
    let c = Collection::from_row(CollectionRow {
        id: 9,
        user_id: 2,
        title: "t".to_string(),
        description: "d".to_string(),
        icon_url: Some("https://x/icon.png".to_string()),
        color: Some(0x00ff_8800),
        created: 10,
        updated: 20,
        status: "private".to_string(),
        mods: Some(vec![4, 4, 1]),
    });
    assert_eq!(c.id, CollectionId(9));
    assert_eq!(c.user_id, UserId(2));
    assert_eq!(c.color, Some(0x00ff_8800));
    assert_eq!(c.status, CollectionStatus::Private);
    assert_eq!(c.created, 10);
    assert_eq!(c.updated, 20);
    assert_eq!(sorted_projects(&c), vec![1, 4]);
    let empty = Collection::from_row(CollectionRow {
        id: 1,
        user_id: 1,
        title: "t".to_string(),
        description: String::new(),
        icon_url: None,
        color: None,
        created: 0,
        updated: 0,
        status: "bogus".to_string(),
        mods: None,
    });
    assert!(empty.projects.is_empty());
    assert_eq!(empty.status, CollectionStatus::Unknown);
}

#[test]
fn split_keeps_hits_and_lists_misses() {
    let a = builder(1, vec![]).build(5);
    let c = builder(3, vec![]).build(5);
    let ids = vec![CollectionId(1), CollectionId(2), CollectionId(3), CollectionId(2)];
    let cached = vec![Some(a.clone()), None, Some(c.clone()), None];
    let (found, remaining) = Collection::split_cache_hits(&ids, cached);
    assert_eq!(found, vec![a.clone(), c.clone()]);
    assert_eq!(remaining, vec![CollectionId(2), CollectionId(2)]);
    let merged = Collection::merge_read(found, vec![builder(2, vec![]).build(5)]);
    assert_eq!(merged.len(), 3);
    assert_eq!(merged[2].id, CollectionId(2));
}

#[test]
fn removal_plan_only_for_present() {
    assert!(Collection::plan_removal(COLLECTIONS_NAMESPACE, &None).is_none());
    let x = builder(12, vec![]).build(0);
    let plan = Collection::plan_removal(COLLECTIONS_NAMESPACE, &Some(x)).unwrap();
    assert_eq!(plan.id, CollectionId(12));
    assert_eq!(plan.cache_key, b"collections:12".to_vec());
}

#[test]
fn duplicate_children_read_back_once() {
    let mut durable = Durable::new();
    let mut cache = HashMap::new();
    let mut calls = 0;
    durable.insert(&builder(1, vec![10, 10, 20]).build(100));
    let first = read_many(&[CollectionId(1)], &mut cache, &durable, &mut calls);
    assert_eq!(first.len(), 1);
    assert_eq!(sorted_projects(&first[0]), vec![10, 20]);
    let second = read_many(&[CollectionId(1)], &mut cache, &durable, &mut calls);
    assert_eq!(second, first);
    assert_eq!(sorted_projects(&second[0]).len(), 2);
}

#[test]
fn full_miss_returns_stored_subset() {
    let mut durable = Durable::new();
    let mut cache = HashMap::new();
    let mut calls = 0;
    durable.insert(&builder(1, vec![]).build(1));
    durable.insert(&builder(3, vec![]).build(1));
    let ids = [CollectionId(3), CollectionId(2), CollectionId(1), CollectionId(3)];
    let mut got: Vec<i64> =
        read_many(&ids, &mut cache, &durable, &mut calls).iter().map(|c| c.id.0).collect();
    got.sort();
    assert_eq!(got, vec![1, 3]);
    assert_eq!(calls, 2);
}

#[test]
fn partial_hit_serves_stale_snapshot() {
    let mut durable = Durable::new();
    let mut cache = HashMap::new();
    let mut calls = 0;
    let old = builder(1, vec![]).build(1);
    cache.insert(cache_key(COLLECTIONS_NAMESPACE, old.id), old.clone());
    let mut newer = old.clone();
    newer.title = "renamed".to_string();
    newer.updated = 2;
    durable.insert(&newer);
    durable.insert(&builder(2, vec![]).build(1));
    let got = read_many(&[CollectionId(1), CollectionId(2)], &mut cache, &durable, &mut calls);
    let one = got.iter().find(|c| c.id == CollectionId(1)).unwrap();
    assert_eq!(one.title, "title 1");
    assert!(got.iter().any(|c| c.id == CollectionId(2)));
    assert_eq!(got.len(), 2);
}

#[test]
fn removed_entity_leaves_both_tiers() {
    let mut durable = Durable::new();
    let mut cache = HashMap::new();
    let mut calls = 0;
    for id in [1, 2, 3] {
        durable.insert(&builder(id, vec![id * 10]).build(1));
    }
    read_many(&[CollectionId(1)], &mut cache, &durable, &mut calls);
    read_many(&[CollectionId(2)], &mut cache, &durable, &mut calls);
    let existing = read_many(&[CollectionId(2)], &mut cache, &durable, &mut calls).into_iter().next();
    let plan = Collection::plan_removal(COLLECTIONS_NAMESPACE, &existing).unwrap();
    durable.delete(plan.id);
    cache.remove(&plan.cache_key);
    assert!(!cache.contains_key(&cache_key(COLLECTIONS_NAMESPACE, CollectionId(2))));
    let mut got: Vec<i64> = read_many(
        &[CollectionId(1), CollectionId(2), CollectionId(3)],
        &mut cache,
        &durable,
        &mut calls,
    )
    .iter()
    .map(|c| c.id.0)
    .collect();
    got.sort();
    assert_eq!(got, vec![1, 3]);
    let missing = read_many(&[CollectionId(99)], &mut cache, &durable, &mut calls).into_iter().next();
    assert!(Collection::plan_removal(COLLECTIONS_NAMESPACE, &missing).is_none());
}

#[test]
fn distinct_ids_have_distinct_keys() {
    let ids = [0i64, 1, 10, -1, -10, 100, 12, 21, i64::MIN, i64::MAX];
    for a in ids {
        for b in ids {
            let same = cache_key("c", CollectionId(a)) == cache_key("c", CollectionId(b));
            assert_eq!(same, a == b);
        }
    }
}
