use vstd::prelude::*;

use crate::ids::{CollectionId, ProjectId, UserId};
use crate::status::{status_of_name, CollectionStatus};

verus! {

/// What a caller supplies to create a collection.
#[derive(Clone, Debug)]
pub struct CollectionBuilder {
    pub collection_id: CollectionId,
    pub user_id: UserId,
    pub title: String,
    pub description: String,
    pub status: CollectionStatus,
    pub projects: Vec<ProjectId>,
}

/// A collection as both tiers hold it. Timestamps are microseconds since
/// the Unix epoch.
#[derive(Clone, Debug, PartialEq, Eq)]
pub struct Collection {
    pub id: CollectionId,
    pub user_id: UserId,
    pub title: String,
    pub description: String,
    pub created: i64,
    pub updated: i64,
    pub icon_url: Option<String>,
    pub color: Option<u32>,
    pub status: CollectionStatus,
    pub projects: Vec<ProjectId>,
}

/// One row of the durable tier's collection query, with the member ids
/// aggregated (absent when the collection has no members).
#[derive(Clone, Debug)]
pub struct CollectionRow {
    pub id: i64,
    pub user_id: i64,
    pub title: String,
    pub description: String,
    pub icon_url: Option<String>,
    pub color: Option<i32>,
    pub created: i64,
    pub updated: i64,
    pub status: String,
    pub mods: Option<Vec<i64>>,
}

/// The member ids that a row's aggregate holds.
pub open spec fn row_members(mods: Option<Vec<i64>>) -> Seq<i64> {
    match mods {
        Some(v) => v@,
        None => Seq::empty(),
    }
}

/// The stored color of a row, read as a 24-bit value.
pub open spec fn row_color(c: Option<i32>) -> Option<u32> {
    match c {
        Some(x) => Some(x as u32),
        None => None,
    }
}

fn contains_project(v: &Vec<ProjectId>, p: ProjectId) -> (r: bool)
    ensures
        r == v@.contains(p),
{
    let mut i: usize = 0;
    while i < v.len()
        invariant
            0 <= i <= v@.len(),
            forall|j: int| 0 <= j < i ==> v@[j] != p,
        decreases v@.len() - i,
    {
        if v[i] == p {
            return true;
        }
        i = i + 1;
    }
    false
}

/// Each distinct project of `v` once.
pub fn distinct_projects(v: &Vec<ProjectId>) -> (r: Vec<ProjectId>)
    ensures
        r@.no_duplicates(),
        forall|p: ProjectId| r@.contains(p) <==> v@.contains(p),
{
    let mut out: Vec<ProjectId> = Vec::new();
    let mut i: usize = 0;
    while i < v.len()
        invariant
            0 <= i <= v@.len(),
            out@.no_duplicates(),
            forall|p: ProjectId| out@.contains(p) <==> v@.subrange(0, i as int).contains(p),
        decreases v@.len() - i,
    {
        let p = v[i];
        let ghost prev = out@;
        let ghost pre = v@.subrange(0, i as int);
        if !contains_project(&out, p) {
            out.push(p);
        }
        proof {
            let cur = v@.subrange(0, i + 1);
            assert(cur =~= pre.push(p));
            assert forall|q: ProjectId| cur.contains(q) <==> (pre.contains(q) || q == p) by {
                if cur.contains(q) && q != p {
                    let k = choose|k: int| 0 <= k < cur.len() && #[trigger] cur[k] == q;
                    assert(pre[k] == q);
                }
                if pre.contains(q) {
                    let k = choose|k: int| 0 <= k < pre.len() && #[trigger] pre[k] == q;
                    assert(cur[k] == q);
                }
                if q == p {
                    assert(cur[i as int] == q);
                }
            }
            assert forall|q: ProjectId| out@.contains(q) <==> (prev.contains(q) || q == p) by {
                if out@.contains(q) && q != p && out@ != prev {
                    let k = choose|k: int| 0 <= k < out@.len() && #[trigger] out@[k] == q;
                    assert(prev[k] == q);
                }
                if prev.contains(q) && out@ != prev {
                    let k = choose|k: int| 0 <= k < prev.len() && #[trigger] prev[k] == q;
                    assert(out@[k] == q);
                }
                if q == p && out@ != prev {
                    assert(out@[prev.len() as int] == q);
                }
            }
            assert forall|q: ProjectId| out@.contains(q) <==> cur.contains(q) by {
                assert(prev.contains(q) <==> pre.contains(q));
            }
        }
        i = i + 1;
    }
    assert(v@.subrange(0, v@.len() as int) =~= v@);
    out
}

fn projects_from_ids(mods: Option<Vec<i64>>) -> (r: Vec<ProjectId>)
    ensures
        r@.len() == row_members(mods).len(),
        forall|i: int| 0 <= i < r@.len() ==> (#[trigger] r@[i]).0 == row_members(mods)[i],
{
    let ids = match mods {
        Some(v) => v,
        None => Vec::new(),
    };
    let mut out: Vec<ProjectId> = Vec::new();
    let mut i: usize = 0;
    while i < ids.len()
        invariant
            0 <= i <= ids@.len(),
            ids@ == row_members(mods),
            out@.len() == i,
            forall|j: int| 0 <= j < i ==> (#[trigger] out@[j]).0 == ids@[j],
        decreases ids@.len() - i,
    {
        out.push(ProjectId(ids[i]));
        i = i + 1;
    }
    out
}

impl CollectionBuilder {
    /// The full initial state of the collection, created and last updated
    /// at `now`, with no icon and no color.
    pub fn build(self, now: i64) -> (r: Collection)
        ensures
            r.id == self.collection_id,
            r.user_id == self.user_id,
            r.title == self.title,
            r.description == self.description,
            r.created == now,
            r.updated == now,
            r.icon_url.is_none(),
            r.color.is_none(),
            r.status == self.status,
            r.projects == self.projects,
    {
        Collection {
            id: self.collection_id,
            user_id: self.user_id,
            title: self.title,
            description: self.description,
            created: now,
            updated: now,
            icon_url: None,
            color: None,
            status: self.status,
            projects: self.projects,
        }
    }
}

impl Collection {
    /// The collection that a durable row describes. Its members are the
    /// row's member ids, each once.
    pub fn from_row(row: CollectionRow) -> (r: Collection)
        ensures
            r.id == CollectionId(row.id),
            r.user_id == UserId(row.user_id),
            r.title == row.title,
            r.description == row.description,
            r.icon_url == row.icon_url,
            r.color == row_color(row.color),
            r.created == row.created,
            r.updated == row.updated,
            r.status == status_of_name(row.status@),
            r.projects@.no_duplicates(),
            forall|p: ProjectId| r.projects@.contains(p) <==> row_members(row.mods).contains(p.0),
    {
        let status = CollectionStatus::from_str(row.status.as_str());
        let color = match row.color {
            Some(x) => Some(x as u32),
            None => None,
        };
        let members = projects_from_ids(row.mods);
        let projects = distinct_projects(&members);
        proof {
            assert forall|p: ProjectId| members@.contains(p) <==> row_members(row.mods).contains(
                p.0,
            ) by {
                if row_members(row.mods).contains(p.0) {
                    let k = choose|k: int|
                        0 <= k < row_members(row.mods).len() && #[trigger] row_members(row.mods)[k] == p.0;
                    assert(members@[k].0 == p.0);
                    assert(members@[k] == p);
                }
            }
        }
        Collection {
            id: CollectionId(row.id),
            user_id: UserId(row.user_id),
            title: row.title,
            description: row.description,
            icon_url: row.icon_url,
            color,
            created: row.created,
            updated: row.updated,
            status,
            projects,
        }
    }

    /// The member links to record durably: each project of the collection once.
    pub fn project_links(&self) -> (r: Vec<ProjectId>)
        ensures
            r@.no_duplicates(),
            forall|p: ProjectId| r@.contains(p) <==> self.projects@.contains(p),
    {
        distinct_projects(&self.projects)
    }
}

} // verus!
