//! The mount points of virtual file systems.

use vstd::prelude::*;

use crate::paths::{
    absolute, components, is_absolute, lemma_views_push, lies_under, split_components,
    starts_with, views,
};
use crate::text::join;

verus! {

/// Why a mount point is refused.
#[derive(Debug)]
pub enum MountError {
    /// It is not an absolute path, or it is the root.
    NotAbsolute(String),
    /// It is `/tmp`, lies under it, or holds it.
    ConflictsWithTmp(String),
    /// It is, lies under, or holds a mount point that is there already.
    Conflicts { mount_point: String, other: String },
}

impl MountError {
    pub open spec fn text(self) -> Seq<char> {
        match self {
            MountError::NotAbsolute(m) => "invalid mount point '"@ + m@
                + "': must be an absolute path other than '/'"@,
            MountError::ConflictsWithTmp(m) => "invalid mount point '"@ + m@
                + "': conflicts with '/tmp'"@,
            MountError::Conflicts { mount_point, other } => "invalid mount point '"@ + mount_point@
                + "': conflicts with mount point '"@ + other@ + "'"@,
        }
    }

    pub fn message(&self) -> (r: String)
        ensures
            r@ == self.text(),
    {
        match self {
            MountError::NotAbsolute(m) => {
                let a = join("invalid mount point '", m.as_str());
                join(a.as_str(), "': must be an absolute path other than '/'")
            },
            MountError::ConflictsWithTmp(m) => {
                let a = join("invalid mount point '", m.as_str());
                join(a.as_str(), "': conflicts with '/tmp'")
            },
            MountError::Conflicts { mount_point, other } => {
                let a = join("invalid mount point '", mount_point.as_str());
                let b = join(a.as_str(), "': conflicts with mount point '");
                let c = join(b.as_str(), other.as_str());
                join(c.as_str(), "'")
            },
        }
    }
}

/// Whether one of two paths is the other or lies under it.
pub open spec fn nests(a: Seq<char>, b: Seq<char>) -> bool {
    lies_under(a, b) || lies_under(b, a)
}

/// Whether a path is absolute and more than the root.
pub open spec fn is_below_root(path: Seq<char>) -> bool {
    is_absolute(path) && components(path).len() > 1
}

/// Whether a mount point can be added to those that are there.
pub open spec fn is_mountable(mount_point: Seq<char>, existing: Seq<Seq<char>>) -> bool {
    &&& is_below_root(mount_point)
    &&& !nests(mount_point, "/tmp"@)
    &&& forall|i: int| 0 <= i < existing.len() ==> !nests(mount_point, #[trigger] existing[i])
}

/// Whether a mount point is refused with this error: the first that applies of not being an
/// absolute path below the root, nesting with `/tmp`, and nesting with one of those that are there,
/// of which the first is named.
pub open spec fn refuses(e: MountError, mount_point: Seq<char>, existing: Seq<Seq<char>>) -> bool {
    match e {
        MountError::NotAbsolute(m) => m@ == mount_point && !is_below_root(mount_point),
        MountError::ConflictsWithTmp(m) => m@ == mount_point && is_below_root(mount_point)
            && nests(mount_point, "/tmp"@),
        MountError::Conflicts { mount_point: m, other } => {
            &&& m@ == mount_point
            &&& is_below_root(mount_point)
            &&& !nests(mount_point, "/tmp"@)
            &&& exists|i: int| #[trigger] first_nested(mount_point, existing, i) && other@ == existing[i]
        },
    }
}

/// The first of the points that are there with which a mount point nests is at `i`.
pub open spec fn first_nested(mount_point: Seq<char>, existing: Seq<Seq<char>>, i: int) -> bool {
    &&& 0 <= i < existing.len()
    &&& nests(mount_point, existing[i])
    &&& forall|j: int| 0 <= j < i ==> !nests(mount_point, #[trigger] existing[j])
}

/// The first of the points that cannot be added to those before it is at `i`.
pub open spec fn first_refused(points: Seq<Seq<char>>, i: int) -> bool {
    &&& 0 <= i < points.len()
    &&& !is_mountable(points[i], points.take(i))
    &&& forall|j: int| 0 <= j < i ==> is_mountable(#[trigger] points[j], points.take(j))
}

/// Whether the first of the points that cannot be added to those before it is refused with this
/// error.
pub open spec fn refuses_first(e: MountError, points: Seq<Seq<char>>) -> bool {
    exists|k: int|
        #[trigger] first_refused(points, k) && refuses(e, points[k], points.take(k))
}

/// Refuses a mount point that is not an absolute path below the root, or that nests with `/tmp` or
/// with one of those that are there. Whole components count: `/s3-two` does not nest with `/s3`.
pub fn validate_mount_point(mount_point: &str, existing: &Vec<String>) -> (r: Result<(), MountError>)
    ensures
        r is Ok <==> is_mountable(mount_point@, views(existing@)),
        r matches Err(e) ==> refuses(e, mount_point@, views(existing@)),
{
    let parts = split_components(mount_point);
    assert(parts@.len() == components(mount_point@).len());
    if !absolute(mount_point) || parts.len() <= 1 {
        return Err(MountError::NotAbsolute(mount_point.to_owned()));
    }
    if starts_with(mount_point, "/tmp") || starts_with("/tmp", mount_point) {
        return Err(MountError::ConflictsWithTmp(mount_point.to_owned()));
    }
    let mut i: usize = 0;
    while i < existing.len()
        invariant
            i <= existing@.len(),
            is_below_root(mount_point@),
            !nests(mount_point@, "/tmp"@),
            forall|j: int| 0 <= j < i ==> !nests(mount_point@, #[trigger] views(existing@)[j]),
        decreases existing@.len() - i,
    {
        let other = existing[i].as_str();
        assert(views(existing@)[i as int] == other@);
        if starts_with(mount_point, other) || starts_with(other, mount_point) {
            assert(first_nested(mount_point@, views(existing@), i as int));
            return Err(
                MountError::Conflicts {
                    mount_point: mount_point.to_owned(),
                    other: other.to_owned(),
                },
            );
        }
        i = i + 1;
    }
    Ok(())
}

/// What is mounted.
#[derive(Debug, Clone, Copy, PartialEq, Eq, Structural)]
pub enum MountKind {
    S3,
    Http,
}

/// The mount points of a worker, in the order in which they are layered: those of the object
/// stores first, and then those of the HTTP file systems.
#[derive(Debug)]
pub struct MountTable {
    pub points: Vec<String>,
    /// How many of them are object stores.
    pub s3_count: usize,
}

/// Mount points that are all usable beside one another.
pub open spec fn is_mount_set(points: Seq<Seq<char>>) -> bool {
    forall|i: int|
        0 <= i < points.len() ==> is_mountable(#[trigger] points[i], points.take(i))
}

/// Adds a mount point to `points`, if it can be.
fn push_mount(points: &mut Vec<String>, mount_point: &str) -> (r: Result<(), MountError>)
    requires
        is_mount_set(views(old(points)@)),
    ensures
        is_mount_set(views(final(points)@)),
        r is Ok <==> is_mountable(mount_point@, views(old(points)@)),
        match r {
            Ok(()) => views(final(points)@) == views(old(points)@).push(mount_point@),
            Err(e) => final(points)@ == old(points)@ && refuses(
                e,
                mount_point@,
                views(old(points)@),
            ),
        },
{
    let ghost before = views(points@);
    match validate_mount_point(mount_point, points) {
        Ok(()) => {},
        Err(e) => {
            return Err(e);
        },
    }
    let s = mount_point.to_owned();
    proof {
        lemma_views_push(points@, s);
        let after = before.push(s@);
        assert forall|k: int| 0 <= k < after.len() implies is_mountable(
            #[trigger] after[k],
            after.take(k),
        ) by {
            if k < before.len() {
                assert(after.take(k) =~= before.take(k));
                assert(is_mountable(before[k], before.take(k)));
            } else {
                assert(after.take(k) =~= before);
            }
        }
    }
    points.push(s);
    Ok(())
}

impl MountTable {
    /// The points never nest, and the object stores are among them.
    pub open spec fn wf(self) -> bool {
        is_mount_set(views(self.points@)) && self.s3_count <= self.points@.len()
    }

    /// Nothing is mounted.
    pub fn new() -> (r: MountTable)
        ensures
            r.wf(),
            r.points@.len() == 0,
            r.s3_count == 0,
    {
        MountTable { points: Vec::new(), s3_count: 0 }
    }

    /// Adds a mount point, if it can be. An object store is added before any HTTP file system.
    pub fn add(&mut self, kind: MountKind, mount_point: &str) -> (r: Result<(), MountError>)
        requires
            old(self).wf(),
            kind == MountKind::S3 ==> old(self).s3_count == old(self).points@.len(),
        ensures
            final(self).wf(),
            r is Ok <==> is_mountable(mount_point@, views(old(self).points@)),
            match r {
                Ok(()) => views(final(self).points@) == views(old(self).points@).push(mount_point@)
                    && final(self).s3_count == old(self).s3_count + if kind == MountKind::S3 {
                    1int
                } else {
                    0
                },
                Err(e) => final(self).points@ == old(self).points@ && final(self).s3_count == old(
                    self,
                ).s3_count && refuses(
                    e,
                    mount_point@,
                    views(old(self).points@),
                ),
            },
    {
        match push_mount(&mut self.points, mount_point) {
            Ok(()) => {},
            Err(e) => {
                return Err(e);
            },
        }
        assert(views(self.points@).len() == self.points@.len());
        if kind == MountKind::S3 {
            self.s3_count = self.points.len();
        }
        Ok(())
    }
}

/// Adds the mount points `wanted` to `points`, as far as all of them can be.
fn add_mounts(points: &mut Vec<String>, wanted: &Vec<String>) -> (r: Result<(), MountError>)
    requires
        is_mount_set(views(old(points)@)),
    ensures
        r is Ok ==> views(final(points)@) == views(old(points)@) + views(wanted@) && is_mount_set(
            views(final(points)@),
        ),
        r matches Err(e) ==> refuses_first(e, views(old(points)@) + views(wanted@)),
{
    let ghost start = views(points@);
    let ghost goal = start + views(wanted@);
    let mut i: usize = 0;
    assert(start + views(wanted@).take(0) =~= start);
    while i < wanted.len()
        invariant
            i <= wanted@.len(),
            start == views(old(points)@),
            goal == start + views(wanted@),
            views(points@) == start + views(wanted@).take(i as int),
            is_mount_set(views(points@)),
        decreases wanted@.len() - i,
    {
        let m = wanted[i].as_str();
        let ghost before = views(points@);
        assert(goal[start.len() + i] == m@);
        assert(goal.take(start.len() + i) =~= before);
        match push_mount(points, m) {
            Ok(()) => {},
            Err(e) => {
                proof {
                    let k = start.len() + i;
                    assert forall|j: int| 0 <= j < k implies is_mountable(
                        #[trigger] goal[j],
                        goal.take(j),
                    ) by {
                        assert(before[j] == goal[j]);
                        assert(before.take(j) =~= goal.take(j));
                        assert(is_mountable(before[j], before.take(j)));
                    }
                    assert(first_refused(goal, k));
                }
                return Err(e);
            },
        }
        assert(start + views(wanted@).take(i + 1) =~= before.push(m@));
        i = i + 1;
    }
    assert(views(wanted@).take(i as int) =~= views(wanted@));
    Ok(())
}

/// Validates the mount points of a worker one after the other, each against those before it. The
/// error is that of the first that is refused.
pub fn build_mounts(s3: &Vec<String>, http: &Vec<String>) -> (r: Result<MountTable, MountError>)
    ensures
        r is Ok <==> is_mount_set(views(s3@) + views(http@)),
        r matches Ok(t) ==> views(t.points@) == views(s3@) + views(http@) && t.s3_count
            == s3@.len(),
        r matches Err(e) ==> refuses_first(e, views(s3@) + views(http@)),
{
    let mut points: Vec<String> = Vec::new();
    assert(views(points@) =~= Seq::<Seq<char>>::empty());
    let ghost all = views(s3@) + views(http@);
    match add_mounts(&mut points, s3) {
        Ok(()) => {},
        Err(e) => {
            proof {
                let own = Seq::<Seq<char>>::empty() + views(s3@);
                assert(own =~= views(s3@));
                let k = choose|k: int|
                    #[trigger] first_refused(own, k) && refuses(e, own[k], own.take(k));
                assert(all[k] == own[k]);
                assert(all.take(k) =~= own.take(k));
                assert forall|j: int| 0 <= j < k implies is_mountable(
                    #[trigger] all[j],
                    all.take(j),
                ) by {
                    assert(own[j] == all[j]);
                    assert(own.take(j) =~= all.take(j));
                    assert(is_mountable(own[j], own.take(j)));
                }
                assert(first_refused(all, k));
            }
            return Err(e);
        },
    }
    assert(views(points@) =~= views(s3@));
    match add_mounts(&mut points, http) {
        Ok(()) => {},
        Err(e) => {
            return Err(e);
        },
    }
    Ok(MountTable { points, s3_count: s3.len() })
}

/// Mount points that pass never nest: no two of them share a file, and none shares one with `/tmp`.
pub proof fn law_mount_points_never_nest(points: Seq<Seq<char>>, i: int, j: int)
    requires
        is_mount_set(points),
        0 <= i < points.len(),
        0 <= j < points.len(),
        i != j,
    ensures
        !nests(points[i], points[j]),
        !nests(points[i], "/tmp"@),
        is_below_root(points[i]),
{
    assert(is_mountable(points[i], points.take(i)));
    assert(is_mountable(points[j], points.take(j)));
    if i < j {
        assert(points.take(j)[i] == points[i]);
    } else {
        assert(points.take(i)[j] == points[j]);
    }
}

/// Nesting goes both ways.
pub proof fn law_nesting_is_symmetric(a: Seq<char>, b: Seq<char>)
    ensures
        nests(a, b) == nests(b, a),
        nests(a, a),
{
    assert(components(a) =~= components(a).subrange(0, components(a).len() as int));
}


/// A mount point is accepted where it is an absolute path below the root that shares no path with
/// the directory for temporary files or with a mount point there: neither leads through the other.
pub proof fn law_mount_points_keep_apart(mount_point: Seq<char>, existing: Seq<Seq<char>>)
    ensures
        is_mountable(mount_point, existing) <==> {
            let c = components(mount_point);
            &&& mount_point.len() > 0 && mount_point[0] == '/' && c.len() > 1
            &&& !c.is_prefix_of(components("/tmp"@)) && !components("/tmp"@).is_prefix_of(c)
            &&& forall|i: int|
                0 <= i < existing.len() ==> !c.is_prefix_of(components(#[trigger] existing[i]))
                    && !components(existing[i]).is_prefix_of(c)
        },
{
    let c = components(mount_point);
    if is_mountable(mount_point, existing) {
        assert forall|i: int| 0 <= i < existing.len() implies !c.is_prefix_of(
            components(#[trigger] existing[i]),
        ) && !components(existing[i]).is_prefix_of(c) by {
            assert(!nests(mount_point, existing[i]));
        }
    }
}

/// Adding a mount point never makes room for one that was refused, and whatever is refused next to
/// fewer mount points is refused next to more.
pub proof fn law_refusals_stay(mount_point: Seq<char>, existing: Seq<Seq<char>>, more: Seq<char>)
    ensures
        is_mountable(mount_point, existing.push(more)) ==> is_mountable(mount_point, existing),
        is_mountable(mount_point, existing) && !is_mountable(mount_point, existing.push(more)) ==> {
            ||| components(more).is_prefix_of(components(mount_point))
            ||| components(mount_point).is_prefix_of(components(more))
        },
{
    let all = existing.push(more);
    if is_mountable(mount_point, all) {
        assert forall|i: int| 0 <= i < existing.len() implies !nests(
            mount_point,
            #[trigger] existing[i],
        ) by {
            assert(all[i] == existing[i]);
        }
    } else if is_mountable(mount_point, existing) {
        let i = choose|i: int| 0 <= i < all.len() && nests(mount_point, #[trigger] all[i]);
        if i < existing.len() {
            assert(all[i] == existing[i]);
        }
    }
}

/// A refusal names the mount point refused and the first thing that is wrong with it: that it is
/// not below the root, that it meets the directory for temporary files, or the first mount point
/// that it meets.
pub proof fn law_refusals_say_why(e: MountError, mount_point: Seq<char>, existing: Seq<Seq<char>>)
    requires
        refuses(e, mount_point, existing),
    ensures
        !is_mountable(mount_point, existing),
        ({
            let c = components(mount_point);
            let below = mount_point.len() > 0 && mount_point[0] == '/' && c.len() > 1;
            let in_tmp = c.is_prefix_of(components("/tmp"@)) || components("/tmp"@).is_prefix_of(c);
            &&& e is NotAbsolute <==> !below
            &&& e is ConflictsWithTmp <==> below && in_tmp
            &&& e matches MountError::NotAbsolute(m) ==> m@ == mount_point
            &&& e matches MountError::ConflictsWithTmp(m) ==> m@ == mount_point
            &&& e matches MountError::Conflicts { mount_point: m, other } ==> m@ == mount_point
                && existing.contains(other@) && (c.is_prefix_of(components(other@)) || components(
                other@,
            ).is_prefix_of(c))
        }),
{
    if let MountError::Conflicts { mount_point: m, other } = e {
        let i = choose|i: int| #[trigger]
            first_nested(mount_point, existing, i) && other@ == existing[i];
        assert(existing[i] == other@);
        assert(nests(mount_point, existing[i]));
    }
}


/// Of several mount points it is the first refused that is complained of: each before it was
/// accepted next to those before, and what is wrong is wrong next to those.
pub proof fn law_first_refusal_counts(e: MountError, points: Seq<Seq<char>>)
    requires
        refuses_first(e, points),
    ensures
        exists|k: int|
            #![trigger points[k]]
            {
                &&& 0 <= k < points.len()
                &&& refuses(e, points[k], points.take(k))
                &&& !is_mountable(points[k], points.take(k))
                &&& is_mount_set(points.take(k))
            },
        !is_mount_set(points),
{
    let k = choose|k: int|
        #[trigger] first_refused(points, k) && refuses(e, points[k], points.take(k));
    let before = points.take(k);
    assert forall|i: int| 0 <= i < before.len() implies is_mountable(
        #[trigger] before[i],
        before.take(i),
    ) by {
        assert(before.take(i) =~= points.take(i));
        assert(is_mountable(points[i], points.take(i)));
    }
    assert(refuses(e, points[k], points.take(k)) && is_mount_set(before));
}


/// The message of a refusal names the mount point, and the other one where there is one.
pub proof fn law_refusals_name_the_mount_point(e: MountError)
    ensures
        e matches MountError::NotAbsolute(m) ==> e.text() == "invalid mount point '"@ + m@
            + "': must be an absolute path other than '/'"@,
        e matches MountError::ConflictsWithTmp(m) ==> e.text() == "invalid mount point '"@ + m@
            + "': conflicts with '/tmp'"@,
        e matches MountError::Conflicts { mount_point, other } ==> e.text()
            == "invalid mount point '"@ + mount_point@ + "': conflicts with mount point '"@ + other@
            + "'"@,
{
}

} // verus!
