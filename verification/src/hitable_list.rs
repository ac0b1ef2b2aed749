//! The surface collection: every member is tested and the nearest
//! intersection wins, by narrowing the search window to the best `t`
//! found so far.

use vstd::prelude::*;
use crate::hitable::{opt_hit_view, Hitable, HitRecord, HitV};
use crate::ray::{Ray, RayV};
use crate::sphere::Sphere;

verus! {

/// The nearest-hit fold: each member is queried inside `(t_min, closest)`,
/// and a reported hit narrows `closest` to its `t` for the members after
/// it, so a later member can only replace the record with something
/// strictly closer.
pub open spec fn list_hit_from(
    s: Seq<Sphere>,
    r: RayV,
    t_min: int,
    closest: int,
    best: Option<HitV>,
) -> Option<HitV>
    decreases s.len(),
{
    if s.len() == 0 {
        best
    } else {
        match s[0].hit_spec(r, t_min, closest) {
            Some(h) => list_hit_from(s.drop_first(), r, t_min, h.t, Some(h)),
            None => list_hit_from(s.drop_first(), r, t_min, closest, best),
        }
    }
}

/// A list of spheres, itself testable for intersection.
pub struct HitableList {
    pub list: Vec<Sphere>,
}

impl Hitable for HitableList {
    open spec fn hit_spec(&self, r: RayV, t_min: int, t_max: int) -> Option<HitV> {
        list_hit_from(self.list@, r, t_min, t_max, None)
    }

    fn hit(&self, r: &Ray, t_min: i64, t_max: i64) -> (res: Option<HitRecord>) {
        let mut best: Option<HitRecord> = None;
        let mut closest: i64 = t_max;
        let mut i: usize = 0;
        proof {
            assert(self.list@.skip(0) =~= self.list@);
        }
        while i < self.list.len()
            invariant
                i <= self.list.len(),
                list_hit_from(
                    self.list@.skip(i as int),
                    r@,
                    t_min as int,
                    closest as int,
                    opt_hit_view(best),
                ) == list_hit_from(self.list@, r@, t_min as int, t_max as int, None),
            decreases self.list.len() - i,
        {
            let ghost pre = self.list@.skip(i as int);
            proof {
                assert(pre.drop_first() =~= self.list@.skip(i as int + 1));
                assert(pre[0] == self.list@[i as int]);
            }
            match self.list[i].hit(r, t_min, closest) {
                Some(rec) => {
                    closest = rec.t;
                    best = Some(rec);
                },
                None => {},
            }
            i = i + 1;
        }
        best
    }
}

/// Every record the fold can report lies strictly inside `(t_min, t_max)`,
/// given that the record carried in and the current window already do.
pub proof fn lemma_list_hit_from_in_window(
    s: Seq<Sphere>,
    r: RayV,
    t_min: int,
    closest: int,
    t_max: int,
    best: Option<HitV>,
)
    requires
        closest <= t_max,
        best is Some ==> t_min < best->Some_0.t && best->Some_0.t < t_max,
    ensures
        list_hit_from(s, r, t_min, closest, best) is Some ==> t_min < list_hit_from(
            s,
            r,
            t_min,
            closest,
            best,
        )->Some_0.t && list_hit_from(s, r, t_min, closest, best)->Some_0.t < t_max,
        best is Some ==> list_hit_from(s, r, t_min, closest, best) is Some,
    decreases s.len(),
{
    if s.len() > 0 {
        let first = s[0].hit_spec(r, t_min, closest);
        crate::sphere::lemma_sphere_range_exclusion(s[0], r, t_min, closest);
        if first is Some {
            let h = first->Some_0;
            lemma_list_hit_from_in_window(s.drop_first(), r, t_min, h.t, t_max, Some(h));
        } else {
            lemma_list_hit_from_in_window(s.drop_first(), r, t_min, closest, t_max, best);
        }
    }
}

/// The collection rejects any hit whose parameter falls outside the open
/// window `(t_min, t_max)`.
pub proof fn lemma_list_range_exclusion(s: Seq<Sphere>, r: RayV, t_min: int, t_max: int)
    ensures
        list_hit_from(s, r, t_min, t_max, None) is Some ==> t_min < list_hit_from(
            s,
            r,
            t_min,
            t_max,
            None,
        )->Some_0.t && list_hit_from(s, r, t_min, t_max, None)->Some_0.t < t_max,
{
    lemma_list_hit_from_in_window(s, r, t_min, t_max, t_max, None);
}

/// Two overlapping spheres along one ray yield the hit with the smaller
/// parameter, whichever order the list holds them in.
pub proof fn lemma_collection_nearest(s1: Sphere, s2: Sphere, r: RayV, t_min: int, t_max: int)
    requires
        s1.hit_spec(r, t_min, t_max) is Some,
        s2.hit_spec(r, t_min, t_max) is Some,
    ensures
        ({
            let t1 = s1.hit_spec(r, t_min, t_max)->Some_0.t;
            let t2 = s2.hit_spec(r, t_min, t_max)->Some_0.t;
            let tnear = if t2 < t1 {
                t2
            } else {
                t1
            };
            &&& list_hit_from(seq![s1, s2], r, t_min, t_max, None) is Some
            &&& list_hit_from(seq![s1, s2], r, t_min, t_max, None)->Some_0.t == tnear
            &&& list_hit_from(seq![s2, s1], r, t_min, t_max, None) is Some
            &&& list_hit_from(seq![s2, s1], r, t_min, t_max, None)->Some_0.t == tnear
            &&& t1 != t2 ==> list_hit_from(seq![s1, s2], r, t_min, t_max, None) == list_hit_from(
                seq![s2, s1],
                r,
                t_min,
                t_max,
                None,
            )
        }),
{
    let h1 = s1.hit_spec(r, t_min, t_max)->Some_0;
    let h2 = s2.hit_spec(r, t_min, t_max)->Some_0;
    crate::sphere::lemma_sphere_range_exclusion(s1, r, t_min, t_max);
    crate::sphere::lemma_sphere_range_exclusion(s2, r, t_min, t_max);
    lemma_pair_order(s1, s2, r, t_min, t_max);
    lemma_pair_order(s2, s1, r, t_min, t_max);
}

/// One step of the two-sphere case: the first member's hit narrows the
/// window for the second.
proof fn lemma_pair_order(sa: Sphere, sb: Sphere, r: RayV, t_min: int, t_max: int)
    requires
        sa.hit_spec(r, t_min, t_max) is Some,
        sb.hit_spec(r, t_min, t_max) is Some,
    ensures
        ({
            let ta = sa.hit_spec(r, t_min, t_max)->Some_0.t;
            let tb = sb.hit_spec(r, t_min, t_max)->Some_0.t;
            let tnear = if tb < ta {
                tb
            } else {
                ta
            };
            &&& list_hit_from(seq![sa, sb], r, t_min, t_max, None) == Some(
                if tb < ta {
                    sb.hit_spec(r, t_min, t_max)->Some_0
                } else {
                    sa.hit_spec(r, t_min, t_max)->Some_0
                },
            )
            &&& list_hit_from(seq![sa, sb], r, t_min, t_max, None)->Some_0.t == tnear
        }),
{
    let ha = sa.hit_spec(r, t_min, t_max)->Some_0;
    let hb = sb.hit_spec(r, t_min, t_max)->Some_0;
    crate::sphere::lemma_sphere_range_exclusion(sa, r, t_min, t_max);
    crate::sphere::lemma_sphere_range_exclusion(sb, r, t_min, t_max);
    let pair = seq![sa, sb];
    assert(pair[0] == sa);
    assert(pair.drop_first() =~= seq![sb]);
    assert(seq![sb][0] == sb);
    assert(seq![sb].drop_first() =~= Seq::<Sphere>::empty());
    crate::sphere::lemma_sphere_hit_narrow(sb, r, t_min, ha.t, t_max);
    assert(list_hit_from(pair, r, t_min, t_max, None) == list_hit_from(
        seq![sb],
        r,
        t_min,
        ha.t,
        Some(ha),
    ));
    if hb.t < ha.t {
        assert(sb.hit_spec(r, t_min, ha.t) == Some(hb));
        assert(list_hit_from(seq![sb], r, t_min, ha.t, Some(ha)) == list_hit_from(
            Seq::<Sphere>::empty(),
            r,
            t_min,
            hb.t,
            Some(hb),
        ));
        assert(list_hit_from(Seq::<Sphere>::empty(), r, t_min, hb.t, Some(hb)) == Some(hb));
    } else {
        assert(sb.hit_spec(r, t_min, ha.t) is None);
        assert(list_hit_from(seq![sb], r, t_min, ha.t, Some(ha)) == list_hit_from(
            Seq::<Sphere>::empty(),
            r,
            t_min,
            ha.t,
            Some(ha),
        ));
        assert(list_hit_from(Seq::<Sphere>::empty(), r, t_min, ha.t, Some(ha)) == Some(ha));
    }
}

} // verus!
