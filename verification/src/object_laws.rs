//! Laws of orbits, stabilizers and pair classes.
use vstd::prelude::*;
use crate::affine_space::{Bounds3, Pos3};
use crate::closure::{lemma_push_contains, lemma_push_no_duplicates};
use crate::expansion::expand;
use crate::objects::{
    class_of, fixing, image, noted, orbit_of, pair_images_from, pair_multiplicity, PairClass,
};
use crate::closure::GroupElement;
use crate::group_laws::is_lattice_group;
use crate::symmetry::Isometry;

verus! {

/// The stabilizer holds exactly the operations of the group that map the
/// position onto itself modulo the lattice translations: every operation of
/// the stabilizer fixes the position.
pub proof fn law_stabilizer_fixes(group: Seq<Isometry>, p: Pos3, e: Isometry)
    ensures
        fixing(group, p).contains(e) <==> (group.contains(e) && image(e, p, Bounds3::unit())
            == Some(p)),
    decreases group.len(),
{
    if group.len() > 0 {
        let rest = group.drop_last();
        let last = group.last();
        law_stabilizer_fixes(rest, p, e);
        assert(group == rest.push(last));
        lemma_push_contains(rest, last, e);
        lemma_push_contains(fixing(rest, p), last, e);
    }
}

/// The orbit starts with the position itself and lists no position twice.
pub proof fn law_orbit_distinct(group: Seq<Isometry>, p: Pos3)
    requires
        orbit_of(group, p) is Some,
    ensures
        orbit_of(group, p).unwrap().len() >= 1,
        orbit_of(group, p).unwrap()[0] == p,
        orbit_of(group, p).unwrap().no_duplicates(),
    decreases group.len(),
{
    let o = orbit_of(group, p).unwrap();
    if group.len() == 0 {
        assert(o =~= seq![p]);
    } else {
        let rest = group.drop_last();
        law_orbit_distinct(rest, p);
        let before = orbit_of(rest, p).unwrap();
        let q = image(group.last(), p, Bounds3::unit()).unwrap();
        if !before.contains(q) {
            lemma_push_no_duplicates(before, q);
        }
    }
}

/// The orbit holds the image of the position under every operation of the
/// group.
pub proof fn law_orbit_holds_images(group: Seq<Isometry>, p: Pos3, k: int)
    requires
        orbit_of(group, p) is Some,
        0 <= k < group.len(),
    ensures
        image(group[k], p, Bounds3::unit()) is Some,
        orbit_of(group, p).unwrap().contains(image(group[k], p, Bounds3::unit()).unwrap()),
    decreases group.len(),
{
    let rest = group.drop_last();
    let before = orbit_of(rest, p).unwrap();
    let q = image(group.last(), p, Bounds3::unit()).unwrap();
    if k < rest.len() {
        law_orbit_holds_images(rest, p, k);
        assert(group[k] == rest[k]);
        lemma_push_contains(before, q, image(rest[k], p, Bounds3::unit()).unwrap());
    } else {
        lemma_push_contains(before, q, q);
    }
}

/// Every position of the orbit is the position itself or its image under an
/// operation of the group.
pub proof fn law_orbit_only_images(group: Seq<Isometry>, p: Pos3, q: Pos3)
    requires
        orbit_of(group, p) is Some,
        orbit_of(group, p).unwrap().contains(q),
    ensures
        q == p || exists|k: int|
            0 <= k < group.len() && #[trigger] image(group[k], p, Bounds3::unit()) == Some(q),
    decreases group.len(),
{
    if group.len() == 0 {
        assert(orbit_of(group, p).unwrap() =~= seq![p]);
        let i = choose|i: int| 0 <= i < 1 && seq![p][i] == q;
    } else {
        let rest = group.drop_last();
        let before = orbit_of(rest, p).unwrap();
        let last_image = image(group.last(), p, Bounds3::unit()).unwrap();
        lemma_push_contains(before, last_image, q);
        if before.contains(q) {
            law_orbit_only_images(rest, p, q);
            if q != p {
                let k = choose|k: int|
                    0 <= k < rest.len() && #[trigger] image(rest[k], p, Bounds3::unit()) == Some(
                        q,
                    );
                assert(group[k] == rest[k]);
            }
        } else {
            assert(image(group[group.len() - 1], p, Bounds3::unit()) == Some(q));
        }
    }
}

/// Gathering the positions that pair with the origin never loses one, and an
/// operation that maps the origin onto itself leaves at least one.
proof fn lemma_pair_images_grow(
    acc: Seq<Pos3>,
    ops: Seq<Isometry>,
    k: int,
    origin: Pos3,
    end: Pos3,
    bounds: Bounds3,
)
    requires
        0 <= k <= ops.len(),
        pair_images_from(acc, ops, k, origin, end, bounds) is Some,
    ensures
        pair_images_from(acc, ops, k, origin, end, bounds).unwrap().len() >= acc.len(),
        (exists|j: int| k <= j < ops.len() && #[trigger] image(ops[j], origin, bounds) == Some(origin))
            ==> pair_images_from(acc, ops, k, origin, end, bounds).unwrap().len() >= 1,
    decreases ops.len() - k,
{
    if k < ops.len() {
        let a = image(ops[k], origin, bounds).unwrap();
        let b = image(ops[k], end, bounds).unwrap();
        let first = noted(acc, a == origin, b);
        let next = noted(first, b == origin, a);
        lemma_pair_images_grow(next, ops, k + 1, origin, end, bounds);
        if a == origin {
            if acc.contains(b) {
                let i = choose|i: int| 0 <= i < acc.len() && acc[i] == b;
            }
            assert(next.len() >= 1);
        }
    }
}

/// The multiplicity of a pair class is positive, if an operation of the
/// expanded group maps the origin onto itself, as the identity does.
pub proof fn law_multiplicity_positive(
    origin: Pos3,
    orbit: Seq<Pos3>,
    end: Pos3,
    group: Seq<Isometry>,
    bounds: Bounds3,
)
    requires
        orbit.len() >= 1,
        class_of(origin, orbit, end, group, bounds) is Some,
        exists|j: int|
            0 <= j < expand(group, bounds).unwrap().len() && #[trigger] image(
                expand(group, bounds).unwrap()[j],
                origin,
                bounds,
            ) == Some(origin),
    ensures
        pair_multiplicity(class_of(origin, orbit, end, group, bounds).unwrap()) >= 1,
{
    let ops = expand(group, bounds).unwrap();
    lemma_pair_images_grow(Seq::empty(), ops, 0, origin, end, bounds);
    let c = class_of(origin, orbit, end, group, bounds).unwrap();
    assert(c.origin_multiplicity * c.expansion.len() >= 1) by (nonlinear_arith)
        requires
            c.origin_multiplicity >= 1,
            c.expansion.len() >= 1,
    ;
}

/// An image in the unit cell that can be stored is well formed and has the
/// exact value: the image, reduced into the unit cell.
pub proof fn lemma_image(op: Isometry, p: Pos3)
    ensures
        image(op, p, Bounds3::unit()) matches Some(q) ==> q.wf() && q@ == op@.apply_pos(p@).wrap(
            1,
            1,
            1,
        ),
{
    reveal(image);
    Bounds3::lemma_unit();
    op.affine().lemma_checked_mul_pos(p);
    if op.affine().checked_mul_pos(p) is Some {
        let q = op.affine().checked_mul_pos(p).unwrap();
        Pos3::lemma_checked_value(q@.wrap(1, 1, 1));
    }
}

/// The orbit of a position under a group of lattice maps is closed under the
/// group: the image of a position of the orbit under an operation of the
/// group, reduced into the unit cell, lies in the orbit again.
pub proof fn law_orbit_closed(group: Seq<Isometry>, p: Pos3, i: int, q: Pos3)
    requires
        is_lattice_group(group),
        p.wf(),
        orbit_of(group, p) is Some,
        orbit_of(group, p).unwrap().contains(q),
        0 <= i < group.len(),
    ensures
        image(group[i], q, Bounds3::unit()) matches Some(r) ==> orbit_of(
            group,
            p,
        ).unwrap().contains(r),
{
    let g = group[i];
    let o = orbit_of(group, p).unwrap();
    if image(g, q, Bounds3::unit()) is Some {
        let r = image(g, q, Bounds3::unit()).unwrap();
        law_orbit_only_images(group, p, q);
        if q == p {
            law_orbit_holds_images(group, p, i);
        } else {
            let k = choose|k: int|
                0 <= k < group.len() && #[trigger] image(group[k], p, Bounds3::unit()) == Some(q);
            let h = group[k];
            assert(group.to_set().contains(g) && group.to_set().contains(h));
            let c = g.spec_compose(h).unwrap();
            assert(group.to_set().contains(c));
            let j = choose|j: int| 0 <= j < group.len() && group[j] == c;
            law_orbit_holds_images(group, p, j);
            let via = image(c, p, Bounds3::unit()).unwrap();
            g.lemma_compose(h);
            lemma_image(h, p);
            lemma_image(g, q);
            lemma_image(c, p);
            g@.lemma_action(h@, p@);
            crate::frac::Frac::lemma_view_injective(r.x, via.x);
            crate::frac::Frac::lemma_view_injective(r.y, via.y);
            crate::frac::Frac::lemma_view_injective(r.z, via.z);
        }
    }
}

} // verus!
