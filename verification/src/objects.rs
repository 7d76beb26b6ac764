//! Sites and classes of symmetry-equivalent pairs of positions.
//!
//! A [`Site`] is a position together with its orbit under a space group and
//! the operations that fix it. A [`PairExpansion`] is a class of pairs of
//! positions that the group maps onto each other, described from the point of
//! view of its origin.
use vstd::prelude::*;
use crate::affine_space::{Bounds3, Pos3, Vec3};
use crate::closure::is_valid_group;
use crate::error::Error;
use crate::expansion::{expand, IsometryIter};
pub use crate::input::tree_to_args;
pub use crate::input_text::from_str;
use crate::symmetry::{Isometry, IsometryGroup};
use crate::text::{append_nat, decimal_nat, triple_text};

verus! {

/// The image of `p` under `op`, reduced into the supercell, where it can be
/// stored.
#[verifier::opaque]
pub open spec fn image(op: Isometry, p: Pos3, bounds: Bounds3) -> Option<Pos3> {
    match op.affine().checked_mul_pos(p) {
        Some(q) => q.checked_rem(bounds),
        None => None,
    }
}

/// The image of `p` under `op`, reduced into the supercell; `None` when a step
/// of the computation cannot be stored.
pub fn image_of(op: Isometry, p: Pos3, bounds: Bounds3) -> (r: Option<Pos3>)
    ensures
        r == image(op, p, bounds),
        r matches Some(q) ==> bounds.contains_pos(q),
{
    proof {
        reveal(image);
    }
    match op.checked_mul_pos(p) {
        Some(q) => {
            proof {
                use_type_invariant(bounds);
                q.law_rem_range(bounds);
            }
            q.checked_rem(bounds)
        },
        None => None,
    }
}

/// The orbit of `p` under the operations of `group`, as a list: `p` itself,
/// then the images of `p` in the unit cell in the order of the operations,
/// each where it first comes up. `None` when an image cannot be stored.
pub open spec fn orbit_of(group: Seq<Isometry>, p: Pos3) -> Option<Seq<Pos3>>
    decreases group.len(),
{
    if group.len() == 0 {
        Some(seq![p])
    } else {
        match (orbit_of(group.drop_last(), p), image(group.last(), p, Bounds3::unit())) {
            (Some(o), Some(q)) => Some(
                if o.contains(q) {
                    o
                } else {
                    o.push(q)
                },
            ),
            _ => None,
        }
    }
}

/// The operations of `group` that map `p` onto itself modulo the lattice
/// translations, in their order.
pub open spec fn fixing(group: Seq<Isometry>, p: Pos3) -> Seq<Isometry>
    decreases group.len(),
{
    if group.len() == 0 {
        Seq::empty()
    } else if image(group.last(), p, Bounds3::unit()) == Some(p) {
        fixing(group.drop_last(), p).push(group.last())
    } else {
        fixing(group.drop_last(), p)
    }
}

/// An image that cannot be stored spoils the orbit of every longer list of
/// operations.
pub proof fn lemma_orbit_none(group: Seq<Isometry>, k: int, p: Pos3)
    requires
        0 <= k <= group.len(),
        orbit_of(group.take(k), p) is None,
    ensures
        orbit_of(group, p) is None,
    decreases group.len() - k,
{
    if k < group.len() {
        assert(group.take(k + 1).drop_last() == group.take(k));
        lemma_orbit_none(group, k + 1, p);
    } else {
        assert(group.take(k) == group);
    }
}

/// Whether `e` occurs in `v`.
pub fn contains_pos(v: &Vec<Pos3>, e: Pos3) -> (r: bool)
    ensures
        r == v@.contains(e),
{
    let mut k: usize = 0;
    while k < v.len()
        invariant
            k <= v.len(),
            forall|i: int| 0 <= i < k ==> v@[i] != e,
        decreases v.len() - k,
    {
        if v[k] == e {
            return true;
        }
        k += 1;
    }
    false
}

/// What a [`Site`] holds: a position of the unit cell, its orbit and its
/// stabilizer.
pub struct SiteView {
    /// The representative of the site, in the unit cell.
    pub position: Pos3,
    /// The distinct positions of the unit cell that the group maps the
    /// representative to, the representative first.
    pub orbit: Seq<Pos3>,
    /// The operations of the group that fix the representative modulo the
    /// lattice translations.
    pub stabilizer: Seq<Isometry>,
}

/// A position, its orbit under a space group, and its stabilizer.
pub struct Site {
    position: Pos3,
    orbit: Vec<Pos3>,
    stabilizer: IsometryGroup,
}

impl View for Site {
    type V = SiteView;

    closed spec fn view(&self) -> SiteView {
        SiteView { position: self.position, orbit: self.orbit@, stabilizer: self.stabilizer@ }
    }
}

/// The site of `position` under `group`: the position reduced into the unit
/// cell, its orbit and its stabilizer. The site is refused with
/// [`Error::Overflow`] when the reduced position or one of its images cannot
/// be stored, and with [`Error::InconsistentStabilizer`] when the operations
/// that fix the position are not a group.
pub open spec fn site_of(group: Seq<Isometry>, position: Pos3) -> Result<SiteView, Error> {
    match position.checked_rem(Bounds3::unit()) {
        None => Err(Error::Overflow),
        Some(p) => match orbit_of(group, p) {
            None => Err(Error::Overflow),
            Some(orbit) => if is_valid_group(fixing(group, p)) {
                Ok(SiteView { position: p, orbit, stabilizer: fixing(group, p) })
            } else {
                Err(Error::InconsistentStabilizer)
            },
        },
    }
}

/// The image of `p` in the unit cell lies in the orbit.
pub open spec fn in_orbit(orbit: Seq<Pos3>, p: Pos3) -> bool {
    p.checked_rem(Bounds3::unit()) matches Some(q) && orbit.contains(q)
}

impl Site {
    /// The site of `position` under `group`, as [`site_of`] describes it.
    pub fn new(group: &IsometryGroup, position: Pos3) -> (r: Result<Site, Error>)
        ensures
            site_of(group@, position) == (match r {
                Ok(s) => Ok::<SiteView, Error>(s@),
                Err(e) => Err(e),
            }),
    {
        let rep = match position.checked_rem(Bounds3::unit()) {
            Some(p) => p,
            None => {
                return Err(Error::Overflow);
            },
        };
        let ops = group.get_operations();
        let mut orbit: Vec<Pos3> = Vec::new();
        orbit.push(rep);
        let mut stabilizer: Vec<Isometry> = Vec::new();
        proof {
            assert(group@.take(0).len() == 0);
            assert(orbit@ =~= seq![rep]);
        }
        let mut k: usize = 0;
        while k < ops.len()
            invariant
                k <= ops.len(),
                ops@ == group@,
                position.checked_rem(Bounds3::unit()) == Some(rep),
                orbit_of(group@.take(k as int), rep) == Some(orbit@),
                stabilizer@ == fixing(group@.take(k as int), rep),
                stabilizer@.no_duplicates(),
                group@.no_duplicates(),
                forall|e: Isometry| #[trigger]
                    stabilizer@.contains(e) ==> group@.take(k as int).contains(e),
            decreases ops.len() - k,
        {
            let op = ops[k];
            proof {
                assert(group@.take(k + 1).drop_last() == group@.take(k as int));
                assert(group@.take(k + 1).last() == op);
                assert(group@.take(k + 1) == group@.take(k as int).push(op));
            }
            let new_pos = match image_of(op, rep, Bounds3::unit()) {
                Some(q) => q,
                None => {
                    proof {
                        assert(orbit_of(group@.take(k + 1), rep) is None);
                        lemma_orbit_none(group@, k + 1, rep);
                    }
                    return Err(Error::Overflow);
                },
            };
            let ghost before = stabilizer@;
            if new_pos == rep {
                proof {
                    if before.contains(op) {
                        let i = choose|i: int| 0 <= i < k && group@.take(k as int)[i] == op;
                        assert(group@[i] == group@[k as int]);
                    }
                    crate::closure::lemma_push_no_duplicates(before, op);
                }
                stabilizer.push(op);
            }
            proof {
                assert forall|e: Isometry| #[trigger]
                    stabilizer@.contains(e) implies group@.take(k + 1).contains(e) by {
                    crate::closure::lemma_push_contains(before, op, e);
                    crate::closure::lemma_push_contains(group@.take(k as int), op, e);
                }
            }
            if !contains_pos(&orbit, new_pos) {
                orbit.push(new_pos);
            }
            k += 1;
        }
        proof {
            assert(group@.take(k as int) == group@);
        }
        match IsometryGroup::from_closed_symmetries(stabilizer) {
            Some(stabilizer) => Ok(Site { position: rep, orbit, stabilizer }),
            None => Err(Error::InconsistentStabilizer),
        }
    }

    /// The representative of the site, in the unit cell.
    pub fn position(&self) -> (r: Pos3)
        ensures
            r == self@.position,
    {
        self.position
    }

    /// The stabilizer of the representative.
    pub fn stabilizer(&self) -> (r: &IsometryGroup)
        ensures
            r@ == self@.stabilizer,
    {
        &self.stabilizer
    }

    /// The number of positions in the orbit.
    pub fn multiplicity(&self) -> (r: usize)
        ensures
            r == self@.orbit.len(),
    {
        self.orbit.len()
    }

    /// The positions of the orbit together with their images under the
    /// lattice translations of the supercell `bounds`:
    /// [`IsometryIter::collect`] lists them.
    pub fn orbit_in_bounds(&self, bounds: Bounds3) -> (r: IsometryIter<'_, Pos3>)
        ensures
            r.items() == self@.orbit,
            r.bounds() == bounds,
    {
        IsometryIter::new(self.orbit.as_slice(), bounds)
    }

    /// Whether the image of `position` in the unit cell lies in the orbit.
    pub fn contains_pos(&self, position: Pos3) -> (r: bool)
        ensures
            r == in_orbit(self@.orbit, position),
    {
        match position.checked_rem(Bounds3::unit()) {
            Some(p) => contains_pos(&self.orbit, p),
            None => false,
        }
    }

    /// The representative and the multiplicity of the site.
    pub fn to_reduced_site(&self) -> (r: ReducedSite)
        ensures
            r.position() == self@.position,
            r.multiplicity() == self@.orbit.len(),
    {
        ReducedSite { position: self.position, multiplicity: self.multiplicity() }
    }

    /// Whether the representative of `other` lies in the orbit of `self`: the
    /// two are then the same site of the same group.
    pub fn same_site(&self, other: &Site) -> (r: bool)
        ensures
            r == self@.orbit.contains(other@.position),
    {
        contains_pos(&self.orbit, other.position)
    }
}

impl PartialEq for Site {
    /// Two sites are equal when the representative of the second lies in the
    /// orbit of the first.
    fn eq(&self, other: &Site) -> (r: bool) {
        self.same_site(other)
    }
}

impl vstd::std_specs::cmp::PartialEqSpecImpl for Site {
    open spec fn obeys_eq_spec() -> bool {
        true
    }

    open spec fn eq_spec(&self, other: &Site) -> bool {
        self@.orbit.contains(other@.position)
    }
}

impl Eq for Site {

}

/// The representative and the multiplicity of a site.
#[derive(Debug, Clone, Copy)]
pub struct ReducedSite {
    position: Pos3,
    multiplicity: usize,
}

impl ReducedSite {
    /// The representative position.
    pub closed spec fn spec_position(&self) -> Pos3 {
        self.position
    }

    /// The number of positions in the orbit of the site.
    pub closed spec fn spec_multiplicity(&self) -> usize {
        self.multiplicity
    }

    /// The representative position.
    #[verifier::when_used_as_spec(spec_position)]
    pub fn position(&self) -> (r: Pos3)
        ensures
            r == self.spec_position(),
    {
        self.position
    }

    /// The number of positions in the orbit of the site.
    #[verifier::when_used_as_spec(spec_multiplicity)]
    pub fn multiplicity(&self) -> (r: usize)
        ensures
            r == self.spec_multiplicity(),
    {
        self.multiplicity
    }
}

/// What a [`PairExpansion`] holds: a class of pairs of positions that the
/// group maps onto each other, seen from its origin.
pub struct PairClass {
    /// The representative of the site at which the pairs start.
    pub origin: Pos3,
    /// The number of positions in the orbit of the origin.
    pub origin_multiplicity: nat,
    /// The shortest displacement from the origin to the end of the pair.
    pub vector: Vec3,
    /// The distinct positions of the supercell that pair with the origin in
    /// this class.
    pub expansion: Seq<Pos3>,
    /// The end of the pair belongs to another site than the origin.
    pub is_ab_pair: bool,
}

/// A class of symmetry-equivalent pairs of positions.
pub struct PairExpansion {
    origin_site: ReducedSite,
    vec: Vec3,
    expansion: Vec<Pos3>,
    is_ab_pair: bool,
}

impl View for PairExpansion {
    type V = PairClass;

    closed spec fn view(&self) -> PairClass {
        PairClass {
            origin: self.origin_site.position,
            origin_multiplicity: self.origin_site.multiplicity as nat,
            vector: self.vec,
            expansion: self.expansion@,
            is_ab_pair: self.is_ab_pair,
        }
    }
}

/// `acc` with `p` appended if `hit` holds and `p` is new.
pub open spec fn noted(acc: Seq<Pos3>, hit: bool, p: Pos3) -> Seq<Pos3> {
    if hit && !acc.contains(p) {
        acc.push(p)
    } else {
        acc
    }
}

/// The positions that pair with `origin` in the class of the pair
/// `(origin, end)`, gathered from the operations `ops[k..]` after `acc`:
/// whenever an operation maps one end of the pair to `origin`, the image of the
/// other end is noted, unless it was noted before. `None` when an image cannot
/// be stored.
pub open spec fn pair_images_from(
    acc: Seq<Pos3>,
    ops: Seq<Isometry>,
    k: int,
    origin: Pos3,
    end: Pos3,
    bounds: Bounds3,
) -> Option<Seq<Pos3>>
    decreases ops.len() - k,
{
    if k < 0 || k >= ops.len() {
        Some(acc)
    } else {
        match (image(ops[k], origin, bounds), image(ops[k], end, bounds)) {
            (Some(a), Some(b)) => pair_images_from(
                noted(noted(acc, a == origin, b), b == origin, a),
                ops,
                k + 1,
                origin,
                end,
                bounds,
            ),
            _ => None,
        }
    }
}

/// The shortest displacement from `origin` to `end` in the supercell.
pub open spec fn connecting(origin: Pos3, end: Pos3, bounds: Bounds3) -> Option<Vec3> {
    match end.checked_sub(origin) {
        Some(d) => d.checked_rem(bounds),
        None => None,
    }
}

/// The class of the pair `(origin, end)` for an origin with the orbit `orbit`,
/// under the operations of `group` expanded over the supercell. `None` when an
/// exact intermediate result cannot be stored.
pub open spec fn class_of(
    origin: Pos3,
    orbit: Seq<Pos3>,
    end: Pos3,
    group: Seq<Isometry>,
    bounds: Bounds3,
) -> Option<PairClass> {
    match expand(group, bounds) {
        None => None,
        Some(ops) => match pair_images_from(Seq::empty(), ops, 0, origin, end, bounds) {
            None => None,
            Some(expansion) => match connecting(origin, end, bounds) {
                None => None,
                Some(vector) => Some(
                    PairClass {
                        origin,
                        origin_multiplicity: orbit.len(),
                        vector,
                        expansion,
                        is_ab_pair: !in_orbit(orbit, end),
                    },
                ),
            },
        },
    }
}

/// One of the classes starts at `origin` and pairs it with `end`.
pub open spec fn covered(classes: Seq<PairClass>, origin: Pos3, end: Pos3) -> bool {
    exists|j: int|
        0 <= j < classes.len() && (#[trigger] classes[j]).origin == origin
            && classes[j].expansion.contains(end)
}

/// The values of a list of pair classes.
pub open spec fn class_views(v: Seq<PairExpansion>) -> Seq<PairClass> {
    Seq::new(v.len(), |i: int| v[i]@)
}

/// The values of a list of sites.
pub open spec fn site_views(v: Seq<Site>) -> Seq<SiteView> {
    Seq::new(v.len(), |i: int| v[i]@)
}

impl PairExpansion {
    /// Whether this class starts at `origin_position` and pairs it with
    /// `end_position`.
    pub fn contains_pair(&self, origin_position: Pos3, end_position: Pos3) -> (r: bool)
        ensures
            r == (self@.origin == origin_position && self@.expansion.contains(end_position)),
    {
        self.origin_site.position == origin_position && contains_pos(
            &self.expansion,
            end_position,
        )
    }

    /// The class of the pair that leads from the representative of
    /// `origin_site` to `end_position`, as [`class_of`] describes it;
    /// [`Error::Overflow`] when an exact intermediate result cannot be stored.
    pub fn from_positions(
        origin_site: &Site,
        end_position: Pos3,
        group: &IsometryGroup,
        bounds: Bounds3,
    ) -> (r: Result<PairExpansion, Error>)
        ensures
            match r {
                Ok(pe) => Some(pe@) == class_of(
                    origin_site@.position,
                    origin_site@.orbit,
                    end_position,
                    group@,
                    bounds,
                ),
                Err(e) => e == Error::Overflow && class_of(
                    origin_site@.position,
                    origin_site@.orbit,
                    end_position,
                    group@,
                    bounds,
                ) is None,
            },
    {
        let origin_position = origin_site.position;
        let ops = match group.iter_with_bounds(bounds).collect() {
            Some(ops) => ops,
            None => {
                return Err(Error::Overflow);
            },
        };
        let mut expansion: Vec<Pos3> = Vec::new();
        let mut k: usize = 0;
        while k < ops.len()
            invariant
                k <= ops.len(),
                expand(group@, bounds) == Some(ops@),
                origin_position == origin_site@.position,
                pair_images_from(expansion@, ops@, k as int, origin_position, end_position, bounds)
                    == pair_images_from(
                    Seq::empty(),
                    ops@,
                    0,
                    origin_position,
                    end_position,
                    bounds,
                ),
            decreases ops.len() - k,
        {
            let op = ops[k];
            let image_of_origin = match image_of(op, origin_position, bounds) {
                Some(p) => p,
                None => {
                    return Err(Error::Overflow);
                },
            };
            let image_of_end = match image_of(op, end_position, bounds) {
                Some(p) => p,
                None => {
                    return Err(Error::Overflow);
                },
            };
            if image_of_origin == origin_position && !contains_pos(&expansion, image_of_end) {
                expansion.push(image_of_end);
            }
            if image_of_end == origin_position && !contains_pos(&expansion, image_of_origin) {
                expansion.push(image_of_origin);
            }
            k += 1;
        }
        let is_ab_pair = !origin_site.contains_pos(end_position);
        let vec = match end_position.checked_sub(origin_position) {
            Some(d) => match d.checked_rem(bounds) {
                Some(v) => v,
                None => {
                    return Err(Error::Overflow);
                },
            },
            None => {
                return Err(Error::Overflow);
            },
        };
        Ok(PairExpansion { origin_site: origin_site.to_reduced_site(), vec, expansion, is_ab_pair })
    }

    /// How many ordered pairs of positions of one unit cell belong to the
    /// class: the number of positions in the orbit of the origin, times the
    /// number of positions that pair with the origin, times two when the ends
    /// belong to another site. `None` exactly when that number does not fit
    /// the integer type.
    pub fn multiplicity(&self) -> (r: Option<usize>)
        ensures
            match r {
                Some(m) => m == pair_multiplicity(self@),
                None => pair_multiplicity(self@) > usize::MAX,
            },
    {
        let a = self.origin_site.multiplicity();
        let b = self.expansion.len();
        let factor: usize = if self.is_ab_pair {
            2
        } else {
            1
        };
        proof {
            assert(a * b >= 0 && (a * b > usize::MAX ==> a * b * factor > usize::MAX))
                by (nonlinear_arith)
                requires
                    a >= 0,
                    b >= 0,
                    factor >= 1,
            ;
        }
        match a.checked_mul(b) {
            Some(ab) => ab.checked_mul(factor),
            None => None,
        }
    }
}

/// The multiplicity of a pair class: the size of the orbit of its origin,
/// times the number of positions that pair with the origin, doubled when the
/// ends belong to another site.
pub open spec fn pair_multiplicity(c: PairClass) -> int {
    c.origin_multiplicity * c.expansion.len() * if c.is_ab_pair {
        2int
    } else {
        1int
    }
}

/// The image of `position` in the unit cell lies in the orbit of one of the
/// sites.
pub open spec fn in_some_orbit(sites: Seq<SiteView>, position: Pos3) -> bool {
    exists|i: int| 0 <= i < sites.len() && in_orbit((#[trigger] sites[i]).orbit, position)
}

/// Whether the image of `position` in the unit cell lies in the orbit of one
/// of the sites.
pub fn contains_position(sites: &Vec<Site>, position: Pos3) -> (r: bool)
    ensures
        r == in_some_orbit(site_views(sites@), position),
{
    let mut k: usize = 0;
    while k < sites.len()
        invariant
            k <= sites.len(),
            forall|i: int| 0 <= i < k ==> !in_orbit((#[trigger] site_views(sites@)[i]).orbit, position),
        decreases sites.len() - k,
    {
        if sites[k].contains_pos(position) {
            proof {
                assert(in_orbit(site_views(sites@)[k as int].orbit, position));
            }
            return true;
        }
        k += 1;
    }
    false
}

/// Whether one of the classes starts at `origin_position` and pairs it with
/// `end_position`.
pub fn contains_pair(expansions: &Vec<PairExpansion>, origin_position: Pos3, end_position: Pos3) -> (r:
    bool)
    ensures
        r == covered(class_views(expansions@), origin_position, end_position),
{
    let mut k: usize = 0;
    while k < expansions.len()
        invariant
            k <= expansions.len(),
            forall|j: int|
                0 <= j < k ==> !((#[trigger] class_views(expansions@)[j]).origin == origin_position
                    && class_views(expansions@)[j].expansion.contains(end_position)),
        decreases expansions.len() - k,
    {
        if expansions[k].contains_pair(origin_position, end_position) {
            proof {
                assert(class_views(expansions@)[k as int] == expansions@[k as int]@);
            }
            return true;
        }
        k += 1;
    }
    false
}

/// The classes of the pairs that lead from `origin` to the positions
/// `targets[k..]`, after the classes `acc`: a position that one of the classes
/// so far already pairs with `origin` is skipped, every other one starts a new
/// class. `None` when an exact intermediate result cannot be stored.
pub open spec fn site_pairs_from(
    acc: Seq<PairClass>,
    targets: Seq<Pos3>,
    k: int,
    origin: Pos3,
    orbit: Seq<Pos3>,
    group: Seq<Isometry>,
    bounds: Bounds3,
) -> Option<Seq<PairClass>>
    decreases targets.len() - k,
{
    if k < 0 || k >= targets.len() {
        Some(acc)
    } else if covered(acc, origin, targets[k]) {
        site_pairs_from(acc, targets, k + 1, origin, orbit, group, bounds)
    } else {
        match class_of(origin, orbit, targets[k], group, bounds) {
            Some(c) => site_pairs_from(acc.push(c), targets, k + 1, origin, orbit, group, bounds),
            None => None,
        }
    }
}

/// The classes of the pairs that lead from the representative of one site to
/// the positions of another in the supercell. `None` when an exact
/// intermediate result cannot be stored.
pub open spec fn site_pair_classes(
    from: SiteView,
    to: SiteView,
    group: Seq<Isometry>,
    bounds: Bounds3,
) -> Option<Seq<PairClass>> {
    match expand(to.orbit, bounds) {
        Some(targets) => site_pairs_from(
            Seq::empty(),
            targets,
            0,
            from.position,
            from.orbit,
            group,
            bounds,
        ),
        None => None,
    }
}

/// The classes of the pairs that lead from the representative of `site_1` to
/// the positions of `site_2` in the supercell, as [`site_pair_classes`]
/// describes them; [`Error::Overflow`] when an exact intermediate result
/// cannot be stored.
pub fn construct_site_pairs(
    site_1: &Site,
    site_2: &Site,
    bounds: Bounds3,
    group: &IsometryGroup,
) -> (r: Result<Vec<PairExpansion>, Error>)
    ensures
        match r {
            Ok(v) => Some(class_views(v@)) == site_pair_classes(site_1@, site_2@, group@, bounds),
            Err(e) => e == Error::Overflow && site_pair_classes(site_1@, site_2@, group@, bounds)
                is None,
        },
{
    let origin_position = site_1.position();
    let targets = match site_2.orbit_in_bounds(bounds).collect() {
        Some(t) => t,
        None => {
            return Err(Error::Overflow);
        },
    };
    let mut out: Vec<PairExpansion> = Vec::new();
    let mut k: usize = 0;
    proof {
        assert(class_views(out@) =~= Seq::empty());
    }
    while k < targets.len()
        invariant
            k <= targets.len(),
            origin_position == site_1@.position,
            expand(site_2@.orbit, bounds) == Some(targets@),
            site_pairs_from(
                class_views(out@),
                targets@,
                k as int,
                origin_position,
                site_1@.orbit,
                group@,
                bounds,
            ) == site_pairs_from(
                Seq::empty(),
                targets@,
                0,
                origin_position,
                site_1@.orbit,
                group@,
                bounds,
            ),
        decreases targets.len() - k,
    {
        let pos = targets[k];
        if !contains_pair(&out, origin_position, pos) {
            let ghost before = out@;
            match PairExpansion::from_positions(site_1, pos, group, bounds) {
                Ok(pe) => {
                    out.push(pe);
                    proof {
                        assert(class_views(out@) =~= class_views(before).push(pe@));
                    }
                },
                Err(e) => {
                    return Err(e);
                },
            }
        }
        k += 1;
    }
    Ok(out)
}

/// The positions `positions[k..]`, each reduced into the unit cell, after
/// `acc`. `None` when a reduced position cannot be stored.
pub open spec fn reduce_all_from(acc: Seq<Pos3>, positions: Seq<Pos3>, k: int) -> Option<Seq<Pos3>>
    decreases positions.len() - k,
{
    if k < 0 || k >= positions.len() {
        Some(acc)
    } else {
        match positions[k].checked_rem(Bounds3::unit()) {
            Some(p) => reduce_all_from(acc.push(p), positions, k + 1),
            None => None,
        }
    }
}

/// The sites of the positions `positions[k..]` under `group`, after the sites
/// `acc`: a position that lies in the orbit of a site so far is skipped, every
/// other one starts a new site. A site that is refused ends the work.
pub open spec fn sites_from(
    acc: Seq<SiteView>,
    positions: Seq<Pos3>,
    k: int,
    group: Seq<Isometry>,
) -> Result<Seq<SiteView>, Error>
    decreases positions.len() - k,
{
    if k < 0 || k >= positions.len() {
        Ok(acc)
    } else if in_some_orbit(acc, positions[k]) {
        sites_from(acc, positions, k + 1, group)
    } else {
        match site_of(group, positions[k]) {
            Ok(s) => sites_from(acc.push(s), positions, k + 1, group),
            Err(e) => Err(e),
        }
    }
}

/// The classes of the pairs within each of the sites `sites[i..]`, after
/// `acc`. `None` when an exact intermediate result cannot be stored.
pub open spec fn same_site_from(
    acc: Seq<PairClass>,
    sites: Seq<SiteView>,
    i: int,
    group: Seq<Isometry>,
    bounds: Bounds3,
) -> Option<Seq<PairClass>>
    decreases sites.len() - i,
{
    if i < 0 || i >= sites.len() {
        Some(acc)
    } else {
        match site_pair_classes(sites[i], sites[i], group, bounds) {
            Some(c) => same_site_from(acc + c, sites, i + 1, group, bounds),
            None => None,
        }
    }
}

/// The classes of the pairs between two different sites, for the pairs of
/// sites from `(i, j)` on in the order `(0, 1), (0, 2), .., (1, 2), ..`, after
/// `acc`. `None` when an exact intermediate result cannot be stored.
pub open spec fn cross_from(
    acc: Seq<PairClass>,
    sites: Seq<SiteView>,
    i: int,
    j: int,
    group: Seq<Isometry>,
    bounds: Bounds3,
) -> Option<Seq<PairClass>>
    decreases sites.len() - i, sites.len() - j,
{
    if i < 0 || i >= sites.len() {
        Some(acc)
    } else if j <= i || j >= sites.len() {
        cross_from(acc, sites, i + 1, i + 2, group, bounds)
    } else {
        match site_pair_classes(sites[i], sites[j], group, bounds) {
            Some(c) => cross_from(acc + c, sites, i, j + 1, group, bounds),
            None => None,
        }
    }
}

/// The classes of symmetry-equivalent pairs among the given positions.
///
/// The positions are reduced into the unit cell and gathered into sites, one
/// for each orbit, in the order in which the orbits first come up. Then
/// follow, site by site, the classes of the pairs within a site, and, where
/// `construct_ab_pairs` asks for them, those of the pairs between two
/// different sites. A site that is refused ends the work with its error;
/// [`Error::Overflow`] tells that an exact intermediate result cannot be
/// stored.
pub open spec fn pairs_of(
    group: Seq<Isometry>,
    positions: Seq<Pos3>,
    bounds: Bounds3,
    construct_ab_pairs: bool,
) -> Result<Seq<PairClass>, Error> {
    match reduce_all_from(Seq::empty(), positions, 0) {
        None => Err(Error::Overflow),
        Some(reduced) => match sites_from(Seq::empty(), reduced, 0, group) {
            Err(e) => Err(e),
            Ok(sites) => match same_site_from(Seq::empty(), sites, 0, group, bounds) {
                None => Err(Error::Overflow),
                Some(same) => if construct_ab_pairs {
                    match cross_from(same, sites, 0, 1, group, bounds) {
                        None => Err(Error::Overflow),
                        Some(all) => Ok(all),
                    }
                } else {
                    Ok(same)
                },
            },
        },
    }
}

/// The classes of symmetry-equivalent pairs among `positions` under `group`
/// in the supercell `bounds`, as [`pairs_of`] describes them.
pub fn calculate_pairs(
    group: IsometryGroup,
    positions: Vec<Pos3>,
    bounds: Bounds3,
    construct_ab_pairs: bool,
) -> (r: Result<Vec<PairExpansion>, Error>)
    ensures
        pairs_of(group@, positions@, bounds, construct_ab_pairs) == (match r {
            Ok(v) => Ok::<Seq<PairClass>, Error>(class_views(v@)),
            Err(e) => Err(e),
        }),
{
    let mut reduced: Vec<Pos3> = Vec::new();
    let mut k: usize = 0;
    while k < positions.len()
        invariant
            k <= positions.len(),
            reduce_all_from(reduced@, positions@, k as int) == reduce_all_from(
                Seq::empty(),
                positions@,
                0,
            ),
        decreases positions.len() - k,
    {
        match positions[k].checked_rem(Bounds3::unit()) {
            Some(p) => {
                reduced.push(p);
            },
            None => {
                return Err(Error::Overflow);
            },
        }
        k += 1;
    }
    let mut sites: Vec<Site> = Vec::new();
    let mut k: usize = 0;
    proof {
        assert(site_views(sites@) =~= Seq::empty());
    }
    while k < reduced.len()
        invariant
            k <= reduced.len(),
            reduce_all_from(Seq::empty(), positions@, 0) == Some(reduced@),
            sites_from(site_views(sites@), reduced@, k as int, group@) == sites_from(
                Seq::empty(),
                reduced@,
                0,
                group@,
            ),
        decreases reduced.len() - k,
    {
        let pos = reduced[k];
        if !contains_position(&sites, pos) {
            let ghost before = sites@;
            match Site::new(&group, pos) {
                Ok(site) => {
                    sites.push(site);
                    proof {
                        assert(site_views(sites@) =~= site_views(before).push(site@));
                    }
                },
                Err(e) => {
                    return Err(e);
                },
            }
        }
        k += 1;
    }
    let mut expansions: Vec<PairExpansion> = Vec::new();
    let mut i: usize = 0;
    proof {
        assert(class_views(expansions@) =~= Seq::empty());
    }
    while i < sites.len()
        invariant
            i <= sites.len(),
            reduce_all_from(Seq::empty(), positions@, 0) == Some(reduced@),
            sites_from(Seq::empty(), reduced@, 0, group@) == Ok::<Seq<SiteView>, Error>(
                site_views(sites@),
            ),
            same_site_from(class_views(expansions@), site_views(sites@), i as int, group@, bounds)
                == same_site_from(Seq::empty(), site_views(sites@), 0, group@, bounds),
        decreases sites.len() - i,
    {
        let ghost before = expansions@;
        match construct_site_pairs(&sites[i], &sites[i], bounds, &group) {
            Ok(mut found) => {
                let ghost added = found@;
                expansions.append(&mut found);
                proof {
                    assert(class_views(expansions@) =~= class_views(before) + class_views(added));
                }
            },
            Err(e) => {
                return Err(e);
            },
        }
        i += 1;
    }
    if construct_ab_pairs {
        let ghost same = class_views(expansions@);
        let mut i: usize = 0;
        while i < sites.len()
            invariant
                i <= sites.len(),
                construct_ab_pairs,
                reduce_all_from(Seq::empty(), positions@, 0) == Some(reduced@),
                sites_from(Seq::empty(), reduced@, 0, group@) == Ok::<Seq<SiteView>, Error>(
                    site_views(sites@),
                ),
                same_site_from(Seq::empty(), site_views(sites@), 0, group@, bounds) == Some(same),
                cross_from(
                    class_views(expansions@),
                    site_views(sites@),
                    i as int,
                    i + 1,
                    group@,
                    bounds,
                ) == cross_from(same, site_views(sites@), 0, 1, group@, bounds),
            decreases sites.len() - i,
        {
            let mut j: usize = i + 1;
            while j < sites.len()
                invariant
                    i < sites.len(),
                    i < j <= sites.len(),
                    construct_ab_pairs,
                    reduce_all_from(Seq::empty(), positions@, 0) == Some(reduced@),
                    sites_from(Seq::empty(), reduced@, 0, group@) == Ok::<Seq<SiteView>, Error>(
                        site_views(sites@),
                    ),
                    same_site_from(Seq::empty(), site_views(sites@), 0, group@, bounds) == Some(
                        same,
                    ),
                    cross_from(
                        class_views(expansions@),
                        site_views(sites@),
                        i as int,
                        j as int,
                        group@,
                        bounds,
                    ) == cross_from(same, site_views(sites@), 0, 1, group@, bounds),
                decreases sites.len() - j,
            {
                let ghost before = expansions@;
                match construct_site_pairs(&sites[i], &sites[j], bounds, &group) {
                    Ok(mut found) => {
                        let ghost added = found@;
                        expansions.append(&mut found);
                        proof {
                            assert(class_views(expansions@) =~= class_views(before) + class_views(
                                added,
                            ));
                        }
                    },
                    Err(e) => {
                        return Err(e);
                    },
                }
                j += 1;
            }
            i += 1;
        }
    }
    Ok(expansions)
}

/// `text` after as many spaces as it takes to fill `width` characters.
pub open spec fn padded(text: Seq<char>, width: nat) -> Seq<char> {
    if text.len() < width {
        Seq::new((width - text.len()) as nat, |i: int| ' ') + text
    } else {
        text
    }
}

/// One line of the table of pair classes: three columns, right-aligned to 20,
/// 20 and 12 characters, with `, ` between them.
pub open spec fn table_row(a: Seq<char>, b: Seq<char>, c: Seq<char>) -> Seq<char> {
    padded(a, 20) + seq![',', ' '] + padded(b, 20) + seq![',', ' '] + padded(c, 12)
}

/// The three texts of a pair class: the origin, the connecting vector and the
/// multiplicity. `None` when the multiplicity does not fit the integer type.
pub open spec fn class_texts(c: PairClass) -> Option<(Seq<char>, Seq<char>, Seq<char>)> {
    if pair_multiplicity(c) <= usize::MAX {
        Some(
            (
                triple_text(c.origin.x, c.origin.y, c.origin.z),
                triple_text(c.vector.x, c.vector.y, c.vector.z),
                decimal_nat(pair_multiplicity(c) as nat),
            ),
        )
    } else {
        None
    }
}

/// The table with one line more for each of the classes `classes[k..]`, after
/// `out`. `None` when a multiplicity does not fit the integer type.
pub open spec fn table_from(out: Seq<char>, classes: Seq<PairClass>, k: int) -> Option<Seq<char>>
    decreases classes.len() - k,
{
    if k < 0 || k >= classes.len() {
        Some(out)
    } else {
        match class_texts(classes[k]) {
            Some((a, b, c)) => table_from(out + seq!['\n'] + table_row(a, b, c), classes, k + 1),
            None => None,
        }
    }
}

/// The table of the pair classes: a heading, then one line for each class with
/// its origin, its connecting vector and its multiplicity.
pub open spec fn table_text(classes: Seq<PairClass>) -> Option<Seq<char>> {
    table_from(table_row("Origin"@, "Vector"@, "Multiplicity"@), classes, 0)
}

/// Appends `text`, right-aligned to `width` characters.
fn append_padded(out: &mut String, text: &str, width: usize)
    ensures
        final(out)@ == old(out)@ + padded(text@, width as nat),
{
    let len = text.unicode_len();
    if len < width {
        let mut k: usize = 0;
        let ghost start = out@;
        while k < width - len
            invariant
                len < width,
                k <= width - len,
                out@ == start + Seq::new(k as nat, |i: int| ' '),
            decreases width - len - k,
        {
            proof {
                reveal_strlit(" ");
            }
            let ghost before = out@;
            out.append(" ");
            proof {
                assert(out@ =~= start + Seq::new((k + 1) as nat, |i: int| ' '));
            }
            k += 1;
        }
    }
    out.append(text);
    proof {
        assert(final(out)@ =~= old(out)@ + padded(text@, width as nat));
    }
}

/// Appends one line of the table.
fn append_table_row(out: &mut String, a: &str, b: &str, c: &str)
    ensures
        final(out)@ == old(out)@ + table_row(a@, b@, c@),
{
    proof {
        reveal_strlit(", ");
    }
    append_padded(out, a, 20);
    out.append(", ");
    append_padded(out, b, 20);
    out.append(", ");
    append_padded(out, c, 12);
    proof {
        assert(final(out)@ =~= old(out)@ + table_row(a@, b@, c@));
    }
}

impl PairExpansion {
    /// The representative and the multiplicity of the site at which the pairs
    /// start.
    pub fn origin_site(&self) -> (r: ReducedSite)
        ensures
            r.position() == self@.origin,
            r.multiplicity() == self@.origin_multiplicity,
    {
        self.origin_site
    }

    /// The shortest displacement from the origin to the end of the pair.
    pub fn vector(&self) -> (r: Vec3)
        ensures
            r == self@.vector,
    {
        self.vec
    }

    /// The distinct positions of the supercell that pair with the origin.
    pub fn expansion(&self) -> (r: &[Pos3])
        ensures
            r@ == self@.expansion,
    {
        self.expansion.as_slice()
    }

    /// Whether the end of the pair belongs to another site than the origin.
    pub fn is_ab_pair(&self) -> (r: bool)
        ensures
            r == self@.is_ab_pair,
    {
        self.is_ab_pair
    }

    /// The origin, the connecting vector and the multiplicity of the class as
    /// texts; `None` exactly when the multiplicity does not fit the integer
    /// type.
    pub fn to_string(&self) -> (r: Option<(String, String, String)>)
        ensures
            match r {
                Some((a, b, c)) => class_texts(self@) == Some((a@, b@, c@)),
                None => class_texts(self@) is None,
            },
    {
        match self.multiplicity() {
            Some(m) => {
                let mut c = String::new();
                append_nat(&mut c, m as u64);
                proof {
                    assert(c@ =~= decimal_nat(m as nat));
                }
                Some((self.origin_site.position.to_string(), self.vec.to_string(), c))
            },
            None => None,
        }
    }
}

/// The table of the pair classes, as [`table_text`] describes it; `None`
/// exactly when a multiplicity does not fit the integer type.
pub fn produce_output_string(expansions: &Vec<PairExpansion>) -> (r: Option<String>)
    ensures
        match r {
            Some(text) => table_text(class_views(expansions@)) == Some(text@),
            None => table_text(class_views(expansions@)) is None,
        },
{
    let mut out = String::new();
    append_table_row(&mut out, "Origin", "Vector", "Multiplicity");
    proof {
        assert(out@ =~= table_row("Origin"@, "Vector"@, "Multiplicity"@));
    }
    let mut k: usize = 0;
    while k < expansions.len()
        invariant
            k <= expansions.len(),
            table_from(out@, class_views(expansions@), k as int) == table_text(
                class_views(expansions@),
            ),
        decreases expansions.len() - k,
    {
        match expansions[k].to_string() {
            Some((a, b, c)) => {
                proof {
                    reveal_strlit("\n");
                }
                let ghost before = out@;
                out.append("\n");
                append_table_row(&mut out, a.as_str(), b.as_str(), c.as_str());
                proof {
                    assert(class_views(expansions@)[k as int] == expansions@[k as int]@);
                    assert("\n"@ =~= seq!['\n']);
                    assert(out@ =~= before + seq!['\n'] + table_row(a@, b@, c@));
                }
            },
            None => {
                proof {
                    assert(class_views(expansions@)[k as int] == expansions@[k as int]@);
                }
                return None;
            },
        }
        k += 1;
    }
    Some(out)
}

} // verus!
