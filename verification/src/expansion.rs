//! The images of the stored representatives under the lattice translations
//! of a supercell.
use vstd::prelude::*;
use crate::affine_space::{Bounds3, Pos3, Vec3};
use crate::reals::Real3;
use crate::symmetry::Isometry;

verus! {

/// Something that can be moved by a lattice translation and reduced into a
/// supercell.
pub trait Periodic: Copy {
    /// What `shifted` answers.
    spec fn spec_shifted(self, x: int, y: int, z: int, bounds: Bounds3) -> Option<Self>;

    /// `self` moved by the lattice translation `(x, y, z)` and reduced into
    /// the supercell, where that can be stored.
    fn shifted(self, x: i32, y: i32, z: i32, bounds: Bounds3) -> (r: Option<Self>)
        ensures
            r == self.spec_shifted(x as int, y as int, z as int, bounds),
    ;
}

impl Periodic for Isometry {
    /// The operation followed by the translation, its translation part
    /// reduced into `(-bound/2, bound/2]`.
    open spec fn spec_shifted(self, x: int, y: int, z: int, bounds: Bounds3) -> Option<Isometry> {
        match Vec3::checked(Real3 { x: x as real, y: y as real, z: z as real }) {
            Some(v) => match self.checked_translate(v) {
                Some(t) => t.checked_rem(bounds),
                None => None,
            },
            None => None,
        }
    }

    fn shifted(self, x: i32, y: i32, z: i32, bounds: Bounds3) -> (r: Option<Isometry>) {
        let v = Vec3::from_ints(x, y, z);
        proof {
            Vec3::lemma_checked_some(v, v@);
        }
        match self.checked_translate(v) {
            Some(t) => t.checked_rem(bounds),
            None => None,
        }
    }
}

impl Periodic for Pos3 {
    /// The position moved by the translation, reduced into `[0, bound)`.
    open spec fn spec_shifted(self, x: int, y: int, z: int, bounds: Bounds3) -> Option<Pos3> {
        match Vec3::checked(Real3 { x: x as real, y: y as real, z: z as real }) {
            Some(v) => match self.checked_add(v) {
                Some(t) => t.checked_rem(bounds),
                None => None,
            },
            None => None,
        }
    }

    fn shifted(self, x: i32, y: i32, z: i32, bounds: Bounds3) -> (r: Option<Pos3>) {
        let v = Vec3::from_ints(x, y, z);
        proof {
            Vec3::lemma_checked_some(v, v@);
        }
        match self.checked_add(v) {
            Some(t) => t.checked_rem(bounds),
            None => None,
        }
    }
}

/// Where the image of item `i` under the translation `(x, y, z)` stands in the
/// expansion: the items follow each other, and for each item the translations
/// in lexicographic order.
pub open spec fn slot(bounds: Bounds3, i: int, x: int, y: int, z: int) -> int {
    ((i * bounds.x() + x) * bounds.y() + y) * bounds.z() + z
}

/// `(i, x, y, z)` names an item and a lattice translation of the supercell.
pub open spec fn in_cell(n: int, bounds: Bounds3, i: int, x: int, y: int, z: int) -> bool {
    0 <= i < n && 0 <= x < bounds.x() && 0 <= y < bounds.y() && 0 <= z < bounds.z()
}

/// `(i, x, y, z)` comes before `(i2, x2, y2, z2)` in the expansion.
pub open spec fn before(i: int, x: int, y: int, z: int, i2: int, x2: int, y2: int, z2: int) -> bool {
    i < i2 || (i == i2 && (x < x2 || (x == x2 && (y < y2 || (y == y2 && z < z2)))))
}

/// The slot of `(i, x, y, z)` in `out` holds the image of item `i` under the
/// translation `(x, y, z)`.
pub open spec fn filled<T: Periodic>(
    out: Seq<T>,
    items: Seq<T>,
    bounds: Bounds3,
    i: int,
    x: int,
    y: int,
    z: int,
) -> bool {
    0 <= slot(bounds, i, x, y, z) < out.len() && items[i].spec_shifted(x, y, z, bounds) == Some(
        out[slot(bounds, i, x, y, z)],
    )
}

/// The images of a list of items under the lattice translations of a
/// supercell.
pub struct IsometryIter<'a, T: Periodic> {
    items: &'a [T],
    bounds: Bounds3,
}

impl<'a, T: Periodic> IsometryIter<'a, T> {
    /// The items that are expanded.
    pub closed spec fn items(&self) -> Seq<T> {
        self.items@
    }

    /// The supercell.
    pub closed spec fn bounds(&self) -> Bounds3 {
        self.bounds
    }

    /// The expansion of `symmetries` over the supercell `bounds`.
    pub fn new(symmetries: &'a [T], bounds: Bounds3) -> (r: Self)
        ensures
            r.items() == symmetries@,
            r.bounds() == bounds,
    {
        IsometryIter { items: symmetries, bounds }
    }

    /// The whole expansion: for each item in turn, its images under the
    /// lattice translations `(x, y, z)` with `0 <= x < bounds.x()`, and so on,
    /// in lexicographic order. `None` exactly when one of the images cannot
    /// be stored.
    pub fn collect(&self) -> (r: Option<Vec<T>>)
        ensures
            r is Some <==> expand(self.items(), self.bounds()) is Some,
            r matches Some(v) ==> Some(v@) == expand(self.items(), self.bounds()),
            match r {
                Some(v) => {
                    &&& v@.len() == self.items().len() * self.bounds().spec_volume()
                    &&& forall|i: int, x: int, y: int, z: int|
                        in_cell(self.items().len() as int, self.bounds(), i, x, y, z)
                            ==> #[trigger] filled(v@, self.items(), self.bounds(), i, x, y, z)
                },
                None => exists|i: int, x: int, y: int, z: int|
                    in_cell(self.items().len() as int, self.bounds(), i, x, y, z)
                        && (#[trigger] self.items()[i].spec_shifted(x, y, z, self.bounds()))
                        is None,
            },
    {
        let bounds = self.bounds;
        let items = self.items;
        let n = items.len();
        let nx = bounds.x();
        let ny = bounds.y();
        let nz = bounds.z();
        let mut out: Vec<T> = Vec::new();
        let mut i: usize = 0;
        proof {
            assert(slot(bounds, 0, 0, 0, 0) == 0) by (nonlinear_arith)
                requires
                    slot(bounds, 0, 0, 0, 0) == ((0 * bounds.x() + 0) * bounds.y() + 0) * bounds.z()
                        + 0,
            ;
        }
        while i < n
            invariant
                i <= n,
                n == items@.len(),
                items@ == self.items() && bounds == self.bounds(),
                nx == bounds.x() && ny == bounds.y() && nz == bounds.z(),
                nx > 0 && ny > 0 && nz > 0,
                out@.len() == slot(bounds, i as int, 0, 0, 0),
                forall|i2: int, x2: int, y2: int, z2: int|
                    in_cell(n as int, bounds, i2, x2, y2, z2) && before(
                        i2,
                        x2,
                        y2,
                        z2,
                        i as int,
                        0,
                        0,
                        0,
                    ) ==> #[trigger] filled(out@, items@, bounds, i2, x2, y2, z2),
            decreases n - i,
        {
            let item = items[i];
            let mut x: i32 = 0;
            while x < nx
                invariant
                    i < n,
                    n == items@.len(),
                items@ == self.items() && bounds == self.bounds(),
                    items@ == self.items() && bounds == self.bounds(),
                    item == items@[i as int],
                    0 <= x <= nx,
                    nx == bounds.x() && ny == bounds.y() && nz == bounds.z(),
                    nx > 0 && ny > 0 && nz > 0,
                    out@.len() == slot(bounds, i as int, x as int, 0, 0),
                    forall|i2: int, x2: int, y2: int, z2: int|
                        in_cell(n as int, bounds, i2, x2, y2, z2) && before(
                            i2,
                            x2,
                            y2,
                            z2,
                            i as int,
                            x as int,
                            0,
                            0,
                        ) ==> #[trigger] filled(out@, items@, bounds, i2, x2, y2, z2),
                decreases nx - x,
            {
                let mut y: i32 = 0;
                while y < ny
                    invariant
                        i < n,
                        n == items@.len(),
                items@ == self.items() && bounds == self.bounds(),
                        items@ == self.items() && bounds == self.bounds(),
                    items@ == self.items() && bounds == self.bounds(),
                        item == items@[i as int],
                        0 <= x < nx,
                        0 <= y <= ny,
                        nx == bounds.x() && ny == bounds.y() && nz == bounds.z(),
                        nx > 0 && ny > 0 && nz > 0,
                        out@.len() == slot(bounds, i as int, x as int, y as int, 0),
                        forall|i2: int, x2: int, y2: int, z2: int|
                            in_cell(n as int, bounds, i2, x2, y2, z2) && before(
                                i2,
                                x2,
                                y2,
                                z2,
                                i as int,
                                x as int,
                                y as int,
                                0,
                            ) ==> #[trigger] filled(out@, items@, bounds, i2, x2, y2, z2),
                    decreases ny - y,
                {
                    let mut z: i32 = 0;
                    while z < nz
                        invariant
                            i < n,
                            n == items@.len(),
                items@ == self.items() && bounds == self.bounds(),
                            items@ == self.items() && bounds == self.bounds(),
                        items@ == self.items() && bounds == self.bounds(),
                    items@ == self.items() && bounds == self.bounds(),
                            item == items@[i as int],
                            0 <= x < nx,
                            0 <= y < ny,
                            0 <= z <= nz,
                            nx == bounds.x() && ny == bounds.y() && nz == bounds.z(),
                            nx > 0 && ny > 0 && nz > 0,
                            out@.len() == slot(bounds, i as int, x as int, y as int, z as int),
                            forall|i2: int, x2: int, y2: int, z2: int|
                                in_cell(n as int, bounds, i2, x2, y2, z2) && before(
                                    i2,
                                    x2,
                                    y2,
                                    z2,
                                    i as int,
                                    x as int,
                                    y as int,
                                    z as int,
                                ) ==> #[trigger] filled(out@, items@, bounds, i2, x2, y2, z2),
                        decreases nz - z,
                    {
                        let ghost old_out = out@;
                        match item.shifted(x, y, z, bounds) {
                            Some(e) => {
                                out.push(e);
                            },
                            None => {
                                proof {
                                    assert(in_cell(
                                        n as int,
                                        bounds,
                                        i as int,
                                        x as int,
                                        y as int,
                                        z as int,
                                    ));
                                    assert(self.items()[i as int].spec_shifted(
                                        x as int,
                                        y as int,
                                        z as int,
                                        self.bounds(),
                                    ) is None);
                                    assert forall|v: Seq<T>|
                                        !is_expansion(v, self.items(), self.bounds()) by {
                                        if is_expansion(v, self.items(), self.bounds()) {
                                            assert(filled(
                                                v,
                                                self.items(),
                                                self.bounds(),
                                                i as int,
                                                x as int,
                                                y as int,
                                                z as int,
                                            ));
                                        }
                                    }
                                }
                                return None;
                            },
                        }
                        proof {
                            assert forall|i2: int, x2: int, y2: int, z2: int|
                                in_cell(n as int, bounds, i2, x2, y2, z2) && before(
                                    i2,
                                    x2,
                                    y2,
                                    z2,
                                    i as int,
                                    x as int,
                                    y as int,
                                    z + 1,
                                ) implies #[trigger] filled(
                                out@,
                                items@,
                                bounds,
                                i2,
                                x2,
                                y2,
                                z2,
                            ) by {
                                if before(i2, x2, y2, z2, i as int, x as int, y as int, z as int) {
                                    assert(filled(old_out, items@, bounds, i2, x2, y2, z2));
                                } else {
                                    assert(i2 == i && x2 == x && y2 == y && z2 == z);
                                }
                            }
                        }
                        z += 1;
                    }
                    proof {
                        assert(slot(bounds, i as int, x as int, y as int, nz as int) == slot(
                            bounds,
                            i as int,
                            x as int,
                            y + 1,
                            0,
                        )) by (nonlinear_arith)
                            requires
                                slot(bounds, i as int, x as int, y as int, nz as int) == ((i
                                    * bounds.x() + x) * bounds.y() + y) * bounds.z() + nz,
                                slot(bounds, i as int, x as int, y + 1, 0) == ((i * bounds.x() + x)
                                    * bounds.y() + (y + 1)) * bounds.z() + 0,
                                nz == bounds.z(),
                        ;
                    }
                    y += 1;
                }
                proof {
                    assert(slot(bounds, i as int, x as int, ny as int, 0) == slot(
                        bounds,
                        i as int,
                        x + 1,
                        0,
                        0,
                    )) by (nonlinear_arith)
                        requires
                            slot(bounds, i as int, x as int, ny as int, 0) == ((i * bounds.x() + x)
                                * bounds.y() + ny) * bounds.z() + 0,
                            slot(bounds, i as int, x + 1, 0, 0) == ((i * bounds.x() + (x + 1))
                                * bounds.y() + 0) * bounds.z() + 0,
                            ny == bounds.y(),
                    ;
                }
                x += 1;
            }
            proof {
                assert(slot(bounds, i as int, nx as int, 0, 0) == slot(bounds, i + 1, 0, 0, 0))
                    by (nonlinear_arith)
                    requires
                        slot(bounds, i as int, nx as int, 0, 0) == ((i * bounds.x() + nx)
                            * bounds.y() + 0) * bounds.z() + 0,
                        slot(bounds, i + 1, 0, 0, 0) == (((i + 1) * bounds.x() + 0) * bounds.y()
                            + 0) * bounds.z() + 0,
                        nx == bounds.x(),
                ;
            }
            i += 1;
        }
        proof {
            assert(slot(bounds, n as int, 0, 0, 0) == n * bounds.spec_volume()) by (nonlinear_arith)
                requires
                    slot(bounds, n as int, 0, 0, 0) == ((n * bounds.x() + 0) * bounds.y() + 0)
                        * bounds.z() + 0,
                    bounds.spec_volume() == bounds.x() * bounds.y() * bounds.z(),
            ;
        }
        proof {
            use_type_invariant(bounds);
            assert(is_expansion(out@, self.items(), self.bounds()));
            lemma_expansion_unique(
                out@,
                expand(self.items(), self.bounds()).unwrap(),
                self.items(),
                self.bounds(),
            );
        }
        Some(out)
    }
}

/// `v` lists the images of `items` under the lattice translations of the
/// supercell, slot by slot.
pub open spec fn is_expansion<T: Periodic>(v: Seq<T>, items: Seq<T>, bounds: Bounds3) -> bool {
    &&& v.len() == items.len() * bounds.spec_volume()
    &&& forall|i: int, x: int, y: int, z: int|
        in_cell(items.len() as int, bounds, i, x, y, z) ==> #[trigger] filled(
            v,
            items,
            bounds,
            i,
            x,
            y,
            z,
        )
}

/// The images of `items` under the lattice translations of the supercell, the
/// items in their order and for each the translations in lexicographic
/// order; `None` when one of the images cannot be stored.
pub open spec fn expand<T: Periodic>(items: Seq<T>, bounds: Bounds3) -> Option<Seq<T>> {
    if exists|v: Seq<T>| is_expansion(v, items, bounds) {
        Some(choose|v: Seq<T>| is_expansion(v, items, bounds))
    } else {
        None
    }
}

/// Every slot below `n * volume` belongs to one item and one translation.
pub proof fn lemma_slot_onto(bounds: Bounds3, n: int, k: int)
    requires
        bounds.wf(),
        0 <= k < n * bounds.spec_volume(),
    ensures
        exists|i: int, x: int, y: int, z: int|
            in_cell(n, bounds, i, x, y, z) && #[trigger] slot(bounds, i, x, y, z) == k,
{
    let nx = bounds.x() as int;
    let ny = bounds.y() as int;
    let nz = bounds.z() as int;
    let z = k % nz;
    let r1 = k / nz;
    let y = r1 % ny;
    let r2 = r1 / ny;
    let x = r2 % nx;
    let i = r2 / nx;
    vstd::arithmetic::div_mod::lemma_fundamental_div_mod(k, nz);
    vstd::arithmetic::div_mod::lemma_fundamental_div_mod(r1, ny);
    vstd::arithmetic::div_mod::lemma_fundamental_div_mod(r2, nx);
    vstd::arithmetic::div_mod::lemma_mod_bound(k, nz);
    vstd::arithmetic::div_mod::lemma_mod_bound(r1, ny);
    vstd::arithmetic::div_mod::lemma_mod_bound(r2, nx);
    assert(r1 >= 0 && r2 >= 0 && i >= 0) by (nonlinear_arith)
        requires
            k >= 0,
            nz > 0,
            ny > 0,
            nx > 0,
            k == nz * r1 + z,
            0 <= z < nz,
            r1 == ny * r2 + y,
            0 <= y < ny,
            r2 == nx * i + x,
            0 <= x < nx,
    ;
    assert(slot(bounds, i, x, y, z) == k) by (nonlinear_arith)
        requires
            slot(bounds, i, x, y, z) == ((i * nx + x) * ny + y) * nz + z,
            k == nz * r1 + z,
            r1 == ny * r2 + y,
            r2 == nx * i + x,
    ;
    assert(i < n) by (nonlinear_arith)
        requires
            k < n * (nx * ny * nz),
            k == ((i * nx + x) * ny + y) * nz + z,
            0 <= x,
            0 <= y,
            0 <= z,
            nx > 0,
            ny > 0,
            nz > 0,
            i >= 0,
    ;
    assert(in_cell(n, bounds, i, x, y, z));
}

/// There is only one expansion.
pub proof fn lemma_expansion_unique<T: Periodic>(v: Seq<T>, w: Seq<T>, items: Seq<T>, bounds: Bounds3)
    requires
        bounds.wf(),
        is_expansion(v, items, bounds),
        is_expansion(w, items, bounds),
    ensures
        v == w,
{
    assert forall|k: int| 0 <= k < v.len() implies v[k] == w[k] by {
        lemma_slot_onto(bounds, items.len() as int, k);
        let (i, x, y, z) = choose|i: int, x: int, y: int, z: int|
            in_cell(items.len() as int, bounds, i, x, y, z) && #[trigger] slot(bounds, i, x, y, z)
                == k;
        assert(filled(v, items, bounds, i, x, y, z));
        assert(filled(w, items, bounds, i, x, y, z));
    }
    assert(v =~= w);
}

} // verus!
