//! Closing a list of group elements under composition, and checking that a
//! list is a group.
//!
//! The elements are compared by value. Composition may fail, when an exact
//! result cannot be stored; a list is only called closed when every
//! composition of two of its elements succeeds and lands in the list.
use vstd::prelude::*;
use crate::error::Error;

verus! {

/// The number of passes after which the closure of a list of generators is
/// given up.
pub const MAX_PASSES: usize = 10_000;

/// An element of a finite group whose composition is computed exactly.
pub trait GroupElement: Copy {
    /// The element is the chosen representative of its class.
    spec fn canonical(self) -> bool;

    /// What `compose` answers.
    spec fn spec_compose(self, rhs: Self) -> Option<Self>;

    /// What `inverse` answers.
    spec fn spec_inverse(self) -> Option<Self>;

    /// The representative of `self` after `rhs`, where it can be stored.
    fn compose(self, rhs: Self) -> (r: Option<Self>)
        ensures
            r == self.spec_compose(rhs),
            r matches Some(e) ==> e.canonical(),
    ;

    /// The representative of the inverse of `self`, where it can be stored.
    fn inverse(self) -> (r: Option<Self>)
        ensures
            r == self.spec_inverse(),
            r matches Some(e) ==> e.canonical(),
    ;

    /// Whether the element is the chosen representative of its class.
    fn is_canonical(self) -> (r: bool)
        ensures
            r == self.canonical(),
    ;

    /// Whether two elements are the same.
    fn same(self, other: Self) -> (r: bool)
        ensures
            r == (self == other),
    ;
}

/// Every composition of two elements of `s` succeeds and lands in `s`.
pub open spec fn closed<T: GroupElement>(s: Set<T>) -> bool {
    forall|a: T, b: T|
        s.contains(a) && s.contains(b) ==> (#[trigger] a.spec_compose(b) matches Some(c)
            && s.contains(c))
}

/// `s` holds every generator and every composition of two of its elements that
/// succeeds.
pub open spec fn holds_products<T: GroupElement>(s: Set<T>, generators: Seq<T>) -> bool {
    &&& forall|i: int| 0 <= i < generators.len() ==> s.contains(#[trigger] generators[i])
    &&& forall|a: T, b: T|
        s.contains(a) && s.contains(b) ==> (#[trigger] a.spec_compose(b) matches Some(c)
            ==> s.contains(c))
}

/// `e` can be reached from the generators by composition: it lies in every set
/// that holds the generators and the compositions of its elements.
pub open spec fn generated<T: GroupElement>(generators: Seq<T>, e: T) -> bool {
    forall|s: Set<T>| #[trigger] holds_products(s, generators) ==> s.contains(e)
}

/// A list of distinct canonical elements that is closed under composition.
pub open spec fn is_group_list<T: GroupElement>(s: Seq<T>) -> bool {
    &&& s.no_duplicates()
    &&& forall|i: int| 0 <= i < s.len() ==> (#[trigger] s[i]).canonical()
    &&& closed(s.to_set())
}

/// A list of canonical elements that holds the inverse of each of its
/// elements and is closed under composition.
pub open spec fn is_valid_group<T: GroupElement>(s: Seq<T>) -> bool {
    &&& forall|i: int| 0 <= i < s.len() ==> (#[trigger] s[i]).canonical()
    &&& forall|i: int|
        0 <= i < s.len() ==> ((#[trigger] s[i]).spec_inverse() matches Some(e) && s.contains(e))
    &&& closed(s.to_set())
}

/// Whether `e` occurs in `v`.
pub fn contains<T: GroupElement>(v: &Vec<T>, e: T) -> (r: bool)
    ensures
        r == v@.contains(e),
{
    let mut k: usize = 0;
    while k < v.len()
        invariant
            k <= v.len(),
            forall|i: int| 0 <= i < k ==> v@[i] != e,
        decreases v.len() - k,
    {
        if v[k].same(e) {
            return true;
        }
        k += 1;
    }
    false
}

/// The elements of `s` without repetitions, each where it first occurs.
pub open spec fn first_occurrences<T>(s: Seq<T>) -> Seq<T>
    decreases s.len(),
{
    if s.len() == 0 {
        Seq::empty()
    } else if first_occurrences(s.drop_last()).contains(s.last()) {
        first_occurrences(s.drop_last())
    } else {
        first_occurrences(s.drop_last()).push(s.last())
    }
}

/// The elements of `v` without repetitions, each where it first occurs.
pub fn dedup<T: GroupElement>(v: &Vec<T>) -> (r: Vec<T>)
    ensures
        r@ == first_occurrences(v@),
        r@.no_duplicates(),
        r@.to_set() == v@.to_set(),
        v@.no_duplicates() ==> r@ == v@,
{
    let mut out: Vec<T> = Vec::new();
    let mut k: usize = 0;
    proof {
        assert(v@.take(0).len() == 0);
    }
    while k < v.len()
        invariant
            k <= v.len(),
            out@ == first_occurrences(v@.take(k as int)),
            out@.no_duplicates(),
            forall|e: T| #[trigger] out@.contains(e) <==> v@.take(k as int).contains(e),
            v@.no_duplicates() ==> out@ == v@.take(k as int),
        decreases v.len() - k,
    {
        let e = v[k];
        let ghost before = out@;
        let ghost seen = v@.take(k as int);
        proof {
            assert(v@.take(k + 1) == seen.push(e));
            assert(v@.take(k + 1).drop_last() == seen);
        }
        if !contains(&out, e) {
            out.push(e);
            proof {
                lemma_push_no_duplicates(before, e);
                assert forall|x: T| out@.contains(x) <==> v@.take(k + 1).contains(x) by {
                    lemma_push_contains(before, e, x);
                    lemma_push_contains(seen, e, x);
                    assert(before.contains(x) <==> seen.contains(x));
                }
            }
        } else {
            proof {
                assert(seen.contains(e));
                assert forall|x: T| out@.contains(x) <==> v@.take(k + 1).contains(x) by {
                    lemma_push_contains(seen, e, x);
                    assert(before.contains(x) <==> seen.contains(x));
                }
                if v@.no_duplicates() {
                    let i = choose|i: int| 0 <= i < seen.len() && seen[i] == e;
                    assert(v@[i] == v@[k as int]);
                }
            }
        }
        k += 1;
    }
    proof {
        assert(v@.take(v.len() as int) == v@);
        assert forall|x: T| out@.to_set().contains(x) <==> v@.to_set().contains(x) by {
            assert(out@.contains(x) <==> v@.contains(x));
        }
        assert(out@.to_set() =~= v@.to_set());
    }
    out
}

/// What a list holds after one more element was pushed.
pub proof fn lemma_push_contains<T>(s: Seq<T>, e: T, x: T)
    ensures
        s.push(e).contains(x) <==> (s.contains(x) || x == e),
{
    let t = s.push(e);
    if s.contains(x) {
        let i = choose|i: int| 0 <= i < s.len() && s[i] == x;
        assert(t[i] == x);
    }
    if x == e {
        assert(t[s.len() as int] == x);
    }
    if t.contains(x) {
        let i = choose|i: int| 0 <= i < t.len() && t[i] == x;
        if i < s.len() {
            assert(s[i] == x);
        }
    }
}

/// Pushing an element that does not occur yet keeps a list free of
/// repetitions.
pub proof fn lemma_push_no_duplicates<T>(s: Seq<T>, e: T)
    requires
        s.no_duplicates(),
        !s.contains(e),
    ensures
        s.push(e).no_duplicates(),
{
    let t = s.push(e);
    assert forall|i: int, j: int| 0 <= i < t.len() && 0 <= j < t.len() && i != j implies t[i]
        != t[j] by {
        if i < s.len() && j < s.len() {
        } else if i < s.len() {
            assert(s[i] != e);
        } else {
            assert(s[j] != e);
        }
    }
}

/// `s` is closed under composition and holds every generator.
pub open spec fn closed_superset<T: GroupElement>(s: Set<T>, generators: Seq<T>) -> bool {
    &&& closed(s)
    &&& forall|i: int| 0 <= i < generators.len() ==> s.contains(#[trigger] generators[i])
}

/// A list of distinct canonical elements, each reached from the generators,
/// that holds every generator.
pub open spec fn grown_from<T: GroupElement>(s: Seq<T>, generators: Seq<T>) -> bool {
    &&& s.no_duplicates()
    &&& forall|i: int| 0 <= i < s.len() ==> (#[trigger] s[i]).canonical()
    &&& forall|i: int| 0 <= i < s.len() ==> generated(generators, #[trigger] s[i])
    &&& forall|i: int| 0 <= i < generators.len() ==> s.contains(#[trigger] generators[i])
}

/// The composition of the elements at `a` and `b` succeeds and lands in `s`.
pub open spec fn product_in<T: GroupElement>(s: Seq<T>, a: int, b: int) -> bool {
    s[a].spec_compose(s[b]) matches Some(c) && s.contains(c)
}

/// What is reached from the generators lies in every closed set that holds
/// them.
pub proof fn lemma_generated_in<T: GroupElement>(c: Set<T>, generators: Seq<T>, e: T)
    requires
        closed_superset(c, generators),
        generated(generators, e),
    ensures
        c.contains(e),
{
    assert(holds_products(c, generators));
}

/// The composition of two reached elements is reached.
pub proof fn lemma_generated_compose<T: GroupElement>(generators: Seq<T>, a: T, b: T)
    requires
        generated(generators, a),
        generated(generators, b),
        a.spec_compose(b) is Some,
    ensures
        generated(generators, a.spec_compose(b).unwrap()),
{
    assert forall|s: Set<T>| #[trigger] holds_products(s, generators) implies s.contains(
        a.spec_compose(b).unwrap(),
    ) by {
        assert(s.contains(a) && s.contains(b));
    }
}

/// A list in which every pair composes into the list is closed.
pub proof fn lemma_products_closed<T: GroupElement>(s: Seq<T>)
    requires
        forall|a: int, b: int| 0 <= a < s.len() && 0 <= b < s.len() ==> product_in(s, a, b),
    ensures
        closed(s.to_set()),
{
    assert forall|x: T, y: T| s.to_set().contains(x) && s.to_set().contains(y) implies (
    #[trigger] x.spec_compose(y) matches Some(c) && s.to_set().contains(c)) by {
        let a = choose|a: int| 0 <= a < s.len() && s[a] == x;
        let b = choose|b: int| 0 <= b < s.len() && s[b] == y;
        assert(product_in(s, a, b));
    }
}

/// A list of distinct elements of a finite set is no longer than the set is
/// large.
pub proof fn lemma_distinct_bounded<T>(s: Seq<T>, c: Set<T>)
    requires
        s.no_duplicates(),
        c.finite(),
        forall|i: int| 0 <= i < s.len() ==> c.contains(#[trigger] s[i]),
    ensures
        s.len() <= c.len(),
{
    s.unique_seq_to_set();
    assert(s.to_set().subset_of(c));
    vstd::set_lib::lemma_len_subset(s.to_set(), c);
}

/// What is left of a pass over the list `s` from the pair `(i, j)` on: the
/// list after the pass, and whether the pass has added an element; `None` when
/// a composition cannot be stored.
///
/// A pass takes the elements that were there when it began, the first `n`,
/// one after the other as the left factor; for each it takes the elements that
/// are there when its turn begins, the first `m`, as the right factor, and
/// appends every composition that the list does not hold yet.
pub open spec fn pass_from<T: GroupElement>(
    s: Seq<T>,
    added: bool,
    n: int,
    i: int,
    m: int,
    j: int,
) -> Option<(Seq<T>, bool)>
    decreases n - i, m - j,
{
    if i < 0 || i >= n || i >= s.len() {
        Some((s, added))
    } else if j < 0 || j >= m || j >= s.len() {
        pass_from(s, added, n, i + 1, s.len() as int, 0)
    } else {
        match s[i].spec_compose(s[j]) {
            None => None,
            Some(op) => if s.contains(op) {
                pass_from(s, added, n, i, m, j + 1)
            } else {
                pass_from(s.push(op), true, n, i, m, j + 1)
            },
        }
    }
}

/// The closure of the list `s` after `counter` passes, the last of which has
/// added an element if `added` holds: pass follows pass until one adds
/// nothing. The closure is given up with [`Error::ClosureDivergence`] once
/// [`MAX_PASSES`] passes have run, and with [`Error::Overflow`] when a
/// composition cannot be stored.
pub open spec fn close_from<T: GroupElement>(s: Seq<T>, added: bool, counter: int) -> Result<
    Seq<T>,
    Error,
>
    decreases MAX_PASSES - counter,
{
    if added && 0 <= counter < MAX_PASSES {
        match pass_from(s, false, s.len() as int, 0, s.len() as int, 0) {
            None => Err(Error::Overflow),
            Some((t, a)) => close_from(t, a, counter + 1),
        }
    } else if counter >= MAX_PASSES {
        Err(Error::ClosureDivergence)
    } else {
        Ok(s)
    }
}

/// The closure of a list of generators under composition: the distinct
/// generators in their order, then what pass after pass adds to them.
pub open spec fn closure_of<T: GroupElement>(generators: Seq<T>) -> Result<Seq<T>, Error> {
    close_from(first_occurrences(generators), true, 0)
}

/// `out` is the closure of the generators, and is what a closure has to be.
///
/// A closure that succeeds is a list of distinct canonical elements that is
/// closed under composition, starts with the distinct generators and holds
/// exactly what can be reached from them. A closure fails only if no closed
/// set holds the generators ([`Error::Overflow`]), or none with fewer than
/// `MAX_PASSES - 1` elements does ([`Error::ClosureDivergence`]). Generators
/// that are already a group are their own closure.
pub open spec fn is_closure<T: GroupElement>(generators: Seq<T>, out: Result<Seq<T>, Error>) -> bool {
    &&& out == closure_of(generators)
    &&& match out {
        Ok(g) => is_group_list(g) && grown_from(g, generators) && first_occurrences(
            generators,
        ).is_prefix_of(g),
        Err(Error::Overflow) => forall|c: Set<T>| !#[trigger] closed_superset(c, generators),
        Err(Error::ClosureDivergence) => forall|c: Set<T>|
            c.finite() && #[trigger] closed_superset(c, generators) ==> c.len() >= MAX_PASSES - 1,
        Err(_) => false,
    }
    &&& is_group_list(generators) ==> out == Ok::<Seq<T>, Error>(generators)
    &&& (exists|c: Set<T>|
        #[trigger] closed_superset(c, generators) && c.finite() && c.len() < MAX_PASSES - 1)
        ==> out is Ok
}

/// The list of a result.
pub open spec fn list_outcome<T>(r: Result<Vec<T>, Error>) -> Result<Seq<T>, Error> {
    match r {
        Ok(g) => Ok(g@),
        Err(e) => Err(e),
    }
}

/// The closure of a list of canonical generators under composition, as
/// [`closure_of`] defines it and with what [`is_closure`] tells of it.
pub fn close<T: GroupElement>(generators: &Vec<T>) -> (r: Result<Vec<T>, Error>)
    requires
        forall|i: int| 0 <= i < generators.len() ==> (#[trigger] generators[i]).canonical(),
    ensures
        is_closure(generators@, list_outcome(r)),
{
    let mut symmetries = dedup(generators);
    proof {
        assert forall|i: int| 0 <= i < symmetries.len() implies (#[trigger] symmetries[i]).canonical()
            && generated(generators@, symmetries[i]) by {
            assert(symmetries@.to_set().contains(symmetries[i]));
            assert(generators@.to_set().contains(symmetries[i]));
            let k = choose|k: int| 0 <= k < generators.len() && generators[k] == symmetries[i];
            assert(generators[k].canonical());
        }
        assert forall|i: int| 0 <= i < generators.len() implies symmetries@.contains(
            #[trigger] generators[i],
        ) by {
            assert(generators@.to_set().contains(generators[i]));
            assert(symmetries@.to_set().contains(generators[i]));
        }
    }
    let mut counter: usize = 0;
    let mut added_new = true;
    while added_new && counter < MAX_PASSES
        invariant
            grown_from(symmetries@, generators@),
            first_occurrences(generators@).is_prefix_of(symmetries@),
            counter <= MAX_PASSES,
            added_new ==> symmetries.len() >= counter,
            symmetries.len() + 1 >= counter,
            !added_new ==> closed(symmetries@.to_set()),
            is_group_list(generators@) ==> symmetries@ == generators@ && ((counter == 0
                && added_new) || (counter == 1 && !added_new)),
            close_from(symmetries@, added_new, counter as int) == closure_of(generators@),
        decreases MAX_PASSES - counter,
    {
        counter += 1;
        added_new = false;
        let n = symmetries.len();
        let ghost start = symmetries@;
        let mut i: usize = 0;
        while i < n
            invariant
                grown_from(symmetries@, generators@),
                first_occurrences(generators@).is_prefix_of(symmetries@),
                i <= n,
                n == start.len(),
                n <= symmetries.len(),
                !added_new ==> symmetries@ == start,
                added_new ==> symmetries.len() > n,
                !added_new ==> forall|a: int, b: int|
                    0 <= a < i && 0 <= b < n ==> product_in(symmetries@, a, b),
                is_group_list(generators@) ==> symmetries@ == generators@ && !added_new,
                1 <= counter <= MAX_PASSES,
                close_from(start, true, counter - 1) == closure_of(generators@),
                pass_from(symmetries@, added_new, n as int, i as int, symmetries.len() as int, 0)
                    == pass_from(start, false, n as int, 0, n as int, 0),
            decreases n - i,
        {
            let m = symmetries.len();
            let mut j: usize = 0;
            while j < m
                invariant
                    grown_from(symmetries@, generators@),
                    first_occurrences(generators@).is_prefix_of(symmetries@),
                    i < n,
                    j <= m,
                    n == start.len(),
                    n <= m,
                    m <= symmetries.len(),
                    !added_new ==> symmetries@ == start && m == n,
                    added_new ==> symmetries.len() > n,
                    !added_new ==> forall|a: int, b: int|
                        0 <= a < i && 0 <= b < n ==> product_in(symmetries@, a, b),
                    !added_new ==> forall|b: int| 0 <= b < j ==> product_in(symmetries@, i as int, b),
                    is_group_list(generators@) ==> symmetries@ == generators@ && !added_new,
                    1 <= counter <= MAX_PASSES,
                    close_from(start, true, counter - 1) == closure_of(generators@),
                    pass_from(symmetries@, added_new, n as int, i as int, m as int, j as int)
                        == pass_from(start, false, n as int, 0, n as int, 0),
                decreases m - j,
            {
                let x = symmetries[i];
                let y = symmetries[j];
                let ghost before = symmetries@;
                proof {
                    if is_group_list(generators@) {
                        assert(generators@.to_set().contains(x));
                        assert(generators@.to_set().contains(y));
                    }
                }
                let op = match x.compose(y) {
                    Some(op) => op,
                    None => {
                        proof {
                            assert forall|c: Set<T>| !#[trigger] closed_superset(
                                c,
                                generators@,
                            ) by {
                                if closed_superset(c, generators@) {
                                    lemma_generated_in(c, generators@, x);
                                    lemma_generated_in(c, generators@, y);
                                }
                            }
                        }
                        return Err(Error::Overflow);
                    },
                };
                proof {
                    lemma_generated_compose(generators@, x, y);
                }
                if !contains(&symmetries, op) {
                    symmetries.push(op);
                    added_new = true;
                    proof {
                        lemma_push_no_duplicates(before, op);
                        assert forall|k: int| 0 <= k < generators.len() implies symmetries@.contains(
                            #[trigger] generators[k],
                        ) by {
                            lemma_push_contains(before, op, generators[k]);
                        }
                    }
                }
                j += 1;
            }
            i += 1;
        }
        proof {
            if !added_new {
                lemma_products_closed(symmetries@);
            }
        }
    }
    if counter >= MAX_PASSES {
        proof {
            assert forall|c: Set<T>|
                c.finite() && #[trigger] closed_superset(c, generators@) implies c.len()
                >= MAX_PASSES - 1 by {
                assert forall|i: int| 0 <= i < symmetries.len() implies c.contains(
                    #[trigger] symmetries[i],
                ) by {
                    lemma_generated_in(c, generators@, symmetries[i]);
                }
                lemma_distinct_bounded(symmetries@, c);
            }
        }
        return Err(Error::ClosureDivergence);
    }
    Ok(symmetries)
}

/// Whether a list is a group: every element is canonical and has its inverse
/// in the list, and every composition of two elements lands in the list.
pub fn is_valid<T: GroupElement>(v: &Vec<T>) -> (r: bool)
    ensures
        r == is_valid_group(v@),
{
    let n = v.len();
    let mut i: usize = 0;
    while i < n
        invariant
            i <= n,
            n == v.len(),
            forall|a: int| 0 <= a < i ==> (#[trigger] v@[a]).canonical(),
            forall|a: int|
                0 <= a < i ==> ((#[trigger] v@[a]).spec_inverse() matches Some(e) && v@.contains(e)),
            forall|a: int, b: int| 0 <= a < i && 0 <= b < n ==> product_in(v@, a, b),
        decreases n - i,
    {
        let x = v[i];
        match x.inverse() {
            Some(inv) => {
                if !contains(v, inv) {
                    return false;
                }
            },
            None => {
                return false;
            },
        }
        if !x.is_canonical() {
            return false;
        }
        let mut j: usize = 0;
        while j < n
            invariant
                i < n,
                j <= n,
                n == v.len(),
                x == v@[i as int],
                forall|b: int| 0 <= b < j ==> product_in(v@, i as int, b),
            decreases n - j,
        {
            let y = v[j];
            match x.compose(y) {
                Some(p) => {
                    if !contains(v, p) {
                        proof {
                            assert(v@.to_set().contains(x) && v@.to_set().contains(y));
                        }
                        return false;
                    }
                },
                None => {
                    proof {
                        assert(v@.to_set().contains(x) && v@.to_set().contains(y));
                    }
                    return false;
                },
            }
            j += 1;
        }
        i += 1;
    }
    proof {
        lemma_products_closed(v@);
    }
    true
}

/// In a finite closed set, composition with an element that can be cancelled
/// on the left reaches every element of the set.
pub proof fn lemma_left_composition_onto<T: GroupElement>(s: Set<T>, a: T, target: T)
    requires
        s.finite(),
        closed(s),
        s.contains(a),
        s.contains(target),
        forall|x: T, y: T|
            s.contains(x) && s.contains(y) && #[trigger] a.spec_compose(x) == #[trigger] a.spec_compose(
                y,
            ) ==> x == y,
    ensures
        exists|x: T| s.contains(x) && #[trigger] a.spec_compose(x) == Some(target),
{
    let f = |x: T| a.spec_compose(x).unwrap();
    let image = s.map(f);
    assert(vstd::relations::injective_on(f, s)) by {
        assert forall|x: T, y: T| s.contains(x) && s.contains(y) && #[trigger] f(x) == #[trigger] f(
            y,
        ) implies x == y by {
            assert(a.spec_compose(x) is Some && a.spec_compose(y) is Some);
            assert(a.spec_compose(x) == a.spec_compose(y));
        }
    }
    vstd::set_lib::lemma_map_size(s, image, f);
    assert(image.subset_of(s)) by {
        assert forall|y: T| image.contains(y) implies s.contains(y) by {
            let x = choose|x: T| s.contains(x) && y == f(x);
            assert(a.spec_compose(x) is Some);
        }
    }
    vstd::set_lib::lemma_subset_equality(image, s);
    assert(image.contains(target));
    let x = choose|x: T| s.contains(x) && target == f(x);
    assert(a.spec_compose(x) is Some);
    assert(a.spec_compose(x) == Some(target));
}

} // verus!
