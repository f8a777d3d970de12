//! What holds of conflict detection on every input.

use crate::resource::{
    claims, conflict_set, declared, holds, in_conflict, lemma_declarer_claims, Claims, Resource,
    SocketAddress,
};
use vstd::prelude::*;
use vstd::seq_lib::seq_to_set_is_finite;
use vstd::set_lib::{lemma_len_subset, lemma_set_subset_finite};

verus! {

/// The claims of two components that each declare one resource.
pub open spec fn pair_of_claims(a: Seq<char>, x: Resource, b: Seq<char>, y: Resource) -> Claims {
    seq![(a, seq![x]), (b, seq![y])]
}

/// In a pair of components, a name claims a resource only through the one
/// resource it declares.
proof fn lemma_pair_claims(a: Seq<char>, x: Resource, b: Seq<char>, y: Resource, n: Seq<char>, r: Resource)
    ensures
        claims(pair_of_claims(a, x, b, y), n, r) <==> (n == a && x.covers(r)) || (n == b
            && y.covers(r)),
{
    let c = pair_of_claims(a, x, b, y);
    assert(c[0] == (a, seq![x]));
    assert(c[1] == (b, seq![y]));
    assert(holds(seq![x], r) <==> x.covers(r)) by {
        if x.covers(r) {
            assert(seq![x][0].covers(r));
        }
    }
    assert(holds(seq![y], r) <==> y.covers(r)) by {
        if y.covers(r) {
            assert(seq![y][0].covers(r));
        }
    }
    if n == a && x.covers(r) {
        assert(c[0].0 == n && holds(c[0].1, r));
    }
    if n == b && y.covers(r) {
        assert(c[1].0 == n && holds(c[1].1, r));
    }
}

/// In a pair of components, the declared resources are the two given.
proof fn lemma_pair_declared(a: Seq<char>, x: Resource, b: Seq<char>, y: Resource, r: Resource)
    ensures
        declared(pair_of_claims(a, x, b, y), r) <==> r == x || r == y,
{
    let c = pair_of_claims(a, x, b, y);
    assert(c[0].1[0] == x);
    assert(c[1].1[0] == y);
}

/// Two components of different names conflict exactly when one of their
/// resources lays claim on the other; then both are reported, else neither.
pub proof fn law_pair(a: Seq<char>, x: Resource, b: Seq<char>, y: Resource)
    requires
        a != b,
    ensures
        x.covers(y) || y.covers(x) ==> conflict_set(pair_of_claims(a, x, b, y)) == set![a, b],
        !x.covers(y) && !y.covers(x) ==> conflict_set(pair_of_claims(a, x, b, y))
            == Set::<Seq<char>>::empty(),
{
    let c = pair_of_claims(a, x, b, y);
    assert forall|n: Seq<char>| in_conflict(c, n) <==> (x.covers(y) || y.covers(x)) && (n == a
        || n == b) by {
        if in_conflict(c, n) {
            let (r, other) = choose|r: Resource, other: Seq<char>|
                other != n && declared(c, r) && claims(c, n, r) && #[trigger] claims(c, other, r);
            lemma_pair_claims(a, x, b, y, n, r);
            lemma_pair_claims(a, x, b, y, other, r);
            lemma_pair_declared(a, x, b, y, r);
        }
        if (x.covers(y) || y.covers(x)) && (n == a || n == b) {
            let r = if x.covers(y) {
                y
            } else {
                x
            };
            let other = if n == a {
                b
            } else {
                a
            };
            lemma_pair_claims(a, x, b, y, n, r);
            lemma_pair_claims(a, x, b, y, other, r);
            lemma_pair_declared(a, x, b, y, r);
            assert(other != n && declared(c, r) && claims(c, n, r) && claims(c, other, r));
        }
    }
    assert(x.covers(y) || y.covers(x) ==> conflict_set(c) =~= set![a, b]);
    assert(!x.covers(y) && !y.covers(x) ==> conflict_set(c) =~= Set::<Seq<char>>::empty());
}

/// Two components that bind specific addresses: neither is reported when the
/// ports differ, nor when the addresses differ on one port; both are reported
/// when address and port are identical.
pub proof fn law_specific_ports(a: Seq<char>, x: SocketAddress, b: Seq<char>, y: SocketAddress)
    requires
        a != b,
        !x.spec_is_unspecified(),
        !y.spec_is_unspecified(),
    ensures
        x.spec_port() != y.spec_port() ==> conflict_set(
            pair_of_claims(a, Resource::Port(x), b, Resource::Port(y)),
        ) == Set::<Seq<char>>::empty(),
        x != y ==> conflict_set(pair_of_claims(a, Resource::Port(x), b, Resource::Port(y)))
            == Set::<Seq<char>>::empty(),
        x == y ==> conflict_set(pair_of_claims(a, Resource::Port(x), b, Resource::Port(y)))
            == set![a, b],
{
    law_pair(a, Resource::Port(x), b, Resource::Port(y));
}

/// In any graph, a component that binds the wildcard address on a port is
/// reported together with every component of another name that binds the
/// same port number, whatever its address (the wildcard included).
pub proof fn law_wildcard_same_port(components: Claims, i: int, j: int, k: int, l: int)
    requires
        0 <= i < components.len(),
        0 <= j < components[i].1.len(),
        0 <= k < components.len(),
        0 <= l < components[k].1.len(),
        components[i].0 != components[k].0,
        components[i].1[j].is_wildcard_port(),
        components[k].1[l] is Port,
        components[i].1[j]->Port_0.spec_port() == components[k].1[l]->Port_0.spec_port(),
    ensures
        conflict_set(components).contains(components[i].0),
        conflict_set(components).contains(components[k].0),
{
    let r = components[k].1[l];
    lemma_declarer_claims(components, k, l);
    assert(components[i].1[j].covers(r));
    assert(holds(components[i].1, r));
    assert(components[i].0 == components[i].0 && holds(components[i].1, r));
    assert(claims(components, components[i].0, r));
    assert(components[k].0 != components[i].0 && declared(components, r) && claims(
        components,
        components[i].0,
        r,
    ) && claims(components, components[k].0, r));
    assert(components[i].0 != components[k].0 && declared(components, r) && claims(
        components,
        components[k].0,
        r,
    ) && claims(components, components[i].0, r));
}

/// A bind to the wildcard address lays claim on exactly the binds of its own
/// port number, whatever their address, and on nothing else.
pub proof fn law_wildcard_claims_its_port(wildcard: SocketAddress, wanted: Resource)
    requires
        wildcard.spec_is_unspecified(),
    ensures
        Resource::Port(wildcard).covers(wanted) <==> wanted is Port && wanted->Port_0.spec_port()
            == wildcard.spec_port(),
{
}

/// A bind to a specific address lays claim on nothing but itself.
pub proof fn law_specific_claims_itself(held: Resource, wanted: Resource)
    requires
        !held.is_wildcard_port(),
    ensures
        held.covers(wanted) <==> held == wanted,
{
}

/// A wildcard bind never conflicts with a bind of another port number.
pub proof fn law_wildcard_other_port(a: Seq<char>, x: SocketAddress, b: Seq<char>, y: SocketAddress)
    requires
        a != b,
        x.spec_is_unspecified(),
        x.spec_port() != y.spec_port(),
    ensures
        conflict_set(pair_of_claims(a, Resource::Port(x), b, Resource::Port(y))) == Set::<
            Seq<char>,
        >::empty(),
{
    law_pair(a, Resource::Port(x), b, Resource::Port(y));
}

/// Every claim made in `c1` is made in `c2` when `c2` holds all of `c1`'s
/// components.
proof fn lemma_claims_carry(c1: Claims, c2: Claims, n: Seq<char>, r: Resource)
    requires
        forall|i: int| 0 <= i < c1.len() ==> c2.contains(#[trigger] c1[i]),
    ensures
        claims(c1, n, r) ==> claims(c2, n, r),
        declared(c1, r) ==> declared(c2, r),
{
    if claims(c1, n, r) {
        let i = choose|i: int| 0 <= i < c1.len() && (#[trigger] c1[i]).0 == n && holds(c1[i].1, r);
        assert(c2.contains(c1[i]));
        let k = choose|k: int| 0 <= k < c2.len() && c2[k] == c1[i];
        assert(c2[k].0 == n && holds(c2[k].1, r));
    }
    if declared(c1, r) {
        let (i, j) = choose|i: int, j: int|
            0 <= i < c1.len() && 0 <= j < c1[i].1.len() && #[trigger] c1[i].1[j] == r;
        assert(c2.contains(c1[i]));
        let k = choose|k: int| 0 <= k < c2.len() && c2[k] == c1[i];
        assert(c2[k].1[j] == r);
    }
}

proof fn lemma_conflict_carries(c1: Claims, c2: Claims, n: Seq<char>)
    requires
        forall|i: int| 0 <= i < c1.len() ==> c2.contains(#[trigger] c1[i]),
    ensures
        in_conflict(c1, n) ==> in_conflict(c2, n),
{
    if in_conflict(c1, n) {
        let (r, other) = choose|r: Resource, other: Seq<char>|
            other != n && declared(c1, r) && claims(c1, n, r) && #[trigger] claims(c1, other, r);
        lemma_claims_carry(c1, c2, n, r);
        lemma_claims_carry(c1, c2, other, r);
        assert(other != n && declared(c2, r) && claims(c2, n, r) && claims(c2, other, r));
    }
}

/// The result does not depend on the order of the input: two lists that are
/// permutations of one another give the same set.
pub proof fn law_order_independent(c1: Claims, c2: Claims)
    requires
        c1.to_multiset() == c2.to_multiset(),
    ensures
        conflict_set(c1) == conflict_set(c2),
{
    c1.to_multiset_ensures();
    c2.to_multiset_ensures();
    assert forall|i: int| 0 <= i < c1.len() implies c2.contains(#[trigger] c1[i]) by {
        assert(c1.contains(c1[i]));
        assert(c1.to_multiset().count(c1[i]) > 0);
    }
    assert forall|i: int| 0 <= i < c2.len() implies c1.contains(#[trigger] c2[i]) by {
        assert(c2.contains(c2[i]));
        assert(c2.to_multiset().count(c2[i]) > 0);
    }
    assert forall|n: Seq<char>| in_conflict(c1, n) <==> in_conflict(c2, n) by {
        lemma_conflict_carries(c1, c2, n);
        lemma_conflict_carries(c2, c1, n);
    }
    assert(conflict_set(c1) =~= conflict_set(c2));
}


/// The names that lay claim on `r`: whoever declares `r` itself and, where
/// `r` is a port, whoever binds the wildcard address on `r`'s port number.
pub open spec fn claimants(components: Claims, r: Resource) -> Set<Seq<char>> {
    Set::new(|name: Seq<char>| claims(components, name, r))
}

/// Only components lay claims, so the claimants of a resource are finitely
/// many.
pub proof fn lemma_claimants_finite(components: Claims, r: Resource)
    ensures
        claimants(components, r).finite(),
{
    let names = components.map_values(|c: (Seq<char>, Seq<Resource>)| c.0);
    seq_to_set_is_finite(names);
    assert forall|name: Seq<char>| claimants(components, r).contains(name) implies names.to_set(
    ).contains(name) by {
        let i = choose|i: int|
            0 <= i < components.len() && (#[trigger] components[i]).0 == name && holds(
                components[i].1,
                r,
            );
        assert(names[i] == name);
        assert(names.contains(name));
    }
    assert(claimants(components, r).subset_of(names.to_set()));
    lemma_set_subset_finite(names.to_set(), claimants(components, r));
}

/// A finite set has more than one element exactly when it holds two
/// different ones.
pub proof fn lemma_more_than_one<A>(s: Set<A>)
    requires
        s.finite(),
    ensures
        s.len() > 1 <==> exists|a: A, b: A| a != b && #[trigger] s.contains(a) && #[trigger] s.contains(b),
{
    if exists|a: A, b: A| a != b && #[trigger] s.contains(a) && #[trigger] s.contains(b) {
        let (a, b) = choose|a: A, b: A| a != b && #[trigger] s.contains(a) && #[trigger] s.contains(b);
        let two = set![a, b];
        assert(two.len() == 2) by {
            assert(two =~= Set::<A>::empty().insert(a).insert(b));
        }
        assert(two.subset_of(s));
        lemma_len_subset(two, s);
    }
    if s.len() > 1 {
        let a = s.choose();
        assert(s.contains(a));
        let rest = s.remove(a);
        assert(rest.len() > 0);
        let b = rest.choose();
        assert(rest.contains(b));
        assert(a != b && s.contains(a) && s.contains(b));
    }
}

/// Conflict detection, step by step: every declared resource has its set of
/// claimants; a set with more than one name in it is a conflict; and the
/// result is the union of those sets.
pub proof fn law_conflicts_are_contested_claims(components: Claims, name: Seq<char>)
    ensures
        conflict_set(components).contains(name) <==> exists|r: Resource|
            declared(components, r) && (#[trigger] claimants(components, r)).len() > 1
                && claimants(components, r).contains(name),
{
    if in_conflict(components, name) {
        let (r, other) = choose|r: Resource, other: Seq<char>|
            other != name && declared(components, r) && claims(components, name, r)
                && #[trigger] claims(components, other, r);
        let set = claimants(components, r);
        lemma_claimants_finite(components, r);
        assert(other != name && set.contains(other) && set.contains(name));
        lemma_more_than_one(set);
        assert(declared(components, r) && claimants(components, r).len() > 1 && claimants(
            components,
            r,
        ).contains(name));
    }
    if exists|r: Resource|
        declared(components, r) && (#[trigger] claimants(components, r)).len() > 1 && claimants(
            components,
            r,
        ).contains(name) {
        let r = choose|r: Resource|
            declared(components, r) && (#[trigger] claimants(components, r)).len() > 1
                && claimants(components, r).contains(name);
        let set = claimants(components, r);
        lemma_claimants_finite(components, r);
        lemma_more_than_one(set);
        let (a, b) = choose|a: Seq<char>, b: Seq<char>|
            a != b && #[trigger] set.contains(a) && #[trigger] set.contains(b);
        let other = if a != name {
            a
        } else {
            b
        };
        assert(other != name && declared(components, r) && claims(components, name, r) && claims(
            components,
            other,
            r,
        ));
    }
}

} // verus!
