//! Exclusive resources and the detection of conflicting claims on them.

use vstd::hash_set::StringHashSet;
use vstd::prelude::*;

verus! {

/// A socket address, held as the integers that decide whether two addresses
/// are the same endpoint.
///
/// The IP address is stored as its big-endian integer value, so `0` is the
/// unspecified address (`0.0.0.0` or `::`) of either family.
#[derive(Clone, Copy, Debug, PartialEq, Eq, Structural, Hash)]
#[allow(inconsistent_fields)]
pub enum SocketAddress {
    V4 { ip: u32, port: u16 },
    V6 { ip: u128, port: u16, flowinfo: u32, scope_id: u32 },
}

/// The integer value of the dotted quad `a.b.c.d`.
pub open spec fn spec_ipv4(a: u8, b: u8, c: u8, d: u8) -> int {
    a * 16777216 + b * 65536 + c * 256 + d
}

/// The integer value of the dotted quad `a.b.c.d`, most significant octet
/// first.
pub fn ipv4(a: u8, b: u8, c: u8, d: u8) -> (ip: u32)
    ensures
        ip == spec_ipv4(a, b, c, d),
{
    let high: u32 = a as u32 * 16777216 + b as u32 * 65536;
    let low: u32 = c as u32 * 256 + d as u32;
    high + low
}

impl SocketAddress {
    pub open spec fn spec_port(&self) -> u16 {
        match *self {
            SocketAddress::V4 { port, .. } => port,
            SocketAddress::V6 { port, .. } => port,
        }
    }

    /// True for the wildcard address of either family, which binds every
    /// interface of the machine.
    pub open spec fn spec_is_unspecified(&self) -> bool {
        match *self {
            SocketAddress::V4 { ip, .. } => ip == 0,
            SocketAddress::V6 { ip, .. } => ip == 0,
        }
    }

    /// The IPv4 endpoint `a.b.c.d:port`.
    pub fn v4(a: u8, b: u8, c: u8, d: u8, port: u16) -> (addr: SocketAddress)
        ensures
            addr == (SocketAddress::V4 { ip: spec_ipv4(a, b, c, d) as u32, port }),
            addr.spec_port() == port,
            addr.spec_is_unspecified() <==> a == 0 && b == 0 && c == 0 && d == 0,
    {
        SocketAddress::V4 { ip: ipv4(a, b, c, d), port }
    }

    /// The IPv6 endpoint whose address has the integer value `ip`.
    pub fn v6(ip: u128, port: u16, flowinfo: u32, scope_id: u32) -> (addr: SocketAddress)
        ensures
            addr == (SocketAddress::V6 { ip, port, flowinfo, scope_id }),
    {
        SocketAddress::V6 { ip, port, flowinfo, scope_id }
    }

    #[verifier::when_used_as_spec(spec_port)]
    pub fn port(&self) -> (p: u16)
        ensures
            p == self.spec_port(),
    {
        match self {
            SocketAddress::V4 { port, .. } => *port,
            SocketAddress::V6 { port, .. } => *port,
        }
    }

    #[verifier::when_used_as_spec(spec_is_unspecified)]
    pub fn is_unspecified(&self) -> (b: bool)
        ensures
            b == self.spec_is_unspecified(),
    {
        match self {
            SocketAddress::V4 { ip, .. } => *ip == 0,
            SocketAddress::V6 { ip, .. } => *ip == 0,
        }
    }
}

/// Unique thing, like port, of which only one owner can be.
#[derive(Clone, Copy, Debug, PartialEq, Eq, Structural, Hash)]
pub enum Resource {
    Port(SocketAddress),
    SystemFdOffset(usize),
    Stdin,
}

impl From<SocketAddress> for Resource {
    fn from(addr: SocketAddress) -> (resource: Self)
        ensures
            resource == Resource::Port(addr),
    {
        Resource::Port(addr)
    }
}

impl vstd::std_specs::convert::FromSpecImpl<SocketAddress> for Resource {
    open spec fn obeys_from_spec() -> bool {
        true
    }

    open spec fn from_spec(addr: SocketAddress) -> Resource {
        Resource::Port(addr)
    }
}

/// What a caller hands to conflict detection, seen as mathematics: each
/// component's name with the resources it declares, in declaration order.
pub type Claims = Seq<(Seq<char>, Seq<Resource>)>;

/// The claims that a list of components makes.
pub open spec fn claims_view(components: Seq<(String, Vec<Resource>)>) -> Claims {
    components.map_values(|c: (String, Vec<Resource>)| (c.0@, c.1@))
}

/// Some resource in `held` lays claim on `wanted`.
pub open spec fn holds(held: Seq<Resource>, wanted: Resource) -> bool {
    exists|j: int| 0 <= j < held.len() && (#[trigger] held[j]).covers(wanted)
}

/// The component called `name` lays claim on `wanted`.
pub open spec fn claims(components: Claims, name: Seq<char>, wanted: Resource) -> bool {
    exists|i: int|
        0 <= i < components.len() && (#[trigger] components[i]).0 == name && holds(
            components[i].1,
            wanted,
        )
}

/// Some component declares exactly `r`.
pub open spec fn declared(components: Claims, r: Resource) -> bool {
    exists|i: int, j: int|
        0 <= i < components.len() && 0 <= j < components[i].1.len()
            && #[trigger] components[i].1[j] == r
}

/// `name` shares a declared resource with a component of another name.
pub open spec fn in_conflict(components: Claims, name: Seq<char>) -> bool {
    exists|r: Resource, other: Seq<char>|
        other != name && declared(components, r) && claims(components, name, r)
            && #[trigger] claims(components, other, r)
}

/// All names that are in conflict with some other name.
pub open spec fn conflict_set(components: Claims) -> Set<Seq<char>> {
    Set::new(|name: Seq<char>| in_conflict(components, name))
}

impl Resource {
    /// A port bound to the wildcard address.
    pub open spec fn is_wildcard_port(self) -> bool {
        self matches Resource::Port(a) && a.spec_is_unspecified()
    }

    /// Holding `self` lays claim on `wanted`: the two are the same resource,
    /// or `self` is a wildcard bind and `wanted` is any bind of the same port
    /// number.
    pub open spec fn covers(self, wanted: Resource) -> bool {
        self == wanted || (self matches Resource::Port(a) && wanted matches Resource::Port(b)
            && a.spec_is_unspecified() && a.spec_port() == b.spec_port())
    }

    /// Decides `covers`.
    pub fn lays_claim_on(&self, wanted: &Resource) -> (b: bool)
        ensures
            b == self.covers(*wanted),
    {
        if *self == *wanted {
            true
        } else {
            match (self, wanted) {
                (Resource::Port(a), Resource::Port(b)) => a.is_unspecified() && a.port()
                    == b.port(),
                _ => false,
            }
        }
    }
}

/// The resource at position `b` of component `a` is also claimed by a
/// component of another name.
pub open spec fn contested_at(components: Claims, a: int, b: int) -> bool {
    exists|other: Seq<char>|
        other != components[a].0 && #[trigger] claims(components, other, components[a].1[b])
}

/// `name` claims the contested resource at position `b` of component `a`.
pub open spec fn flagged_at(components: Claims, name: Seq<char>, a: int, b: int) -> bool {
    &&& 0 <= a < components.len()
    &&& 0 <= b < components[a].1.len()
    &&& contested_at(components, a, b)
    &&& claims(components, name, components[a].1[b])
}

/// `name` is flagged at some position that comes before `(i, j)`.
pub open spec fn flagged_before(components: Claims, name: Seq<char>, i: int, j: int) -> bool {
    exists|a: int, b: int|
        (a < i || (a == i && b < j)) && #[trigger] flagged_at(components, name, a, b)
}

/// A resource lays claim on itself, so whoever declares it claims it.
pub proof fn lemma_declarer_claims(components: Claims, a: int, b: int)
    requires
        0 <= a < components.len(),
        0 <= b < components[a].1.len(),
    ensures
        claims(components, components[a].0, components[a].1[b]),
        declared(components, components[a].1[b]),
{
    let r = components[a].1[b];
    assert(components[a].1[b].covers(r));
    assert(holds(components[a].1, r));
    assert(components[a].0 == components[a].0 && holds(components[a].1, r));
}

/// A name is in conflict exactly when it is flagged at some position.
pub proof fn lemma_conflict_is_flagged(components: Claims, name: Seq<char>)
    ensures
        in_conflict(components, name) <==> flagged_before(
            components,
            name,
            components.len() as int,
            0,
        ),
{
    let n = components.len() as int;
    if in_conflict(components, name) {
        let (r, other) = choose|r: Resource, other: Seq<char>|
            other != name && declared(components, r) && claims(components, name, r)
                && #[trigger] claims(components, other, r);
        let (a, b) = choose|a: int, b: int|
            0 <= a < components.len() && 0 <= b < components[a].1.len()
                && #[trigger] components[a].1[b] == r;
        if name == components[a].0 {
            assert(claims(components, other, components[a].1[b]));
        } else {
            assert(claims(components, name, components[a].1[b]));
        }
        assert(contested_at(components, a, b));
        assert(flagged_at(components, name, a, b));
    }
    if flagged_before(components, name, n, 0) {
        let (a, b) = choose|a: int, b: int|
            (a < n || (a == n && b < 0)) && #[trigger] flagged_at(components, name, a, b);
        let r = components[a].1[b];
        lemma_declarer_claims(components, a, b);
        let other = choose|other: Seq<char>|
            other != components[a].0 && #[trigger] claims(components, other, r);
        if name == components[a].0 {
            assert(other != name && claims(components, other, r));
        } else {
            assert(components[a].0 != name && claims(components, components[a].0, r));
        }
    }
}

/// Decides `holds`.
pub fn holds_claim(held: &Vec<Resource>, wanted: &Resource) -> (b: bool)
    ensures
        b == holds(held@, *wanted),
{
    let mut j: usize = 0;
    while j < held.len()
        invariant
            j <= held.len(),
            forall|k: int| 0 <= k < j ==> !(#[trigger] held@[k]).covers(*wanted),
        decreases held.len() - j,
    {
        if held[j].lays_claim_on(wanted) {
            return true;
        }
        j += 1;
    }
    false
}

/// Is `wanted` claimed by a component whose name is not `owner`?
fn claimed_by_other(components: &Vec<(String, Vec<Resource>)>, owner: &String, wanted: &Resource) -> (b:
    bool)
    ensures
        b == exists|other: Seq<char>|
            other != owner@ && #[trigger] claims(claims_view(components@), other, *wanted),
{
    let ghost cv = claims_view(components@);
    let mut i: usize = 0;
    while i < components.len()
        invariant
            i <= components.len(),
            cv == claims_view(components@),
            forall|k: int|
                0 <= k < i ==> !((#[trigger] cv[k]).0 != owner@ && holds(cv[k].1, *wanted)),
        decreases components.len() - i,
    {
        assert(cv[i as int] == (components@[i as int].0@, components@[i as int].1@));
        if components[i].0 != *owner && holds_claim(&components[i].1, wanted) {
            assert(claims(cv, cv[i as int].0, *wanted));
            return true;
        }
        i += 1;
    }
    false
}

/// Adds to `out` every name that claims `wanted`.
fn add_claimants(
    components: &Vec<(String, Vec<Resource>)>,
    wanted: &Resource,
    out: &mut StringHashSet,
)
    ensures
        final(out)@ == old(out)@.union(
            Set::new(|name: Seq<char>| claims(claims_view(components@), name, *wanted)),
        ),
{
    let ghost cv = claims_view(components@);
    let ghost before = out@;
    let mut i: usize = 0;
    while i < components.len()
        invariant
            i <= components.len(),
            cv == claims_view(components@),
            forall|name: Seq<char>|
                #![trigger out@.contains(name)]
                out@.contains(name) <==> before.contains(name) || exists|k: int|
                    0 <= k < i && (#[trigger] cv[k]).0 == name && holds(cv[k].1, *wanted),
        decreases components.len() - i,
    {
        assert(cv[i as int] == (components@[i as int].0@, components@[i as int].1@));
        if holds_claim(&components[i].1, wanted) {
            out.insert(components[i].0.clone());
        }
        i += 1;
    }
    assert(out@ =~= before.union(Set::new(|name: Seq<char>| claims(cv, name, *wanted))));
}

impl Resource {
    /// From given components returns all that have a resource conflict with
    /// any other component.
    ///
    /// Two components conflict when they declare the same resource, or when
    /// one binds a port on the wildcard address and the other binds the same
    /// port number on any address.
    pub fn conflicts(components: Vec<(String, Vec<Resource>)>) -> (result: StringHashSet)
        ensures
            result@ == conflict_set(claims_view(components@)),
    {
        Resource::conflicts_among(&components)
    }

    /// `conflicts`, of components that the caller keeps.
    pub fn conflicts_among(components: &Vec<(String, Vec<Resource>)>) -> (result: StringHashSet)
        ensures
            result@ == conflict_set(claims_view(components@)),
    {
        let ghost cv = claims_view(components@);
        let mut out = StringHashSet::new();
        let mut i: usize = 0;
        while i < components.len()
            invariant
                i <= components.len(),
                cv == claims_view(components@),
                forall|name: Seq<char>|
                    #![trigger out@.contains(name)]
                    out@.contains(name) <==> flagged_before(cv, name, i as int, 0),
            decreases components.len() - i,
        {
            assert(cv[i as int] == (components@[i as int].0@, components@[i as int].1@));
            let mut j: usize = 0;
            while j < components[i].1.len()
                invariant
                    i < components.len(),
                    j <= components@[i as int].1@.len(),
                    cv == claims_view(components@),
                    cv[i as int] == (components@[i as int].0@, components@[i as int].1@),
                    forall|name: Seq<char>|
                        #![trigger out@.contains(name)]
                        out@.contains(name) <==> flagged_before(cv, name, i as int, j as int),
                decreases components@[i as int].1@.len() - j,
            {
                let wanted = &components[i].1[j];
                let ghost before = out@;
                if claimed_by_other(components, &components[i].0, wanted) {
                    add_claimants(components, wanted, &mut out);
                }
                proof {
                    assert forall|name: Seq<char>|
                        #![trigger out@.contains(name)]
                        out@.contains(name) <==> flagged_before(
                            cv,
                            name,
                            i as int,
                            j as int + 1,
                        ) by {
                        lemma_flagged_step(cv, name, i as int, j as int);
                        assert(cv[i as int].1[j as int] == *wanted);
                        assert(cv[i as int].0 == components@[i as int].0@);
                        assert(before.contains(name) <==> flagged_before(
                            cv,
                            name,
                            i as int,
                            j as int,
                        ));
                        assert(flagged_at(cv, name, i as int, j as int) <==> contested_at(
                            cv,
                            i as int,
                            j as int,
                        ) && claims(cv, name, *wanted));
                    }
                }
                j += 1;
            }
            proof {
                assert forall|name: Seq<char>|
                    #![trigger out@.contains(name)]
                    out@.contains(name) <==> flagged_before(cv, name, i as int + 1, 0) by {
                    lemma_flagged_row(cv, name, i as int);
                }
            }
            i += 1;
        }
        proof {
            assert forall|name: Seq<char>|
                out@.contains(name) <==> conflict_set(cv).contains(name) by {
                lemma_conflict_is_flagged(cv, name);
            }
            assert(out@ =~= conflict_set(cv));
        }
        out
    }
}

/// Moving one position on adds exactly the names flagged at that position.
pub proof fn lemma_flagged_step(components: Claims, name: Seq<char>, i: int, j: int)
    ensures
        flagged_before(components, name, i, j + 1) <==> flagged_before(components, name, i, j)
            || flagged_at(components, name, i, j),
{
    if flagged_before(components, name, i, j + 1) {
        let (a, b) = choose|a: int, b: int|
            (a < i || (a == i && b < j + 1)) && #[trigger] flagged_at(components, name, a, b);
        if !(a == i && b == j) {
            assert((a < i || (a == i && b < j)) && flagged_at(components, name, a, b));
        }
    }
    if flagged_before(components, name, i, j) {
        let (a, b) = choose|a: int, b: int|
            (a < i || (a == i && b < j)) && #[trigger] flagged_at(components, name, a, b);
        assert((a < i || (a == i && b < j + 1)) && flagged_at(components, name, a, b));
    }
    if flagged_at(components, name, i, j) {
        assert((i < i || (i == i && j < j + 1)) && flagged_at(components, name, i, j));
    }
}

/// Once a component's resources are exhausted, the next component starts.
pub proof fn lemma_flagged_row(components: Claims, name: Seq<char>, i: int)
    requires
        0 <= i < components.len(),
    ensures
        flagged_before(components, name, i + 1, 0) <==> flagged_before(
            components,
            name,
            i,
            components[i].1.len() as int,
        ),
{
    let m = components[i].1.len() as int;
    if flagged_before(components, name, i + 1, 0) {
        let (a, b) = choose|a: int, b: int|
            (a < i + 1 || (a == i + 1 && b < 0)) && #[trigger] flagged_at(components, name, a, b);
        assert((a < i || (a == i && b < m)) && flagged_at(components, name, a, b));
    }
    if flagged_before(components, name, i, m) {
        let (a, b) = choose|a: int, b: int|
            (a < i || (a == i && b < m)) && #[trigger] flagged_at(components, name, a, b);
        assert((a < i + 1 || (a == i + 1 && b < 0)) && flagged_at(components, name, a, b));
    }
}

} // verus!
