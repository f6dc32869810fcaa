//! Stable addresses for the services on the dispenser network.
//!
//! The network is the fixed subnet 172.28.0.0/16 with its gateway at
//! 172.28.0.1. Addresses are given out by "reserve, then fill": a service that
//! had an address before keeps it, and each newcomer gets the lowest host
//! address that nobody holds. The result depends on nothing but the declared
//! names, in their order, and the earlier addresses.

use crate::atomic_socket::Ipv4Addr;
use crate::file::same_string;
use vstd::prelude::*;

verus! {

/// 172.28.0.0, the network's own address.
pub const SUBNET_BASE: u32 = 0xAC1C_0000;

/// 172.28.0.1, the gateway. No service ever gets it.
pub const GATEWAY: u32 = 0xAC1C_0001;

/// 172.28.0.2, the lowest address a service can get.
pub const FIRST_HOST: u32 = 0xAC1C_0002;

/// 172.28.255.254, the highest address a service can get: one below the
/// broadcast address.
pub const LAST_HOST: u32 = 0xAC1C_FFFE;

/// Why no addresses could be given out.
#[derive(Debug, Clone, Copy, PartialEq, Eq, Structural)]
pub enum IpAllocError {
    /// Some newcomer found every host address of the subnet taken.
    SubnetExhausted,
}

/// The earlier addresses as a list of pairs of a name and the 32 bits of its
/// address.
pub open spec fn prior_view(prev: Seq<(String, Ipv4Addr)>) -> Seq<(Seq<char>, u32)> {
    Seq::new(prev.len(), |i: int| (prev[i].0@, prev[i].1.bits))
}

/// The texts of a list of names.
pub open spec fn names_view(names: Seq<String>) -> Seq<Seq<char>> {
    Seq::new(names.len(), |i: int| names[i]@)
}

/// The bits of a list of addresses.
pub open spec fn bits_view(ips: Seq<Ipv4Addr>) -> Seq<u32> {
    Seq::new(ips.len(), |i: int| ips[i].bits)
}

/// The address that `name` had before: that of the first entry with this name.
pub open spec fn prior(prev: Seq<(Seq<char>, u32)>, name: Seq<char>) -> Option<u32>
    decreases prev.len(),
{
    if prev.len() == 0 {
        None
    } else if prev[0].0 == name {
        Some(prev[0].1)
    } else {
        prior(prev.drop_first(), name)
    }
}

/// Whether `ip` is carried over from before for one of the declared names.
pub open spec fn is_reserved(names: Seq<Seq<char>>, prev: Seq<(Seq<char>, u32)>, ip: u32) -> bool {
    exists|k: int| 0 <= k < names.len() && #[trigger] prior(prev, names[k]) == Some(ip)
}

/// Whether `ip` is taken when the service at position `i` is served: it is
/// the gateway, it is reserved, or a service before `i` has it.
pub open spec fn is_used(
    names: Seq<Seq<char>>,
    prev: Seq<(Seq<char>, u32)>,
    ips: Seq<u32>,
    i: int,
    ip: u32,
) -> bool {
    ip == GATEWAY || is_reserved(names, prev, ip) || exists|j: int|
        0 <= j < i && #[trigger] ips[j] == ip
}

/// Whether `ip` is the lowest host address that is not taken when the service
/// at position `i` is served.
pub open spec fn is_lowest_free(
    names: Seq<Seq<char>>,
    prev: Seq<(Seq<char>, u32)>,
    ips: Seq<u32>,
    i: int,
    ip: u32,
) -> bool {
    &&& FIRST_HOST <= ip <= LAST_HOST
    &&& !is_used(names, prev, ips, i, ip)
    &&& forall|k: u32| FIRST_HOST <= k < ip ==> #[trigger] is_used(names, prev, ips, i, k)
}

/// Whether the name at position `i` occurs before `i` as well.
pub open spec fn seen_before(names: Seq<Seq<char>>, i: int) -> bool {
    exists|j: int| 0 <= j < i && #[trigger] names[j] == names[i]
}

/// Whether the service at position `i` has the address that reserve-then-fill
/// gives it:
/// - the one it had before, if it had one;
/// - else the one given to the same name earlier in the list, if any;
/// - else the lowest host address not taken.
pub open spec fn assigned_at(
    names: Seq<Seq<char>>,
    prev: Seq<(Seq<char>, u32)>,
    ips: Seq<u32>,
    i: int,
) -> bool {
    match prior(prev, names[i]) {
        Some(ip) => ips[i] == ip,
        None => if seen_before(names, i) {
            forall|j: int| 0 <= j < i && #[trigger] names[j] == names[i] ==> ips[j] == ips[i]
        } else {
            is_lowest_free(names, prev, ips, i, ips[i])
        },
    }
}

/// Whether the first `n` of the addresses `ips` are those that
/// reserve-then-fill gives to the first `n` names.
pub open spec fn allocated_upto(
    names: Seq<Seq<char>>,
    prev: Seq<(Seq<char>, u32)>,
    ips: Seq<u32>,
    n: int,
) -> bool {
    &&& n <= names.len()
    &&& n <= ips.len()
    &&& forall|i: int| 0 <= i < n ==> #[trigger] assigned_at(names, prev, ips, i)
}

/// Whether `ips` are the addresses that reserve-then-fill gives to `names`,
/// one for each position.
pub open spec fn allocation(
    names: Seq<Seq<char>>,
    prev: Seq<(Seq<char>, u32)>,
    ips: Seq<u32>,
) -> bool {
    ips.len() == names.len() && allocated_upto(names, prev, ips, names.len() as int)
}

/// Whether the earlier addresses are sound for the declared names: each is
/// a host address, and two names do not share one.
pub open spec fn prior_is_sound(names: Seq<Seq<char>>, prev: Seq<(Seq<char>, u32)>) -> bool {
    &&& forall|k: int|
        0 <= k < names.len() ==> match #[trigger] prior(prev, names[k]) {
            Some(ip) => FIRST_HOST <= ip <= LAST_HOST,
            None => true,
        }
    &&& forall|k: int, l: int|
        0 <= k < names.len() && 0 <= l < names.len() && prior(prev, names[k]) is Some && prior(
            prev,
            names[k],
        ) == prior(prev, names[l]) ==> names[k] == names[l]
}

/// Two runs on the same input agree on every position they both reach.
pub proof fn lemma_allocation_prefix_is_unique(
    names: Seq<Seq<char>>,
    prev: Seq<(Seq<char>, u32)>,
    a: Seq<u32>,
    b: Seq<u32>,
    n: int,
)
    requires
        0 <= n,
        allocated_upto(names, prev, a, n),
        allocated_upto(names, prev, b, n),
    ensures
        forall|i: int| 0 <= i < n ==> a[i] == b[i],
    decreases n,
{
    if n > 0 {
        lemma_allocation_prefix_is_unique(names, prev, a, b, n - 1);
        let i = n - 1;
        assert(assigned_at(names, prev, a, i));
        assert(assigned_at(names, prev, b, i));
        if prior(prev, names[i]) is None {
            if seen_before(names, i) {
                let j = choose|j: int| 0 <= j < i && #[trigger] names[j] == names[i];
                assert(a[j] == a[i]);
                assert(b[j] == b[i]);
            } else {
                assert forall|ip: u32|
                    is_used(names, prev, a, i, ip) == is_used(names, prev, b, i, ip) by {
                    if exists|j: int| 0 <= j < i && #[trigger] a[j] == ip {
                        let j = choose|j: int| 0 <= j < i && #[trigger] a[j] == ip;
                        assert(b[j] == ip);
                    }
                    if exists|j: int| 0 <= j < i && #[trigger] b[j] == ip {
                        let j = choose|j: int| 0 <= j < i && #[trigger] b[j] == ip;
                        assert(a[j] == ip);
                    }
                }
                if a[i] < b[i] {
                    assert(is_used(names, prev, b, i, a[i]));
                } else if b[i] < a[i] {
                    assert(is_used(names, prev, a, i, b[i]));
                }
            }
        }
    }
}

/// Allocating twice with identical inputs yields identical outputs.
pub proof fn lemma_allocation_is_deterministic(
    names: Seq<Seq<char>>,
    prev: Seq<(Seq<char>, u32)>,
    a: Seq<u32>,
    b: Seq<u32>,
)
    requires
        allocation(names, prev, a),
        allocation(names, prev, b),
    ensures
        a == b,
{
    lemma_allocation_prefix_is_unique(names, prev, a, b, names.len() as int);
    assert(a =~= b);
}

/// A service that had an address before the reload has the same one after.
pub proof fn lemma_survivor_keeps_address(
    names: Seq<Seq<char>>,
    prev: Seq<(Seq<char>, u32)>,
    ips: Seq<u32>,
    i: int,
)
    requires
        allocation(names, prev, ips),
        0 <= i < names.len(),
        prior(prev, names[i]) is Some,
    ensures
        Some(ips[i]) == prior(prev, names[i]),
{
    assert(assigned_at(names, prev, ips, i));
}

/// Where the earlier addresses are sound, so are the new ones: every service
/// has a host address, never the gateway, the same name has one address, and
/// two names never share one.
pub proof fn lemma_allocation_is_sound(
    names: Seq<Seq<char>>,
    prev: Seq<(Seq<char>, u32)>,
    ips: Seq<u32>,
    n: int,
)
    requires
        0 <= n,
        allocated_upto(names, prev, ips, n),
        prior_is_sound(names, prev),
    ensures
        forall|i: int| 0 <= i < n ==> FIRST_HOST <= #[trigger] ips[i] <= LAST_HOST,
        forall|i: int, j: int| 0 <= i < n && 0 <= j < n ==> (names[i] == names[j] <==> ips[i] == ips[j]),
    decreases n,
{
    if n > 0 {
        lemma_allocation_is_sound(names, prev, ips, n - 1);
        let i = n - 1;
        assert(assigned_at(names, prev, ips, i));
        match prior(prev, names[i]) {
            Some(ip) => {
                assert forall|j: int| 0 <= j < i implies (names[i] == names[j] <==> ips[i]
                    == ips[j]) by {
                    assert(assigned_at(names, prev, ips, j));
                    if ips[j] == ip && prior(prev, names[j]) is None {
                        lemma_unreserved_is_not_reserved(names, prev, ips, j);
                        assert(is_reserved(names, prev, ip));
                    }
                }
            },
            None => {
                if seen_before(names, i) {
                    let w = choose|w: int| 0 <= w < i && #[trigger] names[w] == names[i];
                    assert(ips[w] == ips[i]);
                    assert forall|j: int| 0 <= j < i implies (names[i] == names[j] <==> ips[i]
                        == ips[j]) by {
                        assert(names[w] == names[j] <==> ips[w] == ips[j]);
                    }
                } else {
                    assert forall|j: int| 0 <= j < i implies (names[i] == names[j] <==> ips[i]
                        == ips[j]) by {
                        if ips[j] == ips[i] {
                            assert(is_used(names, prev, ips, i, ips[i]));
                        }
                    }
                }
            },
        }
    }
}

/// Whether the addresses of a generation are sound: there is one for every
/// service, each is a host address, the same name has one address, and two
/// names never share one.
pub open spec fn addresses_are_sound(names: Seq<Seq<char>>, ips: Seq<u32>) -> bool {
    &&& ips.len() == names.len()
    &&& forall|i: int| 0 <= i < ips.len() ==> FIRST_HOST <= #[trigger] ips[i] <= LAST_HOST
    &&& forall|i: int, j: int|
        0 <= i < ips.len() && 0 <= j < ips.len() ==> (names[i] == names[j] <==> ips[i] == ips[j])
}

/// Where every service has a name of its own, it has an address of its own:
/// sound addresses are unique across the services, and none is the gateway.
pub proof fn lemma_sound_addresses_are_unique(names: Seq<Seq<char>>, ips: Seq<u32>)
    requires
        addresses_are_sound(names, ips),
        forall|i: int, j: int| 0 <= i < j < names.len() ==> names[i] != names[j],
    ensures
        forall|i: int, j: int| 0 <= i < j < ips.len() ==> ips[i] != ips[j],
        forall|i: int| 0 <= i < ips.len() ==> #[trigger] ips[i] != GATEWAY,
{
}

/// The addresses of a generation as the next generation is handed them: one
/// entry per service, its name with its address.
pub open spec fn handed_on(names: Seq<Seq<char>>, ips: Seq<u32>) -> Seq<(Seq<char>, u32)> {
    Seq::new(names.len(), |i: int| (names[i], ips[i]))
}

/// The address that a name had before is that of an entry with this name; a
/// name without an entry had none.
pub proof fn lemma_prior_is_an_entry(prev: Seq<(Seq<char>, u32)>, name: Seq<char>)
    ensures
        match prior(prev, name) {
            Some(ip) => exists|k: int| 0 <= k < prev.len() && #[trigger] prev[k] == (name, ip),
            None => forall|k: int| 0 <= k < prev.len() ==> (#[trigger] prev[k]).0 != name,
        },
    decreases prev.len(),
{
    if prev.len() > 0 {
        if prev[0].0 == name {
            assert(prev[0] == (name, prev[0].1));
        } else {
            let rest = prev.drop_first();
            lemma_prior_is_an_entry(rest, name);
            match prior(rest, name) {
                Some(ip) => {
                    let k = choose|k: int| 0 <= k < rest.len() && #[trigger] rest[k] == (name, ip);
                    assert(prev[k + 1] == (name, ip));
                },
                None => {
                    assert forall|k: int| 0 <= k < prev.len() implies (#[trigger] prev[k]).0
                        != name by {
                        if k > 0 {
                            assert(rest[k - 1] == prev[k]);
                        }
                    }
                },
            }
        }
    }
}

/// From generation to generation the addresses stay sound: where those of
/// the running generation are sound, so are the ones that the next generation
/// is given when it is handed them, whatever it declares. The first
/// generation is handed none, so its addresses are sound as well.
pub proof fn lemma_generations_keep_addresses_sound(
    old_names: Seq<Seq<char>>,
    old_ips: Seq<u32>,
    names: Seq<Seq<char>>,
    ips: Seq<u32>,
)
    requires
        addresses_are_sound(old_names, old_ips),
        allocation(names, handed_on(old_names, old_ips), ips),
    ensures
        addresses_are_sound(names, ips),
{
    let prev = handed_on(old_names, old_ips);
    assert forall|k: int| 0 <= k < names.len() implies match #[trigger] prior(prev, names[k]) {
        Some(ip) => FIRST_HOST <= ip <= LAST_HOST,
        None => true,
    } by {
        lemma_prior_is_an_entry(prev, names[k]);
        match prior(prev, names[k]) {
            Some(ip) => {
                let m = choose|m: int| 0 <= m < prev.len() && #[trigger] prev[m] == (names[k], ip);
                assert(old_ips[m] == ip);
            },
            None => {},
        }
    }
    assert forall|k: int, l: int|
        0 <= k < names.len() && 0 <= l < names.len() && prior(prev, names[k]) is Some && prior(
            prev,
            names[k],
        ) == prior(prev, names[l]) implies names[k] == names[l] by {
        lemma_prior_is_an_entry(prev, names[k]);
        lemma_prior_is_an_entry(prev, names[l]);
        let ip = prior(prev, names[k]).unwrap();
        let m = choose|m: int| 0 <= m < prev.len() && #[trigger] prev[m] == (names[k], ip);
        let n = choose|n: int| 0 <= n < prev.len() && #[trigger] prev[n] == (names[l], ip);
        assert(old_ips[m] == old_ips[n]);
        assert(old_names[m] == old_names[n]);
    }
    assert(prior_is_sound(names, prev));
    lemma_allocation_is_sound(names, prev, ips, names.len() as int);
}

/// An address given to a name that had none before is not a reserved one.
proof fn lemma_unreserved_is_not_reserved(
    names: Seq<Seq<char>>,
    prev: Seq<(Seq<char>, u32)>,
    ips: Seq<u32>,
    j: int,
)
    requires
        0 <= j < names.len(),
        j < ips.len(),
        allocated_upto(names, prev, ips, j + 1),
        prior(prev, names[j]) is None,
    ensures
        !is_reserved(names, prev, ips[j]),
    decreases j,
{
    assert(assigned_at(names, prev, ips, j));
    if seen_before(names, j) {
        let w = choose|w: int| 0 <= w < j && #[trigger] names[w] == names[j];
        assert(ips[w] == ips[j]);
        assert(allocated_upto(names, prev, ips, w + 1));
        lemma_unreserved_is_not_reserved(names, prev, ips, w);
    } else {
        assert(!is_used(names, prev, ips, j, ips[j]));
    }
}

/// The address that `name` had before.
pub fn prior_of(previous: &Vec<(String, Ipv4Addr)>, name: &String) -> (r: Option<Ipv4Addr>)
    ensures
        match r {
            Some(ip) => prior(prior_view(previous@), name@) == Some(ip.bits),
            None => prior(prior_view(previous@), name@) is None,
        },
{
    let ghost prev = prior_view(previous@);
    assert(prev.subrange(0, prev.len() as int) =~= prev);
    let mut i: usize = 0;
    while i < previous.len()
        invariant
            i <= previous.len(),
            prev == prior_view(previous@),
            prior(prev, name@) == prior(prev.subrange(i as int, prev.len() as int), name@),
        decreases previous.len() - i,
    {
        let ghost rest = prev.subrange(i as int, prev.len() as int);
        assert(rest[0] == prev[i as int]);
        assert(rest.drop_first() =~= prev.subrange(i + 1, prev.len() as int));
        if same_string(&previous[i].0, name) {
            return Some(previous[i].1);
        }
        i += 1;
    }
    None
}

/// The position before `i` at which the name at `i` occurs, if there is one.
fn earlier_position(names: &Vec<String>, i: usize) -> (r: Option<usize>)
    requires
        i < names.len(),
    ensures
        match r {
            Some(j) => j < i && names@[j as int]@ == names@[i as int]@,
            None => !seen_before(names_view(names@), i as int),
        },
{
    let mut j: usize = 0;
    while j < i
        invariant
            j <= i < names.len(),
            forall|k: int| 0 <= k < j ==> names_view(names@)[k] != names_view(names@)[i as int],
        decreases i - j,
    {
        if same_string(&names[j], &names[i]) {
            return Some(j);
        }
        j += 1;
    }
    None
}

/// Whether the addresses `ips` are sound for the services `names`: there is
/// one for every service, each is a host address, the same name has one
/// address, and two names never share one.
pub fn addresses_sound(names: &Vec<String>, ips: &Vec<Ipv4Addr>) -> (r: bool)
    ensures
        r == addresses_are_sound(names_view(names@), bits_view(ips@)),
{
    if ips.len() != names.len() {
        return false;
    }
    let ghost ns = names_view(names@);
    let ghost bs = bits_view(ips@);
    let n = ips.len();
    let mut i: usize = 0;
    while i < n
        invariant
            i <= n,
            n == ips.len(),
            n == names.len(),
            ns == names_view(names@),
            bs == bits_view(ips@),
            forall|k: int| 0 <= k < i ==> FIRST_HOST <= #[trigger] bs[k] <= LAST_HOST,
            forall|k: int, l: int|
                0 <= l < k < i ==> (ns[k] == ns[l] <==> bs[k] == bs[l]),
        decreases n - i,
    {
        let bits = ips[i].to_bits();
        if bits < FIRST_HOST || bits > LAST_HOST {
            assert(!(FIRST_HOST <= bs[i as int] <= LAST_HOST));
            return false;
        }
        let mut j: usize = 0;
        while j < i
            invariant
                j <= i < n,
                n == ips.len(),
                n == names.len(),
                ns == names_view(names@),
                bs == bits_view(ips@),
                bits == bs[i as int],
                forall|l: int| 0 <= l < j ==> (ns[i as int] == ns[l] <==> bs[i as int] == bs[l]),
            decreases i - j,
        {
            let same_name = same_string(&names[i], &names[j]);
            let same_address = ips[j].to_bits() == bits;
            if same_name != same_address {
                assert(!(ns[i as int] == ns[j as int] <==> bs[i as int] == bs[j as int]));
                return false;
            }
            j += 1;
        }
        i += 1;
    }
    assert forall|k: int, l: int| 0 <= k < n && 0 <= l < n implies (ns[k] == ns[l] <==> bs[k]
        == bs[l]) by {
        if l < k {
        } else if k < l {
            assert(ns[l] == ns[k] <==> bs[l] == bs[k]);
        }
    }
    true
}

/// The number of host addresses of the subnet.
pub const HOST_COUNT: usize = 0xFFFD;

/// Gives every declared service its address by reserve-then-fill.
///
/// `names` are the declared services in their order, `previous` the
/// addresses of the generation before (empty at first start). The result
/// holds one address per position of `names`. It fails only if a newcomer
/// finds every host address of the subnet taken.
pub fn allocate_ips(names: &Vec<String>, previous: &Vec<(String, Ipv4Addr)>) -> (r: Result<
    Vec<Ipv4Addr>,
    IpAllocError,
>)
    ensures
        match r {
            Ok(ips) => allocation(names_view(names@), prior_view(previous@), bits_view(ips@)),
            Err(e) => e == IpAllocError::SubnetExhausted && forall|ips: Seq<u32>|
                !allocation(names_view(names@), prior_view(previous@), ips),
        },
{
    let ghost nv = names_view(names@);
    let ghost pv = prior_view(previous@);
    // Reserve: what each declared service had before. `taken` marks the host
    // addresses that are taken, the first host address at position 0.
    let mut reserved: Vec<Option<Ipv4Addr>> = Vec::new();
    let mut taken: Vec<bool> = vec![false; HOST_COUNT];
    let mut k: usize = 0;
    while k < names.len()
        invariant
            k <= names.len(),
            reserved.len() == k,
            nv == names_view(names@),
            pv == prior_view(previous@),
            taken@.len() == HOST_COUNT,
            forall|l: int|
                0 <= l < k ==> prior(pv, #[trigger] nv[l]) == match reserved@[l] {
                    Some(a) => Some(a.bits),
                    None => None,
                },
            forall|c: u32|
                FIRST_HOST <= c <= LAST_HOST ==> (#[trigger] taken@[c - FIRST_HOST] <==> exists|
                    l: int,
                |
                    0 <= l < k && #[trigger] prior(pv, nv[l]) == Some(c)),
        decreases names.len() - k,
    {
        let p = prior_of(previous, &names[k]);
        let ghost before = taken@;
        match p {
            Some(a) => {
                if FIRST_HOST <= a.bits && a.bits <= LAST_HOST {
                    taken.set((a.bits - FIRST_HOST) as usize, true);
                }
            },
            None => {},
        }
        reserved.push(p);
        proof {
            assert forall|c: u32| FIRST_HOST <= c <= LAST_HOST implies (#[trigger] taken@[c
                - FIRST_HOST] <==> exists|l: int|
                0 <= l < k + 1 && #[trigger] prior(pv, nv[l]) == Some(c)) by {
                let was = exists|l: int| 0 <= l < k && #[trigger] prior(pv, nv[l]) == Some(c);
                assert(before[c - FIRST_HOST] <==> was);
                if was {
                    let l = choose|l: int| 0 <= l < k && #[trigger] prior(pv, nv[l]) == Some(c);
                    assert(0 <= l < k + 1 && prior(pv, nv[l]) == Some(c));
                }
                if prior(pv, nv[k as int]) == Some(c) {
                    assert(0 <= k < k + 1 && prior(pv, nv[k as int]) == Some(c));
                }
                if exists|l: int| 0 <= l < k + 1 && #[trigger] prior(pv, nv[l]) == Some(c) {
                    let l = choose|l: int|
                        0 <= l < k + 1 && #[trigger] prior(pv, nv[l]) == Some(c);
                    if l < k {
                        assert(was);
                    }
                }
            }
        }
        k += 1;
    }
    // Fill: walk the services in order. Taken addresses are never given back,
    // so the lowest free one only moves up.
    let mut ips: Vec<Ipv4Addr> = Vec::new();
    let mut cursor: u32 = FIRST_HOST;
    let mut i: usize = 0;
    assert(bits_view(ips@).len() == 0);
    while i < names.len()
        invariant
            i <= names.len(),
            ips.len() == i,
            reserved.len() == names.len(),
            nv == names_view(names@),
            pv == prior_view(previous@),
            nv.len() == names.len(),
            taken@.len() == HOST_COUNT,
            forall|l: int|
                0 <= l < nv.len() ==> prior(pv, #[trigger] nv[l]) == match reserved@[l] {
                    Some(a) => Some(a.bits),
                    None => None,
                },
            allocated_upto(nv, pv, bits_view(ips@), i as int),
            FIRST_HOST <= cursor <= LAST_HOST + 1,
            forall|c: u32|
                FIRST_HOST <= c < cursor ==> #[trigger] is_used(nv, pv, bits_view(ips@), i as int, c),
            forall|c: u32|
                FIRST_HOST <= c <= LAST_HOST ==> (#[trigger] taken@[c - FIRST_HOST] <==> is_used(
                    nv,
                    pv,
                    bits_view(ips@),
                    i as int,
                    c,
                )),
        decreases names.len() - i,
    {
        let ghost before = bits_view(ips@);
        let ghost marks = taken@;
        let ip: Ipv4Addr = match reserved[i] {
            Some(a) => {
                assert(prior(pv, nv[i as int]) == Some(a.bits));
                assert(assigned_at(nv, pv, before.push(a.bits), i as int));
                assert(is_reserved(nv, pv, a.bits));
                a
            },
            None => match earlier_position(names, i) {
                Some(j) => {
                    proof {
                        lemma_same_name_same_address(nv, pv, before, i as int);
                        assert(prior(pv, nv[i as int]) is None);
                        assert(nv[j as int] == nv[i as int]);
                        assert(seen_before(nv, i as int));
                        let next = before.push(before[j as int]);
                        assert forall|l: int| 0 <= l < i && #[trigger] nv[l] == nv[i as int] implies next[l]
                            == next[i as int] by {
                            assert(before[l] == before[j as int]);
                        }
                        assert(assigned_at(nv, pv, next, i as int));
                        assert(is_used(nv, pv, before, i as int, before[j as int]));
                    }
                    ips[j]
                },
                None => {
                    while cursor <= LAST_HOST && taken[(cursor - FIRST_HOST) as usize]
                        invariant
                            taken@ == marks,
                            taken@.len() == HOST_COUNT,
                            FIRST_HOST <= cursor <= LAST_HOST + 1,
                            forall|c: u32|
                                FIRST_HOST <= c <= LAST_HOST ==> (#[trigger] marks[c - FIRST_HOST]
                                    <==> is_used(nv, pv, before, i as int, c)),
                            forall|c: u32|
                                FIRST_HOST <= c < cursor ==> #[trigger] is_used(
                                    nv,
                                    pv,
                                    before,
                                    i as int,
                                    c,
                                ),
                        decreases LAST_HOST + 1 - cursor,
                    {
                        cursor += 1;
                    }
                    if cursor > LAST_HOST {
                        proof {
                            assert forall|w: Seq<u32>| !allocation(nv, pv, w) by {
                                if allocation(nv, pv, w) {
                                    assert(allocated_upto(nv, pv, w, i as int));
                                    lemma_allocation_prefix_is_unique(nv, pv, before, w, i as int);
                                    assert(assigned_at(nv, pv, w, i as int));
                                    let c = w[i as int];
                                    assert(is_lowest_free(nv, pv, w, i as int, c));
                                    assert(is_used(nv, pv, before, i as int, c));
                                    if exists|j: int| 0 <= j < i && #[trigger] before[j] == c {
                                        let j = choose|j: int|
                                            0 <= j < i && #[trigger] before[j] == c;
                                        assert(w[j] == c);
                                    }
                                }
                            }
                        }
                        return Err(IpAllocError::SubnetExhausted);
                    }
                    proof {
                        assert(prior(pv, nv[i as int]) is None);
                        assert(!marks[cursor - FIRST_HOST]);
                        assert(!is_used(nv, pv, before, i as int, cursor));
                        let next = before.push(cursor);
                        lemma_used_reads_prefix(nv, pv, before, next, i as int);
                        assert(assigned_at(nv, pv, next, i as int));
                    }
                    taken.set((cursor - FIRST_HOST) as usize, true);
                    Ipv4Addr { bits: cursor }
                },
            },
        };
        ips.push(ip);
        proof {
            let after = bits_view(ips@);
            assert(after =~= before.push(ip.bits));
            assert(after.len() == i + 1);
            assert forall|l: int| 0 <= l < i implies after[l] == before[l] by {}
            assert forall|l: int| 0 <= l < i implies #[trigger] assigned_at(nv, pv, after, l) by {
                assert(assigned_at(nv, pv, before, l));
                lemma_assigned_at_reads_prefix(nv, pv, before, after, l);
            }
            lemma_used_reads_prefix(nv, pv, before, after, i as int);
            assert(assigned_at(nv, pv, after, i as int));
            // What is taken for the next service: what was taken for this
            // one, and the address that this one got.
            assert forall|c: u32| is_used(nv, pv, after, i + 1, c) <==> (is_used(
                nv,
                pv,
                before,
                i as int,
                c,
            ) || c == ip.bits) by {
                if exists|j: int| 0 <= j < i + 1 && #[trigger] after[j] == c {
                    let j = choose|j: int| 0 <= j < i + 1 && #[trigger] after[j] == c;
                    if j < i {
                        assert(before[j] == c);
                    }
                }
                if exists|j: int| 0 <= j < i && #[trigger] before[j] == c {
                    let j = choose|j: int| 0 <= j < i && #[trigger] before[j] == c;
                    assert(after[j] == c);
                }
                if c == ip.bits {
                    assert(after[i as int] == c);
                }
            }
            assert forall|c: u32| FIRST_HOST <= c <= LAST_HOST implies (#[trigger] taken@[c
                - FIRST_HOST] <==> is_used(nv, pv, after, i + 1, c)) by {
                assert(marks[c - FIRST_HOST] <==> is_used(nv, pv, before, i as int, c));
            }
            assert forall|c: u32| FIRST_HOST <= c < cursor implies #[trigger] is_used(
                nv,
                pv,
                after,
                i + 1,
                c,
            ) by {
                assert(is_used(nv, pv, before, i as int, c));
            }
        }
        i += 1;
    }
    Ok(ips)
}

/// Which addresses are taken at position `i` depends only on the addresses
/// before `i`.
proof fn lemma_used_reads_prefix(
    names: Seq<Seq<char>>,
    prev: Seq<(Seq<char>, u32)>,
    a: Seq<u32>,
    b: Seq<u32>,
    i: int,
)
    requires
        0 <= i <= a.len(),
        i <= b.len(),
        forall|l: int| 0 <= l < i ==> a[l] == b[l],
    ensures
        forall|c: u32| is_used(names, prev, a, i, c) == is_used(names, prev, b, i, c),
{
    assert forall|c: u32| is_used(names, prev, a, i, c) == is_used(names, prev, b, i, c) by {
        if exists|j: int| 0 <= j < i && #[trigger] a[j] == c {
            let j = choose|j: int| 0 <= j < i && #[trigger] a[j] == c;
            assert(b[j] == c);
        }
        if exists|j: int| 0 <= j < i && #[trigger] b[j] == c {
            let j = choose|j: int| 0 <= j < i && #[trigger] b[j] == c;
            assert(a[j] == c);
        }
    }
}

/// Whether position `i` is served as it should be depends only on the
/// addresses up to `i`.
proof fn lemma_assigned_at_reads_prefix(
    names: Seq<Seq<char>>,
    prev: Seq<(Seq<char>, u32)>,
    a: Seq<u32>,
    b: Seq<u32>,
    i: int,
)
    requires
        0 <= i < a.len(),
        i < b.len(),
        forall|l: int| 0 <= l <= i ==> a[l] == b[l],
        assigned_at(names, prev, a, i),
    ensures
        assigned_at(names, prev, b, i),
{
    if prior(prev, names[i]) is None && !seen_before(names, i) {
        assert forall|c: u32| is_used(names, prev, a, i, c) == is_used(names, prev, b, i, c) by {
            if exists|j: int| 0 <= j < i && #[trigger] a[j] == c {
                let j = choose|j: int| 0 <= j < i && #[trigger] a[j] == c;
                assert(b[j] == c);
            }
            if exists|j: int| 0 <= j < i && #[trigger] b[j] == c {
                let j = choose|j: int| 0 <= j < i && #[trigger] b[j] == c;
                assert(a[j] == c);
            }
        }
    }
}

/// All earlier occurrences of one name have one address.
proof fn lemma_same_name_same_address(
    names: Seq<Seq<char>>,
    prev: Seq<(Seq<char>, u32)>,
    ips: Seq<u32>,
    i: int,
)
    requires
        0 <= i < names.len(),
        allocated_upto(names, prev, ips, i),
    ensures
        forall|j: int, l: int|
            0 <= j < i && 0 <= l < i && names[j] == names[i] && names[l] == names[i] ==> ips[j]
                == ips[l],
{
    assert forall|j: int, l: int|
        0 <= j < i && 0 <= l < i && names[j] == names[i] && names[l] == names[i] implies ips[j]
        == ips[l] by {
        assert(assigned_at(names, prev, ips, j));
        assert(assigned_at(names, prev, ips, l));
        if prior(prev, names[i]) is None {
            if j < l {
                assert(seen_before(names, l));
            } else if l < j {
                assert(seen_before(names, j));
            }
        }
    }
}

} // verus!
