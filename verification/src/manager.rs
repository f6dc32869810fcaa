//! The services manager: the services of one generation, their addresses and
//! their routes.
//!
//! A manager is made from a configuration and lives until the next reload or
//! the shutdown. The next generation is made while this one still runs, and
//! takes over the addresses of the services that stay.

use crate::atomic_socket::{Ipv4Addr, SocketAddrV4};
use crate::file::{
    same_string, DependsOnCondition, ProxySettings, ProxySettingsView, ProxyStrategy, ServiceFile,
};
use crate::cron_watcher::CronWatcher;
use crate::instance::ServiceInstance;
use crate::keyed::{is_keyed, text_before};
use crate::ip_alloc::{
    addresses_are_sound, allocate_ips, allocation, bits_view, lemma_allocation_is_sound,
    prior_is_sound, prior_view, IpAllocError,
};
use crate::manifest::ImageWatcher;
use crate::network::NetworkInstance;
use crate::route::{build_routes, resolved, route_decls, RouteTable};
use crate::text::{push_str, string_of, strings_view};
use vstd::prelude::*;

verus! {

/// Whether `name` is among `names`.
pub fn contains_name(names: &Vec<String>, name: &String) -> (r: bool)
    ensures
        r == strings_view(names@).contains(name@),
{
    let mut i: usize = 0;
    while i < names.len()
        invariant
            i <= names.len(),
            forall|j: int| 0 <= j < i ==> strings_view(names@)[j] != name@,
        decreases names.len() - i,
    {
        if same_string(&names[i], name) {
            assert(strings_view(names@)[i as int] == name@);
            return true;
        }
        i += 1;
    }
    false
}

/// The names of the declared services, in order.
pub open spec fn declared_names(files: Seq<ServiceFile>) -> Seq<Seq<char>> {
    Seq::new(files.len(), |i: int| files[i].service.name@)
}

/// The dependencies among `deps` whose peer is one of `names`, in order.
pub open spec fn kept(deps: Seq<(String, DependsOnCondition)>, names: Seq<Seq<char>>) -> Seq<
    (Seq<char>, DependsOnCondition),
>
    decreases deps.len(),
{
    if deps.len() == 0 {
        Seq::<(Seq<char>, DependsOnCondition)>::empty()
    } else if names.contains(deps.last().0@) {
        kept(deps.drop_last(), names).push((deps.last().0@, deps.last().1))
    } else {
        kept(deps.drop_last(), names)
    }
}

/// Dropping dependencies leaves the others in their order: where the
/// dependencies stand for a map, so do those that are kept, and each of them
/// is one of the first.
pub proof fn lemma_pruning_keeps_the_keys(
    deps: Seq<(String, DependsOnCondition)>,
    names: Seq<Seq<char>>,
)
    requires
        is_keyed(crate::file::depends_view(deps)),
    ensures
        is_keyed(kept(deps, names)),
        forall|k: int|
            0 <= k < kept(deps, names).len() ==> crate::file::depends_view(deps).contains(
                #[trigger] kept(deps, names)[k],
            ),
    decreases deps.len(),
{
    if deps.len() > 0 {
        let all = crate::file::depends_view(deps);
        let front = deps.drop_last();
        let n = deps.len() - 1;
        assert forall|i: int, j: int| 0 <= i < j < front.len() implies text_before(
            (#[trigger] crate::file::depends_view(front)[i]).0,
            (#[trigger] crate::file::depends_view(front)[j]).0,
        ) by {
            assert(text_before(all[i].0, all[j].0));
        }
        lemma_pruning_keeps_the_keys(front, names);
        let before = kept(front, names);
        let after = kept(deps, names);
        assert forall|k: int| 0 <= k < after.len() implies all.contains(#[trigger] after[k]) by {
            if k < before.len() {
                assert(after[k] == before[k]);
                let i = crate::file::depends_view(front).index_of(before[k]);
                assert(all[i] == after[k]);
            } else {
                assert(all[n] == after[k]);
            }
        }
        assert forall|p: int, q: int| 0 <= p < q < after.len() implies text_before(
            (#[trigger] after[p]).0,
            (#[trigger] after[q]).0,
        ) by {
            if q < before.len() {
                assert(text_before(before[p].0, before[q].0));
            } else {
                let i = crate::file::depends_view(front).index_of(before[p]);
                assert(all[i] == before[p]);
                assert(text_before(all[i].0, all[n].0));
            }
        }
    } else {
        assert(kept(deps, names).len() == 0);
    }
}

/// Every dependency that is kept is one on a declared peer.
pub proof fn lemma_kept_peers_are_declared(
    deps: Seq<(String, DependsOnCondition)>,
    names: Seq<Seq<char>>,
)
    ensures
        forall|k: int|
            0 <= k < kept(deps, names).len() ==> names.contains((#[trigger] kept(deps, names)[k]).0),
    decreases deps.len(),
{
    if deps.len() > 0 {
        lemma_kept_peers_are_declared(deps.drop_last(), names);
        let before = kept(deps.drop_last(), names);
        let after = kept(deps, names);
        assert forall|k: int| 0 <= k < after.len() implies names.contains(
            (#[trigger] after[k]).0,
        ) by {
            if k < before.len() {
                assert(after[k] == before[k]);
            }
        }
    } else {
        assert(kept(deps, names).len() == 0);
    }
}

/// Whether the dependency at position `k` of the service at position `i` is
/// one on a peer that is not declared.
pub open spec fn is_unknown_reference(files: Seq<ServiceFile>, i: int, k: int) -> bool {
    &&& 0 <= i < files.len()
    &&& 0 <= k < files[i].depends_on@.len()
    &&& !declared_names(files).contains(files[i].depends_on@[k].0@)
}

/// Whether every dependency of every service is one on a declared peer.
pub open spec fn references_are_known(files: Seq<ServiceFile>) -> bool {
    forall|i: int, k: int| !#[trigger] is_unknown_reference(files, i, k)
}

/// The first dependency on a peer that is not declared, by the position of
/// the service and the position of the dependency in its list; nothing where
/// every peer is declared. A configuration with such a dependency is not
/// valid.
pub fn first_unknown_dependency(files: &Vec<ServiceFile>) -> (r: Option<(usize, usize)>)
    ensures
        match r {
            Some((i, k)) => is_unknown_reference(files@, i as int, k as int) && forall|
                a: int,
                b: int,
            | #[trigger]
                is_unknown_reference(files@, a, b) ==> i < a || (i == a && k <= b),
            None => references_are_known(files@),
        },
{
    let names = service_names_of(files);
    let mut i: usize = 0;
    while i < files.len()
        invariant
            i <= files.len(),
            strings_view(names@) == declared_names(files@),
            forall|a: int, b: int| a < i ==> !#[trigger] is_unknown_reference(files@, a, b),
        decreases files.len() - i,
    {
        let deps = &files[i].depends_on;
        let mut k: usize = 0;
        while k < deps.len()
            invariant
                i < files.len(),
                k <= deps.len(),
                deps == &files@[i as int].depends_on,
                strings_view(names@) == declared_names(files@),
                forall|a: int, b: int| a < i ==> !#[trigger] is_unknown_reference(files@, a, b),
                forall|b: int| b < k ==> !#[trigger] is_unknown_reference(files@, i as int, b),
            decreases deps.len() - k,
        {
            if !contains_name(&names, &deps[k].0) {
                return Some((i, k));
            }
            k += 1;
        }
        i += 1;
    }
    None
}

/// The names of the services of `files`.
pub fn service_names_of(files: &Vec<ServiceFile>) -> (names: Vec<String>)
    ensures
        strings_view(names@) == declared_names(files@),
{
    let mut names: Vec<String> = Vec::new();
    let mut i: usize = 0;
    while i < files.len()
        invariant
            i <= files.len(),
            names@.len() == i,
            forall|j: int| 0 <= j < i ==> names@[j]@ == files@[j].service.name@,
        decreases files.len() - i,
    {
        names.push(files[i].service.name.clone());
        i += 1;
    }
    assert(strings_view(names@) =~= declared_names(files@));
    names
}

/// The dependencies of one service without those on peers that are not
/// loaded.
pub fn prune_dependencies(deps: &Vec<(String, DependsOnCondition)>, names: &Vec<String>) -> (r: Vec<
    (String, DependsOnCondition),
>)
    ensures
        crate::file::depends_view(r@) == kept(deps@, strings_view(names@)),
        is_keyed(crate::file::depends_view(deps@)) ==> is_keyed(crate::file::depends_view(r@)),
{
    let ghost all = strings_view(names@);
    proof {
        if is_keyed(crate::file::depends_view(deps@)) {
            lemma_pruning_keeps_the_keys(deps@, all);
        }
    }
    let mut out: Vec<(String, DependsOnCondition)> = Vec::new();
    let mut i: usize = 0;
    assert(crate::file::depends_view(out@) =~= kept(deps@.subrange(0, 0), all));
    while i < deps.len()
        invariant
            i <= deps.len(),
            all == strings_view(names@),
            crate::file::depends_view(out@) == kept(deps@.subrange(0, i as int), all),
        decreases deps.len() - i,
    {
        let ghost before = crate::file::depends_view(out@);
        assert(deps@.subrange(0, i + 1).drop_last() =~= deps@.subrange(0, i as int));
        assert(deps@.subrange(0, i + 1).last() == deps@[i as int]);
        if contains_name(names, &deps[i].0) {
            out.push((deps[i].0.clone(), deps[i].1));
            assert(crate::file::depends_view(out@) =~= before.push(
                (deps@[i as int].0@, deps@[i as int].1),
            ));
        }
        i += 1;
    }
    assert(deps@.subrange(0, deps@.len() as int) =~= deps@);
    out
}

/// Drops from every declaration the dependencies on peers that are not among
/// the declared services. Nothing else changes.
pub fn prune_depends_on(files: &mut Vec<ServiceFile>)
    ensures
        final(files)@.len() == old(files)@.len(),
        forall|i: int|
            0 <= i < old(files)@.len() ==> {
                &&& crate::file::depends_view((#[trigger] final(files)@[i]).depends_on@) == kept(
                    old(files)@[i].depends_on@,
                    declared_names(old(files)@),
                )
                &&& final(files)@[i] == (ServiceFile {
                    depends_on: final(files)@[i].depends_on,
                    ..old(files)@[i]
                })
            },
        forall|i: int|
            0 <= i < old(files)@.len() && old(files)@[i].is_keyed() ==> (
            #[trigger] final(files)@[i]).is_keyed(),
        references_are_known(final(files)@),
{
    let names = service_names_of(files);
    let ghost all = declared_names(files@);
    let n = files.len();
    let mut i: usize = 0;
    while i < n
        invariant
            i <= n,
            n == files@.len(),
            n == old(files)@.len(),
            all == declared_names(old(files)@),
            all == strings_view(names@),
            forall|j: int| i <= j < n ==> files@[j] == old(files)@[j],
            forall|j: int|
                0 <= j < i ==> {
                    &&& crate::file::depends_view((#[trigger] files@[j]).depends_on@) == kept(
                        old(files)@[j].depends_on@,
                        all,
                    )
                    &&& files@[j] == (ServiceFile {
                        depends_on: files@[j].depends_on,
                        ..old(files)@[j]
                    })
                },
        decreases n - i,
    {
        let pruned = prune_dependencies(&files[i].depends_on, &names);
        let ghost before = files@;
        let mut file = files.remove(i);
        file.depends_on = pruned;
        files.insert(i, file);
        assert forall|j: int| 0 <= j < n && j != i implies files@[j] == before[j] by {}
        i += 1;
    }
    assert forall|i: int| 0 <= i < old(files)@.len() && old(files)@[i].is_keyed() implies (
    #[trigger] files@[i]).is_keyed() by {
        lemma_pruning_keeps_the_keys(old(files)@[i].depends_on@, all);
    }
    assert(declared_names(files@) =~= all);
    assert forall|i: int, k: int| !#[trigger] is_unknown_reference(files@, i, k) by {
        if 0 <= i < files@.len() && 0 <= k < files@[i].depends_on@.len() {
            lemma_kept_peers_are_declared(old(files)@[i].depends_on@, all);
            let pruned = crate::file::depends_view(files@[i].depends_on@);
            assert(pruned[k].0 == files@[i].depends_on@[k].0@);
            assert(all.contains(kept(old(files)@[i].depends_on@, all)[k].0));
        }
    }
}

/// Prepares the services of a generation: drops the dependencies on peers
/// that are not declared, and gives every service its address, those that
/// had one in `existing_ips` the same again. The result holds one address
/// per declaration, in order.
pub fn plan_services(files: &mut Vec<ServiceFile>, existing_ips: &Vec<(String, Ipv4Addr)>) -> (r:
    Result<Vec<Ipv4Addr>, IpAllocError>)
    ensures
        final(files)@.len() == old(files)@.len(),
        forall|i: int|
            0 <= i < old(files)@.len() ==> {
                &&& crate::file::depends_view((#[trigger] final(files)@[i]).depends_on@) == kept(
                    old(files)@[i].depends_on@,
                    declared_names(old(files)@),
                )
                &&& final(files)@[i] == (ServiceFile {
                    depends_on: final(files)@[i].depends_on,
                    ..old(files)@[i]
                })
            },
        forall|i: int|
            0 <= i < old(files)@.len() && old(files)@[i].is_keyed() ==> (
            #[trigger] final(files)@[i]).is_keyed(),
        references_are_known(final(files)@),
        match r {
            Ok(ips) => {
                &&& allocation(
                    declared_names(old(files)@),
                    prior_view(existing_ips@),
                    bits_view(ips@),
                )
                &&& prior_is_sound(declared_names(old(files)@), prior_view(existing_ips@))
                    ==> addresses_are_sound(declared_names(final(files)@), bits_view(ips@))
            },
            Err(e) => e == IpAllocError::SubnetExhausted && forall|ips: Seq<u32>|
                !allocation(declared_names(old(files)@), prior_view(existing_ips@), ips),
        },
{
    prune_depends_on(files);
    let names = service_names_of(files);
    assert(declared_names(files@) =~= declared_names(old(files)@));
    assert(crate::ip_alloc::names_view(names@) =~= strings_view(names@));
    let r = allocate_ips(&names, existing_ips);
    proof {
        let declared = declared_names(files@);
        let prev = prior_view(existing_ips@);
        if r is Ok && prior_is_sound(declared, prev) {
            lemma_allocation_is_sound(
                declared,
                prev,
                bits_view(r->Ok_0@),
                declared.len() as int,
            );
        }
    }
    r
}

/// Puts the services of a generation together: the service at `i` has the
/// directory `dirs[i]`, the declaration `files[i]`, the address `ips[i]` and
/// the watchers `crons[i]` and `images[i]`.
pub fn build_instances(
    dirs: Vec<String>,
    files: Vec<ServiceFile>,
    ips: Vec<Ipv4Addr>,
    crons: Vec<Option<CronWatcher>>,
    images: Vec<Option<ImageWatcher>>,
) -> (r: Vec<ServiceInstance>)
    requires
        dirs@.len() == files@.len(),
        ips@.len() == files@.len(),
        crons@.len() == files@.len(),
        images@.len() == files@.len(),
    ensures
        r@.len() == files@.len(),
        forall|i: int|
            0 <= i < r@.len() ==> (#[trigger] r@[i]) == (ServiceInstance {
                dir: dirs@[i],
                config: files@[i],
                assigned_ip: ips@[i],
                cron_watcher: crons@[i],
                image_watcher: images@[i],
            }),
{
    let mut dirs = dirs;
    let mut files = files;
    let mut crons = crons;
    let mut images = images;
    let ghost all_dirs = dirs@;
    let ghost all_files = files@;
    let ghost all_crons = crons@;
    let ghost all_images = images@;
    let n = files.len();
    let mut out: Vec<ServiceInstance> = Vec::new();
    let mut i: usize = 0;
    while i < n
        invariant
            i <= n,
            n == all_files.len(),
            ips@.len() == n,
            out@.len() == i,
            dirs@ =~= all_dirs.subrange(i as int, n as int),
            files@ =~= all_files.subrange(i as int, n as int),
            crons@ =~= all_crons.subrange(i as int, n as int),
            images@ =~= all_images.subrange(i as int, n as int),
            all_dirs.len() == n,
            all_crons.len() == n,
            all_images.len() == n,
            forall|j: int|
                0 <= j < i ==> (#[trigger] out@[j]) == (ServiceInstance {
                    dir: all_dirs[j],
                    config: all_files[j],
                    assigned_ip: ips@[j],
                    cron_watcher: all_crons[j],
                    image_watcher: all_images[j],
                }),
        decreases n - i,
    {
        let dir = dirs.remove(0);
        let config = files.remove(0);
        let cron_watcher = crons.remove(0);
        let image_watcher = images.remove(0);
        out.push(ServiceInstance { dir, config, assigned_ip: ips[i], cron_watcher, image_watcher });
        i += 1;
    }
    out
}

/// The declarations of a list of services, in order.
pub open spec fn declarations_of(instances: Seq<ServiceInstance>) -> Seq<ServiceFile> {
    Seq::new(instances.len(), |i: int| instances[i].config)
}

/// The names of a list of services, in order.
pub open spec fn instance_names(instances: Seq<ServiceInstance>) -> Seq<Seq<char>> {
    Seq::new(instances.len(), |i: int| instances[i].config.service.name@)
}

/// The addresses of a list of services, each by its 32 bits, in order.
pub open spec fn instance_addresses(instances: Seq<ServiceInstance>) -> Seq<u32> {
    Seq::new(instances.len(), |i: int| instances[i].assigned_ip.bits)
}

/// The proxy blocks of a list of services, one place for each service.
pub open spec fn proxies_of(instances: Seq<ServiceInstance>) -> Seq<Option<ProxySettingsView>> {
    Seq::new(instances.len(), |i: int| instances[i].config.proxy.deep_view())
}

/// Whether the proxy block at `i` names the certificate files itself.
pub open spec fn is_manual(proxies: Seq<Option<ProxySettingsView>>, i: int) -> bool {
    match proxies[i] {
        Some(p) => p.cert_file is Some && p.key_file is Some,
        None => false,
    }
}

/// Whether the services at `i` and `j` both have a proxy block, for the same
/// host.
pub open spec fn same_host(proxies: Seq<Option<ProxySettingsView>>, i: int, j: int) -> bool {
    match (proxies[i], proxies[j]) {
        (Some(p), Some(q)) => p.host == q.host,
        _ => false,
    }
}

/// Whether the proxy block of the service at `i` is the one that speaks for
/// its host. Of the blocks that share a host the first one that names its
/// certificate files speaks for it; if none does, the first one.
pub open spec fn speaks_for_host(proxies: Seq<Option<ProxySettingsView>>, i: int) -> bool {
    &&& 0 <= i < proxies.len()
    &&& proxies[i] is Some
    &&& if is_manual(proxies, i) {
        forall|j: int| 0 <= j < i && #[trigger] same_host(proxies, i, j) ==> !is_manual(proxies, j)
    } else {
        forall|j: int|
            0 <= j < proxies.len() && #[trigger] same_host(proxies, i, j) ==> !is_manual(
                proxies,
                j,
            ) && i <= j
    }
}

/// Every host has one block that speaks for it: two blocks that speak for
/// their hosts have different hosts.
pub proof fn lemma_one_speaker_per_host(proxies: Seq<Option<ProxySettingsView>>, i: int, j: int)
    requires
        speaks_for_host(proxies, i),
        speaks_for_host(proxies, j),
        same_host(proxies, i, j),
    ensures
        i == j,
{
    assert(same_host(proxies, j, i));
    if i != j {
        if is_manual(proxies, i) {
            if is_manual(proxies, j) {
                if i < j {
                    assert(same_host(proxies, j, i));
                } else {
                    assert(same_host(proxies, i, j));
                }
            }
        } else {
        }
    }
}

/// A block that names its certificate files is never passed over for one
/// that does not: the speaker of a host is manual if any of its blocks is.
pub proof fn lemma_manual_certificates_win(proxies: Seq<Option<ProxySettingsView>>, i: int, j: int)
    requires
        speaks_for_host(proxies, i),
        0 <= j < proxies.len(),
        same_host(proxies, i, j),
        is_manual(proxies, j),
    ensures
        is_manual(proxies, i),
{
}

/// Whether the proxy block at `i` speaks for its host.
pub fn is_speaker(proxies: &Vec<Option<ProxySettings>>, i: usize) -> (r: bool)
    requires
        i < proxies@.len(),
    ensures
        r == speaks_for_host(proxies.deep_view(), i as int),
{
    let ghost pv = proxies.deep_view();
    let n = proxies.len();
    match &proxies[i] {
        Some(p) => {
            let manual = p.has_manual_cert();
            assert(manual == is_manual(pv, i as int));
            // Looks at every block for the same host.
            let mut ok = true;
            let mut j: usize = 0;
            while j < n
                invariant
                    j <= n,
                    i < n,
                    n == proxies@.len(),
                    pv == proxies.deep_view(),
                    pv[i as int] == Some(p.deep_view()),
                    manual == is_manual(pv, i as int),
                    ok <==> forall|k: int|
                        0 <= k < j && #[trigger] same_host(pv, i as int, k) ==> if manual {
                            k < i ==> !is_manual(pv, k)
                        } else {
                            !is_manual(pv, k) && i <= k
                        },
                decreases n - j,
            {
                match &proxies[j] {
                    Some(q) => {
                        assert(pv[j as int] == Some(q.deep_view()));
                        if same_string(&p.host, &q.host) {
                            assert(same_host(pv, i as int, j as int));
                            let other = q.has_manual_cert();
                            assert(other == is_manual(pv, j as int));
                            if manual {
                                if j < i && other {
                                    ok = false;
                                }
                            } else {
                                if other || j < i {
                                    ok = false;
                                }
                            }
                        } else {
                            assert(!same_host(pv, i as int, j as int));
                        }
                    },
                    None => {
                        assert(pv[j as int] is None);
                        assert(!same_host(pv, i as int, j as int));
                    },
                }
                j += 1;
            }
            ok
        },
        None => {
            assert(pv[i as int] is None);
            false
        },
    }
}

/// The proxy blocks among the first `n` that speak for their hosts, in
/// order.
pub open spec fn speaking_blocks(proxies: Seq<Option<ProxySettingsView>>, n: int) -> Seq<
    ProxySettingsView,
>
    decreases n,
{
    if n <= 0 {
        Seq::<ProxySettingsView>::empty()
    } else if speaks_for_host(proxies, n - 1) {
        speaking_blocks(proxies, n - 1).push(proxies[n - 1].unwrap())
    } else {
        speaking_blocks(proxies, n - 1)
    }
}

/// The proxy blocks that speak for their hosts, one for every host, in the
/// order of their services.
pub fn speakers_of(proxies: &Vec<Option<ProxySettings>>) -> (r: Vec<ProxySettings>)
    ensures
        r.deep_view() == speaking_blocks(proxies.deep_view(), proxies@.len() as int),
{
    let ghost pv = proxies.deep_view();
    let mut out: Vec<ProxySettings> = Vec::new();
    let mut i: usize = 0;
    assert(out.deep_view() =~= speaking_blocks(pv, 0));
    while i < proxies.len()
        invariant
            i <= proxies.len(),
            pv == proxies.deep_view(),
            out.deep_view() == speaking_blocks(pv, i as int),
        decreases proxies.len() - i,
    {
        let ghost before = out.deep_view();
        if is_speaker(proxies, i) {
            match &proxies[i] {
                Some(p) => {
                    assert(pv[i as int] == Some(p.deep_view()));
                    let copy = ProxySettings {
                        host: p.host.clone(),
                        path: copy_of(&p.path),
                        service_port: p.service_port,
                        cert_file: copy_of(&p.cert_file),
                        key_file: copy_of(&p.key_file),
                    };
                    out.push(copy);
                    assert(out.deep_view() =~= before.push(p.deep_view()));
                },
                None => {
                    assert(pv[i as int] is None);
                },
            }
        }
        i += 1;
    }
    out
}

/// The positions of the proxy blocks that speak for their hosts, ascending.
pub fn host_speakers(proxies: &Vec<Option<ProxySettings>>) -> (r: Vec<usize>)
    ensures
        forall|i: usize| #[trigger] r@.contains(i) <==> speaks_for_host(proxies.deep_view(), i as int),
        forall|a: int, b: int| 0 <= a < b < r@.len() ==> r@[a] < r@[b],
{
    let ghost pv = proxies.deep_view();
    let n = proxies.len();
    let mut out: Vec<usize> = Vec::new();
    let mut i: usize = 0;
    while i < n
        invariant
            i <= n,
            n == proxies@.len(),
            pv == proxies.deep_view(),
            forall|k: usize| #[trigger] out@.contains(k) <==> k < i && speaks_for_host(pv, k as int),
            forall|a: int| 0 <= a < out@.len() ==> out@[a] < i,
            forall|a: int, b: int| 0 <= a < b < out@.len() ==> out@[a] < out@[b],
        decreases n - i,
    {
        let ghost before = out@;
        let speaks = is_speaker(proxies, i);
        if speaks {
            out.push(i);
            assert forall|k: usize| #[trigger] out@.contains(k) <==> k < i + 1 && speaks_for_host(
                pv,
                k as int,
            ) by {
                if out@.contains(k) {
                    let a = choose|a: int| 0 <= a < out@.len() && out@[a] == k;
                    if a < before.len() {
                        assert(before[a] == k);
                        assert(before.contains(k));
                    }
                }
                if k < i + 1 && speaks_for_host(pv, k as int) {
                    if k == i {
                        assert(out@[out@.len() - 1] == i);
                    } else {
                        assert(before.contains(k));
                        let a = choose|a: int| 0 <= a < before.len() && before[a] == k;
                        assert(out@[a] == k);
                    }
                }
            }
        }
        i += 1;
    }
    out
}

/// Seconds between two ticks of a service.
pub const TICK_SECS: u64 = 1;

/// A clock that says on which ticks a service looks for a new image.
#[derive(Debug, Clone, Copy, PartialEq, Eq, Structural)]
pub struct PollClock {
    /// When images were polled last, or when the clock was started.
    pub last_image_poll: u64,
    /// Whether the next tick is the first one.
    pub init: bool,
}

impl PollClock {
    /// A clock started at `now`, before its first tick.
    pub fn start(now: u64) -> (r: PollClock)
        ensures
            r.last_image_poll == now,
            r.init,
    {
        PollClock { last_image_poll: now, init: true }
    }

    /// One tick at the time `now`, with `delay` between two polls for images,
    /// all in the same unit. Returns whether images are polled on this tick
    /// and whether it is the first tick. Images are polled when at least
    /// `delay` has passed since they were polled last; a clock that ran
    /// backwards counts as no time passed.
    pub fn tick(&mut self, now: u64, delay: u64) -> (r: (bool, bool))
        ensures
            r.0 == (now >= old(self).last_image_poll && now - old(self).last_image_poll >= delay),
            r.1 == old(self).init,
            !final(self).init,
            final(self).last_image_poll == if r.0 {
                now
            } else {
                old(self).last_image_poll
            },
    {
        let poll_images = now >= self.last_image_poll && now - self.last_image_poll >= delay;
        if poll_images {
            self.last_image_poll = now;
        }
        let init = self.init;
        self.init = false;
        (poll_images, init)
    }
}

/// The names of `old_names` that are not among `new_names`, in order.
pub open spec fn gone(old_names: Seq<Seq<char>>, new_names: Seq<Seq<char>>) -> Seq<Seq<char>>
    decreases old_names.len(),
{
    if old_names.len() == 0 {
        Seq::<Seq<char>>::empty()
    } else if new_names.contains(old_names.last()) {
        gone(old_names.drop_last(), new_names)
    } else {
        gone(old_names.drop_last(), new_names).push(old_names.last())
    }
}

/// A name is among the gone ones exactly if the old generation has it and
/// the new one has not.
pub proof fn lemma_gone_is_the_difference(
    old_names: Seq<Seq<char>>,
    new_names: Seq<Seq<char>>,
    name: Seq<char>,
)
    ensures
        gone(old_names, new_names).contains(name) <==> old_names.contains(name)
            && !new_names.contains(name),
    decreases old_names.len(),
{
    if old_names.len() > 0 {
        let rest = old_names.drop_last();
        let last = old_names.last();
        lemma_gone_is_the_difference(rest, new_names, name);
        let g = gone(rest, new_names);
        if old_names.contains(name) {
            let k = choose|k: int| 0 <= k < old_names.len() && old_names[k] == name;
            if k < rest.len() {
                assert(rest[k] == name);
            }
        }
        if rest.contains(name) {
            let k = choose|k: int| 0 <= k < rest.len() && rest[k] == name;
            assert(old_names[k] == name);
        }
        assert(old_names[old_names.len() - 1] == last);
        if !new_names.contains(last) {
            let h = g.push(last);
            assert(h[h.len() - 1] == last);
            if g.contains(name) {
                let k = choose|k: int| 0 <= k < g.len() && g[k] == name;
                assert(h[k] == name);
            }
            if h.contains(name) {
                let k = choose|k: int| 0 <= k < h.len() && h[k] == name;
                if k < g.len() {
                    assert(g[k] == name);
                }
            }
        }
    }
}

/// After a reload has settled the containers that live are those of the
/// declared services: of the containers of the old generation those of the
/// gone services are removed, and every service of the new generation gets
/// its container.
pub proof fn lemma_live_containers_are_the_declared(
    old_names: Seq<Seq<char>>,
    new_names: Seq<Seq<char>>,
    name: Seq<char>,
)
    ensures
        ((old_names.contains(name) && !gone(old_names, new_names).contains(name))
            || new_names.contains(name)) <==> new_names.contains(name),
{
    lemma_gone_is_the_difference(old_names, new_names, name);
}

/// The services of the old generation that the new one no longer declares:
/// their containers are stopped and removed on a reload.
pub fn removed_services(old_names: &Vec<String>, new_names: &Vec<String>) -> (r: Vec<String>)
    ensures
        strings_view(r@) == gone(strings_view(old_names@), strings_view(new_names@)),
{
    let ghost olds = strings_view(old_names@);
    let ghost news = strings_view(new_names@);
    let mut out: Vec<String> = Vec::new();
    let mut i: usize = 0;
    assert(strings_view(out@) =~= gone(olds.subrange(0, 0), news));
    while i < old_names.len()
        invariant
            i <= old_names.len(),
            olds == strings_view(old_names@),
            news == strings_view(new_names@),
            strings_view(out@) == gone(olds.subrange(0, i as int), news),
        decreases old_names.len() - i,
    {
        let ghost before = strings_view(out@);
        assert(olds.subrange(0, i + 1).drop_last() =~= olds.subrange(0, i as int));
        assert(olds.subrange(0, i + 1).last() == old_names@[i as int]@);
        if !contains_name(new_names, &old_names[i]) {
            out.push(old_names[i].clone());
            assert(strings_view(out@) =~= before.push(old_names@[i as int]@));
        }
        i += 1;
    }
    assert(olds.subrange(0, olds.len() as int) =~= olds);
    out
}

/// The position of the first of `names` that is `name`.
pub fn position_of(names: &Vec<String>, name: &String) -> (r: Option<usize>)
    ensures
        match r {
            Some(i) => i < names@.len() && names@[i as int]@ == name@ && forall|j: int|
                0 <= j < i ==> (#[trigger] names@[j])@ != name@,
            None => forall|j: int| 0 <= j < names@.len() ==> (#[trigger] names@[j])@ != name@,
        },
{
    let mut i: usize = 0;
    while i < names.len()
        invariant
            i <= names.len(),
            forall|j: int| 0 <= j < i ==> (#[trigger] names@[j])@ != name@,
        decreases names.len() - i,
    {
        if same_string(&names[i], name) {
            return Some(i);
        }
        i += 1;
    }
    None
}

/// The message for a container that exists although the manager has not
/// made it.
pub open spec fn already_exists_message(name: Seq<char>) -> Seq<char> {
    "Container "@ + name + " already exists"@
}

/// Checks that none of the containers exists before the manager starts:
/// `missing[i]` says whether the container of the service `names[i]` is
/// missing. Fails for the first service whose container exists.
pub fn validate_containers_not_present(names: &Vec<String>, missing: &Vec<bool>) -> (r: Result<
    (),
    String,
>)
    requires
        names@.len() == missing@.len(),
    ensures
        match r {
            Ok(_) => forall|i: int| 0 <= i < missing@.len() ==> missing@[i],
            Err(message) => exists|i: int|
                0 <= i < missing@.len() && !missing@[i] && (forall|j: int|
                    0 <= j < i ==> missing@[j]) && message@ == already_exists_message(
                    (#[trigger] names@[i])@,
                ),
        },
{
    let mut i: usize = 0;
    while i < missing.len()
        invariant
            i <= missing.len(),
            names@.len() == missing@.len(),
            forall|j: int| 0 <= j < i ==> missing@[j],
        decreases missing.len() - i,
    {
        if !missing[i] {
            let mut text: Vec<char> = Vec::new();
            push_str(&mut text, "Container ");
            push_str(&mut text, names[i].as_str());
            push_str(&mut text, " already exists");
            assert(text@ =~= already_exists_message(names@[i as int]@));
            return Err(string_of(&text));
        }
        i += 1;
    }
    Ok(())
}

/// The services of one generation.
pub struct ServicesManager {
    /// The services in the order of their declaration.
    pub instances: Vec<ServiceInstance>,
    /// The networks that the configuration declares.
    pub networks: Vec<NetworkInstance>,
    /// Seconds between two polls for new images.
    pub delay: u64,
    /// Whether the proxy runs at all.
    pub proxy_enabled: bool,
    /// Which listeners the proxy opens.
    pub strategy: ProxyStrategy,
    /// The contact address for the certificate authority.
    pub certbot_email: Option<String>,
    /// The routes of the services with a proxy block.
    pub routes: RouteTable,
}

impl ServicesManager {
    /// The routes hold what the services declare, in the table's order.
    pub open spec fn routes_hold(&self) -> bool {
        self.routes.holds(route_decls(proxies_of(self.instances@)))
    }

    /// The addresses of the services are sound: each is a host address of
    /// the dispenser network, never the gateway, and two services never
    /// share one.
    pub open spec fn addresses_hold(&self) -> bool {
        addresses_are_sound(instance_names(self.instances@), instance_addresses(self.instances@))
    }

    /// No service waits for a peer that is not among the services.
    pub open spec fn dependencies_hold(&self) -> bool {
        references_are_known(declarations_of(self.instances@))
    }

    /// The manager of `instances`, with the table of their routes. The
    /// addresses of the services are sound, and every peer that a service
    /// waits for is among them: `addresses_sound` and
    /// `first_unknown_dependency` test it.
    pub fn new(
        instances: Vec<ServiceInstance>,
        networks: Vec<NetworkInstance>,
        delay: u64,
        proxy_enabled: bool,
        strategy: ProxyStrategy,
        certbot_email: Option<String>,
    ) -> (r: ServicesManager)
        requires
            addresses_are_sound(instance_names(instances@), instance_addresses(instances@)),
            references_are_known(declarations_of(instances@)),
        ensures
            r.routes_hold(),
            r.addresses_hold(),
            r.dependencies_hold(),
            r.instances == instances,
            r.networks == networks,
            r.delay == delay,
            r.proxy_enabled == proxy_enabled,
            r.strategy == strategy,
            r.certbot_email == certbot_email,
    {
        let proxies = proxies_in(&instances);
        let routes = build_routes(&proxies);
        ServicesManager {
            instances,
            networks,
            delay,
            proxy_enabled,
            strategy,
            certbot_email,
            routes,
        }
    }

    /// The manager of a generation, from what its configuration declares
    /// and what was found out about its services: the service at `i` has the
    /// directory `dirs[i]`, the declaration `files[i]`, the address `ips[i]`
    /// and the watchers `crons[i]` and `images[i]`. The declarations and the
    /// addresses are those that `plan_services` left and gave out, or others
    /// that are sound and wait for no peer that is not declared:
    /// `addresses_sound` and `first_unknown_dependency` test it.
    pub fn from_config(
        dirs: Vec<String>,
        files: Vec<ServiceFile>,
        ips: Vec<Ipv4Addr>,
        crons: Vec<Option<CronWatcher>>,
        images: Vec<Option<ImageWatcher>>,
        networks: Vec<NetworkInstance>,
        delay: u64,
        proxy_enabled: bool,
        strategy: ProxyStrategy,
        certbot_email: Option<String>,
    ) -> (r: ServicesManager)
        requires
            dirs@.len() == files@.len(),
            ips@.len() == files@.len(),
            crons@.len() == files@.len(),
            images@.len() == files@.len(),
            addresses_are_sound(declared_names(files@), bits_view(ips@)),
            references_are_known(files@),
        ensures
            r.routes_hold(),
            r.addresses_hold(),
            r.dependencies_hold(),
            r.instances@.len() == files@.len(),
            forall|i: int|
                0 <= i < files@.len() ==> (#[trigger] r.instances@[i]) == (ServiceInstance {
                    dir: dirs@[i],
                    config: files@[i],
                    assigned_ip: ips@[i],
                    cron_watcher: crons@[i],
                    image_watcher: images@[i],
                }),
            r.networks == networks,
            r.delay == delay,
            r.proxy_enabled == proxy_enabled,
            r.strategy == strategy,
            r.certbot_email == certbot_email,
    {
        let ghost names = declared_names(files@);
        let ghost bits = bits_view(ips@);
        let ghost declared = files@;
        let instances = build_instances(dirs, files, ips, crons, images);
        assert(instance_names(instances@) =~= names);
        assert(instance_addresses(instances@) =~= bits);
        assert(declarations_of(instances@) =~= declared);
        ServicesManager::new(instances, networks, delay, proxy_enabled, strategy, certbot_email)
    }

    /// The names of the services, in order.
    pub fn service_names(&self) -> (names: Vec<String>)
        ensures
            names@.len() == self.instances@.len(),
            forall|i: int|
                0 <= i < names@.len() ==> (#[trigger] names@[i])@
                    == self.instances@[i].config.service.name@,
    {
        let mut names: Vec<String> = Vec::new();
        let mut i: usize = 0;
        while i < self.instances.len()
            invariant
                i <= self.instances.len(),
                names@.len() == i,
                forall|j: int|
                    0 <= j < i ==> (#[trigger] names@[j])@
                        == self.instances@[j].config.service.name@,
            decreases self.instances.len() - i,
        {
            names.push(self.instances[i].config.service.name.clone());
            i += 1;
        }
        names
    }

    /// The address of every service, by its name: what the next generation
    /// is handed so that the services that stay keep their addresses.
    pub fn ip_map(&self) -> (map: Vec<(String, Ipv4Addr)>)
        ensures
            map@.len() == self.instances@.len(),
            forall|i: int|
                0 <= i < map@.len() ==> (#[trigger] map@[i]).0@
                    == self.instances@[i].config.service.name@ && map@[i].1
                    == self.instances@[i].assigned_ip,
            prior_view(map@) == crate::ip_alloc::handed_on(
                instance_names(self.instances@),
                instance_addresses(self.instances@),
            ),
    {
        let mut map: Vec<(String, Ipv4Addr)> = Vec::new();
        let mut i: usize = 0;
        while i < self.instances.len()
            invariant
                i <= self.instances.len(),
                map@.len() == i,
                forall|j: int|
                    0 <= j < i ==> (#[trigger] map@[j]).0@
                        == self.instances@[j].config.service.name@ && map@[j].1
                        == self.instances@[j].assigned_ip,
            decreases self.instances.len() - i,
        {
            let instance = &self.instances[i];
            map.push((instance.config.service.name.clone(), instance.assigned_ip));
            i += 1;
        }
        assert(prior_view(map@) =~= crate::ip_alloc::handed_on(
            instance_names(self.instances@),
            instance_addresses(self.instances@),
        ));
        map
    }

    /// The proxy blocks by host: for every routed host the one block that
    /// speaks for it. Where services share a host the first block that names
    /// its certificate files speaks for it, else the first block.
    pub fn get_proxy_configs(&self) -> (r: Vec<ProxySettings>)
        ensures
            r.deep_view() == speaking_blocks(
                proxies_of(self.instances@),
                self.instances@.len() as int,
            ),
    {
        let proxies = proxies_in(&self.instances);
        speakers_of(&proxies)
    }

    /// The contact address for the certificate authority, if one is
    /// configured.
    pub fn get_certbot_settings(&self) -> (r: Option<&String>)
        ensures
            match r {
                Some(email) => self.certbot_email == Some(*email),
                None => self.certbot_email is None,
            },
    {
        match &self.certbot_email {
            Some(email) => Some(email),
            None => None,
        }
    }

    /// Which listeners the proxy opens.
    pub fn get_proxy_strategy(&self) -> (r: ProxyStrategy)
        ensures
            r == self.strategy,
    {
        self.strategy
    }

    /// Where a request for `host` and `path` is sent: the address of the
    /// service whose route serves it, and the port that the service names;
    /// nothing where no route of the host matches the path.
    pub fn resolve_route(&self, host: &str, path: &str) -> (r: Option<SocketAddrV4>)
        requires
            self.routes_hold(),
        ensures
            match r {
                Some(addr) => exists|i: int|
                    0 <= i < self.instances@.len() && resolved(
                        route_decls(proxies_of(self.instances@)),
                        host@,
                        path@,
                        Some(i as usize),
                    ) && addr.ip == (#[trigger] self.instances@[i]).assigned_ip
                        && self.instances@[i].config.proxy is Some && addr.port
                        == self.instances@[i].config.proxy.unwrap().service_port,
                None => resolved(route_decls(proxies_of(self.instances@)), host@, path@, None),
            },
    {
        let ghost decls = route_decls(proxies_of(self.instances@));
        match self.routes.resolve(host, path) {
            Some(index) => {
                assert(self.routes.holds(decls));
                assert(resolved(decls, host@, path@, Some(index)));
                assert(crate::route::is_candidate(decls, host@, path@, index as int));
                let instance = &self.instances[index];
                match &instance.config.proxy {
                    Some(proxy) => Some(
                        SocketAddrV4 { ip: instance.assigned_ip, port: proxy.service_port },
                    ),
                    None => {
                        assert(decls[index as int] is None);
                        None
                    },
                }
            },
            None => {
                assert(self.routes.holds(decls));
                None
            },
        }
    }
}

/// The proxy blocks of the services, one place for each service.
pub fn proxies_in(instances: &Vec<ServiceInstance>) -> (r: Vec<Option<ProxySettings>>)
    ensures
        r.deep_view() == proxies_of(instances@),
{
    let mut out: Vec<Option<ProxySettings>> = Vec::new();
    let mut i: usize = 0;
    while i < instances.len()
        invariant
            i <= instances.len(),
            out@.len() == i,
            forall|j: int|
                0 <= j < i ==> (#[trigger] out@[j]).deep_view()
                    == instances@[j].config.proxy.deep_view(),
        decreases instances.len() - i,
    {
        let copy = match &instances[i].config.proxy {
            Some(p) => Some(
                ProxySettings {
                    host: p.host.clone(),
                    path: copy_of(&p.path),
                    service_port: p.service_port,
                    cert_file: copy_of(&p.cert_file),
                    key_file: copy_of(&p.key_file),
                },
            ),
            None => None,
        };
        out.push(copy);
        i += 1;
    }
    assert(out.deep_view() =~= proxies_of(instances@));
    out
}

fn copy_of(s: &Option<String>) -> (r: Option<String>)
    ensures
        r.deep_view() == s.deep_view(),
{
    match s {
        Some(t) => Some(t.clone()),
        None => None,
    }
}

} // verus!
