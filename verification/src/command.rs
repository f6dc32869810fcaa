//! The words in which the runtime is told to make a container.
//!
//! A container is made from a declaration alone: the same declaration and
//! address always give the same words, in the same order.

use crate::atomic_socket::{octet_of, Ipv4Addr};
use crate::file::{
    pairs_view, restart_name, PortEntry, ServiceFile, ServiceFileView, VolumeEntry,
    VolumeEntryView,
};
use crate::text::{
    decimal, decimal_chars, join, joined, push_all, push_chars, push_str, push_text, strings_view,
};
use vstd::prelude::*;

verus! {

/// The address with these bits in dotted notation, as in `172.28.0.2`.
pub open spec fn dotted(bits: u32) -> Seq<char> {
    decimal(octet_of(bits, 0) as nat) + seq!['.'] + decimal(octet_of(bits, 1) as nat) + seq!['.']
        + decimal(octet_of(bits, 2) as nat) + seq!['.'] + decimal(octet_of(bits, 3) as nat)
}

/// The address in dotted notation.
pub fn dotted_chars(ip: Ipv4Addr) -> (r: Vec<char>)
    ensures
        r@ == dotted(ip.bits),
{
    let (a, b, c, d) = ip.octets();
    let mut out = decimal_chars(a as u64);
    out.push('.');
    let part = decimal_chars(b as u64);
    push_all(&mut out, &part);
    out.push('.');
    let part = decimal_chars(c as u64);
    push_all(&mut out, &part);
    out.push('.');
    let part = decimal_chars(d as u64);
    push_all(&mut out, &part);
    assert(out@ =~= dotted(ip.bits));
    out
}

/// A published port as the runtime reads it: `host:container`.
pub open spec fn port_text(p: PortEntry) -> Seq<char> {
    decimal(p.host as nat) + seq![':'] + decimal(p.container as nat)
}

/// A mount as the runtime reads it: `source:target`, with `:ro` behind it if
/// the mount is read-only.
pub open spec fn mount_text(v: VolumeEntryView) -> Seq<char> {
    let plain = v.source + seq![':'] + v.target;
    if v.readonly {
        plain + seq![':', 'r', 'o']
    } else {
        plain
    }
}

/// A variable of the environment as the runtime reads it: `key=value`.
pub open spec fn env_text(entry: (Seq<char>, Seq<char>)) -> Seq<char> {
    entry.0 + seq!['='] + entry.1
}

/// `-p` and its text for every port, in order.
pub open spec fn port_args(ports: Seq<PortEntry>) -> Seq<Seq<char>>
    decreases ports.len(),
{
    if ports.len() == 0 {
        Seq::<Seq<char>>::empty()
    } else {
        port_args(ports.drop_last()).push("-p"@).push(port_text(ports.last()))
    }
}

/// `-v` and its text for every mount, in order.
pub open spec fn volume_args(volumes: Seq<VolumeEntryView>) -> Seq<Seq<char>>
    decreases volumes.len(),
{
    if volumes.len() == 0 {
        Seq::<Seq<char>>::empty()
    } else {
        volume_args(volumes.drop_last()).push("-v"@).push(mount_text(volumes.last()))
    }
}

/// `-e` and its text for every variable, in order.
pub open spec fn env_args(env: Seq<(Seq<char>, Seq<char>)>) -> Seq<Seq<char>>
    decreases env.len(),
{
    if env.len() == 0 {
        Seq::<Seq<char>>::empty()
    } else {
        env_args(env.drop_last()).push("-e"@).push(env_text(env.last()))
    }
}

/// `flag` and the value, if there is a value.
pub open spec fn option_args(flag: Seq<char>, value: Option<Seq<char>>) -> Seq<Seq<char>> {
    match value {
        Some(v) => seq![flag, v],
        None => Seq::<Seq<char>>::empty(),
    }
}

/// `--entrypoint` and the words of the entry point with blanks between them,
/// if the declaration names one.
pub open spec fn entrypoint_args(entrypoint: Option<Seq<Seq<char>>>) -> Seq<Seq<char>> {
    match entrypoint {
        Some(words) => seq!["--entrypoint"@, joined(words, seq![' '])],
        None => Seq::<Seq<char>>::empty(),
    }
}

/// The words of the command, if the declaration names one.
pub open spec fn command_args(command: Option<Seq<Seq<char>>>) -> Seq<Seq<char>> {
    match command {
        Some(words) => words,
        None => Seq::<Seq<char>>::empty(),
    }
}

/// The name of the network that every container is attached to.
pub open spec fn dispenser_network() -> Seq<char> {
    "dispenser"@
}

/// The words that make the container of a declaration, in this order: the
/// name, the restart policy, the published ports, the mounts, the
/// environment, the dispenser network with the service's own address on it,
/// the limits on memory and CPUs, the working directory, the user, the host
/// name, the entry point, the image and the command.
pub open spec fn create_args(decl: ServiceFileView, ip: u32) -> Seq<Seq<char>> {
    seq!["create"@, "--name"@, decl.service.name, "--restart"@, restart_name(decl.restart)]
        + port_args(decl.ports) + volume_args(decl.volume) + env_args(decl.env) + seq![
        "--network"@,
        dispenser_network(),
        "--ip"@,
        dotted(ip),
    ] + option_args("--memory"@, decl.service.memory) + option_args("--cpus"@, decl.service.cpus)
        + option_args("--workdir"@, decl.service.working_dir) + option_args(
        "--user"@,
        decl.service.user,
    ) + option_args("--hostname"@, decl.service.hostname) + entrypoint_args(
        decl.service.entrypoint,
    ) + seq![decl.service.image] + command_args(decl.service.command)
}

fn push_ports(out: &mut Vec<String>, ports: &Vec<PortEntry>)
    ensures
        strings_view(final(out)@) == strings_view(old(out)@) + port_args(ports@),
{
    let ghost base = strings_view(out@);
    let mut i: usize = 0;
    assert(strings_view(out@) =~= base + port_args(ports@.subrange(0, 0)));
    while i < ports.len()
        invariant
            i <= ports.len(),
            strings_view(out@) == base + port_args(ports@.subrange(0, i as int)),
        decreases ports.len() - i,
    {
        let ghost done = port_args(ports@.subrange(0, i as int));
        assert(ports@.subrange(0, i + 1).drop_last() =~= ports@.subrange(0, i as int));
        assert(ports@.subrange(0, i + 1).last() == ports@[i as int]);
        push_text(out, "-p");
        let mut text = decimal_chars(ports[i].host as u64);
        text.push(':');
        let container = decimal_chars(ports[i].container as u64);
        push_all(&mut text, &container);
        assert(text@ =~= port_text(ports@[i as int]));
        push_chars(out, &text);
        assert(strings_view(out@) =~= base + done.push("-p"@).push(port_text(ports@[i as int])));
        i += 1;
    }
    assert(ports@.subrange(0, ports@.len() as int) =~= ports@);
}

fn push_volumes(out: &mut Vec<String>, volumes: &Vec<VolumeEntry>)
    ensures
        strings_view(final(out)@) == strings_view(old(out)@) + volume_args(volumes.deep_view()),
{
    let ghost base = strings_view(out@);
    let ghost all = volumes.deep_view();
    let mut i: usize = 0;
    assert(strings_view(out@) =~= base + volume_args(all.subrange(0, 0)));
    while i < volumes.len()
        invariant
            i <= volumes.len(),
            all == volumes.deep_view(),
            strings_view(out@) == base + volume_args(all.subrange(0, i as int)),
        decreases volumes.len() - i,
    {
        let ghost done = volume_args(all.subrange(0, i as int));
        assert(all.subrange(0, i + 1).drop_last() =~= all.subrange(0, i as int));
        assert(all.subrange(0, i + 1).last() == volumes@[i as int].deep_view());
        push_text(out, "-v");
        let volume = &volumes[i];
        let mut text: Vec<char> = Vec::new();
        push_str(&mut text, volume.source.as_str());
        text.push(':');
        push_str(&mut text, volume.target.as_str());
        if volume.readonly {
            text.push(':');
            text.push('r');
            text.push('o');
        }
        assert(text@ =~= mount_text(volume.deep_view()));
        push_chars(out, &text);
        assert(strings_view(out@) =~= base + done.push("-v"@).push(
            mount_text(volumes@[i as int].deep_view()),
        ));
        i += 1;
    }
    assert(all.subrange(0, all.len() as int) =~= all);
}

fn push_env(out: &mut Vec<String>, env: &Vec<(String, String)>)
    ensures
        strings_view(final(out)@) == strings_view(old(out)@) + env_args(pairs_view(env@)),
{
    let ghost base = strings_view(out@);
    let ghost all = pairs_view(env@);
    let mut i: usize = 0;
    assert(strings_view(out@) =~= base + env_args(all.subrange(0, 0)));
    while i < env.len()
        invariant
            i <= env.len(),
            all == pairs_view(env@),
            strings_view(out@) == base + env_args(all.subrange(0, i as int)),
        decreases env.len() - i,
    {
        let ghost done = env_args(all.subrange(0, i as int));
        assert(all.subrange(0, i + 1).drop_last() =~= all.subrange(0, i as int));
        assert(all.subrange(0, i + 1).last() == (env@[i as int].0@, env@[i as int].1@));
        push_text(out, "-e");
        let mut text: Vec<char> = Vec::new();
        push_str(&mut text, env[i].0.as_str());
        text.push('=');
        push_str(&mut text, env[i].1.as_str());
        assert(text@ =~= env_text(all[i as int]));
        push_chars(out, &text);
        assert(strings_view(out@) =~= base + done.push("-e"@).push(env_text(all[i as int])));
        i += 1;
    }
    assert(all.subrange(0, all.len() as int) =~= all);
}

fn push_option(out: &mut Vec<String>, flag: &str, value: &Option<String>)
    ensures
        strings_view(final(out)@) == strings_view(old(out)@) + option_args(
            flag@,
            value.deep_view(),
        ),
{
    let ghost base = strings_view(out@);
    match value {
        Some(v) => {
            push_text(out, flag);
            push_text(out, v.as_str());
            assert(strings_view(out@) =~= base + seq![flag@, v@]);
        },
        None => {
            assert(strings_view(out@) =~= base + Seq::<Seq<char>>::empty());
        },
    }
}

fn push_words(out: &mut Vec<String>, words: &Vec<String>)
    ensures
        strings_view(final(out)@) == strings_view(old(out)@) + words.deep_view(),
{
    let ghost base = strings_view(out@);
    let ghost all = words.deep_view();
    let mut i: usize = 0;
    assert(strings_view(out@) =~= base + all.subrange(0, 0));
    while i < words.len()
        invariant
            i <= words.len(),
            all == words.deep_view(),
            strings_view(out@) == base + all.subrange(0, i as int),
        decreases words.len() - i,
    {
        push_text(out, words[i].as_str());
        assert(strings_view(out@) =~= base + all.subrange(0, i + 1));
        i += 1;
    }
    assert(all.subrange(0, all.len() as int) =~= all);
}

/// The words that tell the runtime to make the container of `decl` with the
/// address `ip` on the dispenser network.
pub fn create_container_args(decl: &ServiceFile, ip: Ipv4Addr) -> (args: Vec<String>)
    ensures
        strings_view(args@) == create_args(decl.deep_view(), ip.bits),
{
    let ghost d = decl.deep_view();
    let mut out: Vec<String> = Vec::new();
    assert(strings_view(out@) =~= Seq::<Seq<char>>::empty());
    push_text(&mut out, "create");
    push_text(&mut out, "--name");
    push_text(&mut out, decl.service.name.as_str());
    push_text(&mut out, "--restart");
    push_text(&mut out, decl.restart.as_str());
    let ghost head = seq![
        "create"@,
        "--name"@,
        d.service.name,
        "--restart"@,
        restart_name(d.restart),
    ];
    assert(strings_view(out@) =~= head);
    push_ports(&mut out, &decl.ports);
    push_volumes(&mut out, &decl.volume);
    push_env(&mut out, &decl.env);
    let ghost lists = head + port_args(d.ports) + volume_args(d.volume) + env_args(d.env);
    assert(strings_view(out@) == lists);
    push_text(&mut out, "--network");
    push_text(&mut out, "dispenser");
    push_text(&mut out, "--ip");
    let address = dotted_chars(ip);
    push_chars(&mut out, &address);
    let ghost placed = lists + seq!["--network"@, dispenser_network(), "--ip"@, dotted(ip.bits)];
    assert(strings_view(out@) =~= placed);
    push_option(&mut out, "--memory", &decl.service.memory);
    push_option(&mut out, "--cpus", &decl.service.cpus);
    push_option(&mut out, "--workdir", &decl.service.working_dir);
    push_option(&mut out, "--user", &decl.service.user);
    push_option(&mut out, "--hostname", &decl.service.hostname);
    let ghost limited = placed + option_args("--memory"@, d.service.memory) + option_args(
        "--cpus"@,
        d.service.cpus,
    ) + option_args("--workdir"@, d.service.working_dir) + option_args("--user"@, d.service.user)
        + option_args("--hostname"@, d.service.hostname);
    assert(strings_view(out@) == limited);
    match &decl.service.entrypoint {
        Some(words) => {
            push_text(&mut out, "--entrypoint");
            let line = join(words, " ");
            proof {
                reveal_strlit(" ");
                assert(" "@ =~= seq![' ']);
                assert(strings_view(words@) =~= words.deep_view());
                assert(d.service.entrypoint == Some(words.deep_view()));
            }
            push_chars(&mut out, &line);
            assert(strings_view(out@) =~= limited + entrypoint_args(d.service.entrypoint));
        },
        None => {
            assert(strings_view(out@) =~= limited + entrypoint_args(d.service.entrypoint));
        },
    }
    push_text(&mut out, decl.service.image.as_str());
    let ghost imaged = limited + entrypoint_args(d.service.entrypoint) + seq![d.service.image];
    assert(strings_view(out@) =~= imaged);
    match &decl.service.command {
        Some(words) => {
            push_words(&mut out, words);
        },
        None => {
            assert(strings_view(out@) =~= imaged + command_args(d.service.command));
        },
    }
    out
}

/// The words that attach the container `container` to the network `network`
/// after it is made.
pub open spec fn connect_args(network: Seq<char>, container: Seq<char>) -> Seq<Seq<char>> {
    seq!["network"@, "connect"@, network, container]
}

/// The words that tell the runtime to attach a container to one more network.
pub fn connect_network_args(network: &str, container: &str) -> (args: Vec<String>)
    ensures
        strings_view(args@) == connect_args(network@, container@),
{
    let mut out: Vec<String> = Vec::new();
    assert(strings_view(out@) =~= Seq::<Seq<char>>::empty());
    push_text(&mut out, "network");
    push_text(&mut out, "connect");
    push_text(&mut out, network);
    push_text(&mut out, container);
    assert(strings_view(out@) =~= connect_args(network@, container@));
    out
}

} // verus!
