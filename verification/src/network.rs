//! Networks of the runtime that the manager creates, checks and removes.
//!
//! A network that is declared external exists already: the manager neither
//! creates nor removes it, and fails if it is missing. Every other declared
//! network, and the dispenser network itself, is created when missing and
//! removed on shutdown.

use crate::atomic_socket::Ipv4Addr;
use crate::command::dotted_chars;
use crate::file::{driver_name, pairs_view, NetworkDeclarationEntry, NetworkDriver};
use crate::ip_alloc::{GATEWAY, SUBNET_BASE};
use crate::text::{push_chars, push_str, push_text, strings_view};
use vstd::prelude::*;
use vstd::std_specs::convert::FromSpecImpl;

verus! {

/// A network as the manager handles it.
#[derive(Debug, Clone, PartialEq, Eq)]
pub struct NetworkInstance {
    pub name: String,
    pub driver: NetworkDriver,
    pub external: bool,
    pub internal: bool,
    pub attachable: bool,
    pub labels: Vec<(String, String)>,
}

/// Whether the runtime has a network.
#[derive(Debug, Clone, Copy, PartialEq, Eq, Structural)]
pub enum NetworkStatus {
    Exists,
    NotFound,
}

impl From<NetworkDeclarationEntry> for NetworkInstance {
    fn from(entry: NetworkDeclarationEntry) -> (r: NetworkInstance) {
        NetworkInstance {
            name: entry.name,
            driver: entry.driver,
            external: entry.external,
            internal: entry.internal,
            attachable: entry.attachable,
            labels: entry.labels,
        }
    }
}

impl FromSpecImpl<NetworkDeclarationEntry> for NetworkInstance {
    open spec fn obeys_from_spec() -> bool {
        true
    }

    open spec fn from_spec(entry: NetworkDeclarationEntry) -> NetworkInstance {
        NetworkInstance {
            name: entry.name,
            driver: entry.driver,
            external: entry.external,
            internal: entry.internal,
            attachable: entry.attachable,
            labels: entry.labels,
        }
    }
}

/// What to do so that a network exists.
#[derive(Debug, Clone, Copy, PartialEq, Eq, Structural)]
pub enum EnsureStep {
    /// Nothing: the network is there.
    Nothing,
    /// Create it.
    Create,
    /// Give up: the network is external and missing.
    FailMissingExternal,
}

/// `--label` and `key=value` for every label, in order.
pub open spec fn label_args(labels: Seq<(Seq<char>, Seq<char>)>) -> Seq<Seq<char>>
    decreases labels.len(),
{
    if labels.len() == 0 {
        Seq::<Seq<char>>::empty()
    } else {
        label_args(labels.drop_last()).push("--label"@).push(
            labels.last().0 + seq!['='] + labels.last().1,
        )
    }
}

/// `flag` if `on`.
pub open spec fn flag_args(flag: Seq<char>, on: bool) -> Seq<Seq<char>> {
    if on {
        seq![flag]
    } else {
        Seq::<Seq<char>>::empty()
    }
}

/// The subnet of the dispenser network: `172.28.0.0/16`.
pub open spec fn subnet_text() -> Seq<char> {
    crate::command::dotted(SUBNET_BASE) + seq!['/', '1', '6']
}

/// `--subnet` and `--gateway` with the fixed addresses of the dispenser
/// network, for that network alone.
pub open spec fn address_args(name: Seq<char>) -> Seq<Seq<char>> {
    if name == crate::command::dispenser_network() {
        seq!["--subnet"@, subnet_text(), "--gateway"@, crate::command::dotted(GATEWAY)]
    } else {
        Seq::<Seq<char>>::empty()
    }
}

impl NetworkInstance {
    /// The dispenser network: a bridge that containers can be attached to.
    pub fn dispenser() -> (r: NetworkInstance)
        ensures
            r.name@ == crate::command::dispenser_network(),
            r.driver == NetworkDriver::Bridge,
            !r.external,
            !r.internal,
            r.attachable,
            r.labels@.len() == 0,
    {
        NetworkInstance {
            name: "dispenser".to_owned(),
            driver: NetworkDriver::Bridge,
            external: false,
            internal: false,
            attachable: true,
            labels: Vec::new(),
        }
    }

    /// Whether the runtime has the network, from whether the inspection of it
    /// succeeded.
    pub fn check_network(inspected: bool) -> (r: NetworkStatus)
        ensures
            r == if inspected {
                NetworkStatus::Exists
            } else {
                NetworkStatus::NotFound
            },
    {
        if inspected {
            NetworkStatus::Exists
        } else {
            NetworkStatus::NotFound
        }
    }

    /// What to do so that the network exists: nothing if it is there; else
    /// create it, unless it is external, which is a failure.
    pub fn ensure_exists(&self, status: NetworkStatus) -> (r: EnsureStep)
        ensures
            r == match status {
                NetworkStatus::Exists => EnsureStep::Nothing,
                NetworkStatus::NotFound => if self.external {
                    EnsureStep::FailMissingExternal
                } else {
                    EnsureStep::Create
                },
            },
    {
        match status {
            NetworkStatus::Exists => EnsureStep::Nothing,
            NetworkStatus::NotFound => if self.external {
                EnsureStep::FailMissingExternal
            } else {
                EnsureStep::Create
            },
        }
    }

    /// Whether the network is to be created: it is neither external nor
    /// there already.
    pub fn create_network(&self, status: NetworkStatus) -> (r: bool)
        ensures
            r == (!self.external && status == NetworkStatus::NotFound),
    {
        if self.external {
            return false;
        }
        match status {
            NetworkStatus::Exists => false,
            NetworkStatus::NotFound => true,
        }
    }

    /// Whether the network is to be removed on shutdown: every network but an
    /// external one is. A removal that fails is not an error; the network
    /// may still be in use.
    pub fn remove_network(&self) -> (r: bool)
        ensures
            r == !self.external,
    {
        !self.external
    }

    /// The words that create the network: the driver, the flags for an
    /// internal and an attachable network, the labels, for the dispenser
    /// network its subnet and gateway, and the name.
    pub open spec fn create_args(&self) -> Seq<Seq<char>> {
        seq!["network"@, "create"@, "--driver"@, driver_name(self.driver)] + flag_args(
            "--internal"@,
            self.internal,
        ) + flag_args("--attachable"@, self.attachable) + label_args(pairs_view(self.labels@))
            + address_args(self.name@) + seq![self.name@]
    }

    /// The words that tell the runtime to create the network.
    pub fn create_network_args(&self) -> (args: Vec<String>)
        ensures
            strings_view(args@) == self.create_args(),
    {
        let mut out: Vec<String> = Vec::new();
        assert(strings_view(out@) =~= Seq::<Seq<char>>::empty());
        push_text(&mut out, "network");
        push_text(&mut out, "create");
        push_text(&mut out, "--driver");
        push_text(&mut out, self.driver.as_str());
        let ghost head = seq!["network"@, "create"@, "--driver"@, driver_name(self.driver)];
        assert(strings_view(out@) =~= head);
        if self.internal {
            push_text(&mut out, "--internal");
        }
        let ghost a = head + flag_args("--internal"@, self.internal);
        assert(strings_view(out@) =~= a);
        if self.attachable {
            push_text(&mut out, "--attachable");
        }
        let ghost b = a + flag_args("--attachable"@, self.attachable);
        assert(strings_view(out@) =~= b);
        let ghost all = pairs_view(self.labels@);
        let mut i: usize = 0;
        assert(strings_view(out@) =~= b + label_args(all.subrange(0, 0)));
        while i < self.labels.len()
            invariant
                i <= self.labels.len(),
                all == pairs_view(self.labels@),
                strings_view(out@) == b + label_args(all.subrange(0, i as int)),
            decreases self.labels.len() - i,
        {
            let ghost done = label_args(all.subrange(0, i as int));
            assert(all.subrange(0, i + 1).drop_last() =~= all.subrange(0, i as int));
            assert(all.subrange(0, i + 1).last() == all[i as int]);
            push_text(&mut out, "--label");
            let mut text: Vec<char> = Vec::new();
            push_str(&mut text, self.labels[i].0.as_str());
            text.push('=');
            push_str(&mut text, self.labels[i].1.as_str());
            assert(text@ =~= all[i as int].0 + seq!['='] + all[i as int].1);
            push_chars(&mut out, &text);
            assert(strings_view(out@) =~= b + done.push("--label"@).push(
                all[i as int].0 + seq!['='] + all[i as int].1,
            ));
            i += 1;
        }
        assert(all.subrange(0, all.len() as int) =~= all);
        let ghost c = b + label_args(all);
        if crate::text::str_eq(self.name.as_str(), "dispenser") {
            push_text(&mut out, "--subnet");
            let mut subnet = dotted_chars(Ipv4Addr { bits: SUBNET_BASE });
            subnet.push('/');
            subnet.push('1');
            subnet.push('6');
            assert(subnet@ =~= subnet_text());
            push_chars(&mut out, &subnet);
            push_text(&mut out, "--gateway");
            let gateway = dotted_chars(Ipv4Addr { bits: GATEWAY });
            push_chars(&mut out, &gateway);
            assert(strings_view(out@) =~= c + address_args(self.name@));
        } else {
            assert(strings_view(out@) =~= c + address_args(self.name@));
        }
        push_text(&mut out, self.name.as_str());
        assert(strings_view(out@) =~= self.create_args());
        out
    }
}

} // verus!
