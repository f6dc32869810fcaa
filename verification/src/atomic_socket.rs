//! A lock-free cell that holds an optional IPv4 socket address.
//!
//! The address is packed into one 64-bit word so that it can be read and
//! replaced atomically:
//!
//! - bits 0-15: port
//! - bits 16-47: IPv4 address
//! - bits 48-63: zero for every address
//!
//! The all-ones word can therefore not be the code of an address, and stands
//! for "no address".

use std::sync::atomic::AtomicU64;
use std::sync::atomic::Ordering;
use vstd::prelude::*;

verus! {

/// The word that stands for "no address".
pub const NONE_VALUE: u64 = 0xFFFF_FFFF_FFFF_FFFF;

/// An IPv4 address, held as its 32 bits in network order: the first octet
/// is the most significant byte.
#[derive(Clone, Copy, Debug, PartialEq, Eq, Structural, Hash, PartialOrd, Ord)]
pub struct Ipv4Addr {
    pub bits: u32,
}

/// The 32-bit value of the address `a.b.c.d`.
pub open spec fn ipv4_bits(a: u8, b: u8, c: u8, d: u8) -> int {
    a * 0x100_0000 + b * 0x1_0000 + c * 0x100 + d
}

/// The octet at position `k` of the address with these bits, position 0
/// being the first one written.
pub open spec fn octet_of(bits: u32, k: int) -> int {
    let b = bits as int;
    if k == 0 {
        b / 0x100_0000
    } else if k == 1 {
        (b / 0x1_0000) % 0x100
    } else if k == 2 {
        (b / 0x100) % 0x100
    } else {
        b % 0x100
    }
}

impl Ipv4Addr {
    /// The address `a.b.c.d`.
    pub fn new(a: u8, b: u8, c: u8, d: u8) -> (r: Ipv4Addr)
        ensures
            r.bits == ipv4_bits(a, b, c, d),
    {
        let bits: u32 = (a as u32) * 0x100_0000 + (b as u32) * 0x1_0000 + (c as u32) * 0x100 + (
        d as u32);
        Ipv4Addr { bits }
    }

    /// The address whose 32 bits are `bits`.
    pub fn from_bits(bits: u32) -> (r: Ipv4Addr)
        ensures
            r.bits == bits,
    {
        Ipv4Addr { bits }
    }

    /// The 32 bits of the address.
    pub fn to_bits(&self) -> (r: u32)
        ensures
            r == self.bits,
    {
        self.bits
    }

    /// The four octets, most significant first.
    pub fn octets(&self) -> (r: (u8, u8, u8, u8))
        ensures
            ipv4_bits(r.0, r.1, r.2, r.3) == self.bits,
            r.0 == octet_of(self.bits, 0),
            r.1 == octet_of(self.bits, 1),
            r.2 == octet_of(self.bits, 2),
            r.3 == octet_of(self.bits, 3),
    {
        let a: u32 = self.bits / 0x100_0000;
        let b: u32 = (self.bits / 0x1_0000) % 0x100;
        let c: u32 = (self.bits / 0x100) % 0x100;
        let d: u32 = self.bits % 0x100;
        (a as u8, b as u8, c as u8, d as u8)
    }
}

/// An IPv4 address together with a port.
#[derive(Clone, Copy, Debug, PartialEq, Eq, Structural, Hash)]
pub struct SocketAddrV4 {
    pub ip: Ipv4Addr,
    pub port: u16,
}

impl SocketAddrV4 {
    pub fn new(ip: Ipv4Addr, port: u16) -> (r: SocketAddrV4)
        ensures
            r.ip == ip,
            r.port == port,
    {
        SocketAddrV4 { ip, port }
    }

    pub fn ip(&self) -> (r: Ipv4Addr)
        ensures
            r == self.ip,
    {
        self.ip
    }

    pub fn port(&self) -> (r: u16)
        ensures
            r == self.port,
    {
        self.port
    }
}

/// The word that stands for `val`: the address in bits 16-47 over the port in
/// bits 0-15, or all ones where there is no address.
pub open spec fn encoded(val: Option<SocketAddrV4>) -> u64 {
    match val {
        None => NONE_VALUE,
        Some(addr) => (addr.ip.bits * 0x1_0000 + addr.port) as u64,
    }
}

/// The optional address that the word `val` stands for. Bits 48-63 of a word
/// other than all ones are ignored.
pub open spec fn decoded(val: u64) -> Option<SocketAddrV4> {
    if val == NONE_VALUE {
        None
    } else {
        Some(
            SocketAddrV4 {
                ip: Ipv4Addr { bits: ((val / 0x1_0000) % 0x1_0000_0000) as u32 },
                port: (val % 0x1_0000) as u16,
            },
        )
    }
}

/// Packs an optional address into one word.
pub fn socket_addr_v4_to_u64(val: Option<SocketAddrV4>) -> (r: u64)
    ensures
        r == encoded(val),
{
    match val {
        None => NONE_VALUE,
        Some(addr) => {
            let ip: u32 = addr.ip.bits;
            let port: u16 = addr.port;
            assert(((ip as u64) << 16) | (port as u64) == (ip as u64) * 0x1_0000 + (port as u64))
                by (bit_vector);
            ((ip as u64) << 16) | (port as u64)
        },
    }
}

/// Unpacks a word into the optional address that it stands for.
pub fn u64_to_socket_addr_v4(val: u64) -> (r: Option<SocketAddrV4>)
    ensures
        r == decoded(val),
{
    if val == NONE_VALUE {
        return None;
    }
    assert((val >> 16) & 0xFFFF_FFFF == (val / 0x1_0000) % 0x1_0000_0000) by (bit_vector);
    assert(val & 0xFFFF == val % 0x1_0000) by (bit_vector);
    let ip: u32 = ((val >> 16) & 0xFFFF_FFFF) as u32;
    let port: u16 = (val & 0xFFFF) as u16;
    Some(SocketAddrV4 { ip: Ipv4Addr { bits: ip }, port })
}

/// Every optional address is what its own word stands for.
pub proof fn lemma_decode_encode(val: Option<SocketAddrV4>)
    ensures
        decoded(encoded(val)) == val,
{
    match val {
        None => {},
        Some(addr) => {
            let w = encoded(val);
            assert(w == addr.ip.bits * 0x1_0000 + addr.port);
            assert(w / 0x1_0000 == addr.ip.bits);
            assert(w % 0x1_0000 == addr.port);
        },
    }
}

/// The word of an address is never the word that stands for "no address":
/// its bits 48-63 are zero.
pub proof fn lemma_address_is_not_none(addr: SocketAddrV4)
    ensures
        encoded(Some(addr)) != NONE_VALUE,
        encoded(Some(addr)) < 0x1_0000_0000_0000,
{
}

/// What an exchange on the word of a cell says in addresses: the address
/// that the cell held, in `Ok` if it was replaced and in `Err` if not.
pub fn exchange_outcome(outcome: Result<u64, u64>) -> (r: Result<
    Option<SocketAddrV4>,
    Option<SocketAddrV4>,
>)
    ensures
        r == match outcome {
            Ok(word) => Ok::<Option<SocketAddrV4>, Option<SocketAddrV4>>(decoded(word)),
            Err(word) => Err::<Option<SocketAddrV4>, Option<SocketAddrV4>>(decoded(word)),
        },
{
    match outcome {
        Ok(word) => Ok(u64_to_socket_addr_v4(word)),
        Err(word) => Err(u64_to_socket_addr_v4(word)),
    }
}

/// An optional socket address that can be read and replaced atomically.
///
/// The cell is shared between threads, and the atomic word in it has no
/// value that a contract could speak of: what a read returns is whatever
/// was last written by any thread. Every operation hands the word of its
/// argument to the atomic operation of the same name, and reads what comes
/// back as the address that it stands for; `socket_addr_v4_to_u64`,
/// `u64_to_socket_addr_v4` and `exchange_outcome` say how.
#[derive(Debug)]
pub struct AtomicOptionSocketAddrV4(AtomicU64);

impl AtomicOptionSocketAddrV4 {
    /// A cell that holds `socket_addr`.
    pub fn new(socket_addr: Option<SocketAddrV4>) -> AtomicOptionSocketAddrV4 {
        AtomicOptionSocketAddrV4(AtomicU64::new(socket_addr_v4_to_u64(socket_addr)))
    }

    /// The address that the cell holds now.
    #[must_use]
    pub fn load(&self, order: Ordering) -> Option<SocketAddrV4> {
        u64_to_socket_addr_v4(self.0.load(order))
    }

    /// Replaces what the cell holds by `val`.
    pub fn store(&self, val: Option<SocketAddrV4>, order: Ordering) {
        self.0.store(socket_addr_v4_to_u64(val), order)
    }

    /// Replaces what the cell holds by `val` and returns what it held.
    #[must_use]
    pub fn swap(&self, val: Option<SocketAddrV4>, order: Ordering) -> Option<SocketAddrV4> {
        u64_to_socket_addr_v4(self.0.swap(socket_addr_v4_to_u64(val), order))
    }

    /// Replaces what the cell holds by `new` if it holds `current`. Returns
    /// what the cell held: in `Ok` if it was replaced, in `Err` if not.
    #[must_use]
    pub fn compare_exchange(
        &self,
        current: Option<SocketAddrV4>,
        new: Option<SocketAddrV4>,
        success: Ordering,
        failure: Ordering,
    ) -> Result<Option<SocketAddrV4>, Option<SocketAddrV4>> {
        exchange_outcome(
            self.0.compare_exchange(
                socket_addr_v4_to_u64(current),
                socket_addr_v4_to_u64(new),
                success,
                failure,
            ),
        )
    }

    /// As `compare_exchange`, but may fail although the cell holds `current`.
    /// Meant for retry loops.
    #[must_use]
    pub fn compare_exchange_weak(
        &self,
        current: Option<SocketAddrV4>,
        new: Option<SocketAddrV4>,
        success: Ordering,
        failure: Ordering,
    ) -> Result<Option<SocketAddrV4>, Option<SocketAddrV4>> {
        exchange_outcome(
            self.0.compare_exchange_weak(
                socket_addr_v4_to_u64(current),
                socket_addr_v4_to_u64(new),
                success,
                failure,
            ),
        )
    }
}

impl Default for AtomicOptionSocketAddrV4 {
    fn default() -> AtomicOptionSocketAddrV4 {
        AtomicOptionSocketAddrV4::new(None)
    }
}

} // verus!
