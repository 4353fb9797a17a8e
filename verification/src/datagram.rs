//! Datagrams as the library sees them: a peer and a payload, cut to the
//! size of the receive buffer.

use vstd::prelude::*;
use vstd::slice::{slice_subrange, slice_to_vec};
use vstd::string::StringExecFns;

verus! {

/// Size of the buffer a datagram is received into, on both sides.
pub const RECV_BUFFER_LENGTH: usize = 64;

/// An IPv4 address and a UDP port. The address is held as one number, most
/// significant octet first: `a.b.c.d` is `a * 2^24 + b * 2^16 + c * 2^8 + d`.
#[derive(Clone, Copy, Debug, PartialEq, Eq, Structural)]
pub struct Endpoint {
    pub addr: u32,
    pub port: u16,
}

/// One datagram: the peer it came from or goes to, and its payload.
#[derive(Debug)]
pub struct Datagram {
    pub peer: Endpoint,
    pub payload: Vec<u8>,
}

/// What is left of a datagram's payload once it has gone through the
/// receive buffer: its first `RECV_BUFFER_LENGTH` bytes, or all of it if it
/// is shorter.
pub open spec fn received_prefix(payload: Seq<u8>) -> Seq<u8> {
    if payload.len() <= RECV_BUFFER_LENGTH {
        payload
    } else {
        payload.take(RECV_BUFFER_LENGTH as int)
    }
}

/// Cuts a payload to the receive buffer.
pub fn receive_into_buffer(payload: &[u8]) -> (received: Vec<u8>)
    ensures
        received@ == received_prefix(payload@),
{
    if payload.len() <= RECV_BUFFER_LENGTH {
        slice_to_vec(payload)
    } else {
        slice_to_vec(slice_subrange(payload, 0, RECV_BUFFER_LENGTH))
    }
}

/// A payload that fits the buffer passes through it unchanged, and passing
/// through it twice is the same as once.
pub proof fn lemma_received_prefix(payload: Seq<u8>)
    ensures
        received_prefix(payload).len() <= RECV_BUFFER_LENGTH,
        received_prefix(payload).len() <= payload.len(),
        payload.len() <= RECV_BUFFER_LENGTH ==> received_prefix(payload) == payload,
        received_prefix(received_prefix(payload)) == received_prefix(payload),
        received_prefix(payload).is_prefix_of(payload),
{
}

/// The number of an address given by its four octets, first octet first.
pub open spec fn addr_of_octets(a: u8, b: u8, c: u8, d: u8) -> int {
    a * 0x100_0000 + b * 0x1_0000 + c * 0x100 + d
}

/// The address `a.b.c.d` as one number.
pub fn ipv4(a: u8, b: u8, c: u8, d: u8) -> (addr: u32)
    ensures
        addr == addr_of_octets(a, b, c, d),
{
    let high: u32 = a as u32 * 0x100_0000 + b as u32 * 0x1_0000;
    let low: u32 = c as u32 * 0x100 + d as u32;
    high + low
}

/// The four octets of an address, first octet first.
pub fn octets(addr: u32) -> (parts: [u8; 4])
    ensures
        parts[0] == addr / 0x100_0000,
        parts[1] == (addr / 0x1_0000) % 0x100,
        parts[2] == (addr / 0x100) % 0x100,
        parts[3] == addr % 0x100,
        addr_of_octets(parts[0], parts[1], parts[2], parts[3]) == addr,
{
    let a: u8 = (addr / 0x100_0000) as u8;
    let b: u8 = ((addr / 0x1_0000) % 0x100) as u8;
    let c: u8 = ((addr / 0x100) % 0x100) as u8;
    let d: u8 = (addr % 0x100) as u8;
    [a, b, c, d]
}

/// The numeral of a number below ten.
pub open spec fn digit(d: int) -> char {
    if d == 0 {
        '0'
    } else if d == 1 {
        '1'
    } else if d == 2 {
        '2'
    } else if d == 3 {
        '3'
    } else if d == 4 {
        '4'
    } else if d == 5 {
        '5'
    } else if d == 6 {
        '6'
    } else if d == 7 {
        '7'
    } else if d == 8 {
        '8'
    } else {
        '9'
    }
}

/// An octet in decimal, without leading zeros.
pub open spec fn decimal(octet: int) -> Seq<char> {
    if octet < 10 {
        seq![digit(octet)]
    } else if octet < 100 {
        seq![digit(octet / 10), digit(octet % 10)]
    } else {
        seq![digit(octet / 100), digit((octet / 10) % 10), digit(octet % 10)]
    }
}

/// An address in dotted decimal: its four octets, first octet first, with
/// a dot between them.
pub open spec fn dotted_decimal(addr: int) -> Seq<char> {
    decimal(addr / 0x100_0000) + seq!['.'] + decimal((addr / 0x1_0000) % 0x100) + seq!['.']
        + decimal((addr / 0x100) % 0x100) + seq!['.'] + decimal(addr % 0x100)
}

fn digit_text(d: u8) -> (text: &'static str)
    requires
        d < 10,
    ensures
        text@ == seq![digit(d as int)],
{
    proof {
        reveal_strlit("0");
        reveal_strlit("1");
        reveal_strlit("2");
        reveal_strlit("3");
        reveal_strlit("4");
        reveal_strlit("5");
        reveal_strlit("6");
        reveal_strlit("7");
        reveal_strlit("8");
        reveal_strlit("9");
    }
    let text = if d == 0 {
        "0"
    } else if d == 1 {
        "1"
    } else if d == 2 {
        "2"
    } else if d == 3 {
        "3"
    } else if d == 4 {
        "4"
    } else if d == 5 {
        "5"
    } else if d == 6 {
        "6"
    } else if d == 7 {
        "7"
    } else if d == 8 {
        "8"
    } else {
        "9"
    };
    assert(text@ =~= seq![digit(d as int)]);
    text
}

/// An octet in decimal.
pub fn decimal_text(octet: u8) -> (text: String)
    ensures
        text@ == decimal(octet as int),
{
    let mut text = String::new();
    if octet >= 100 {
        text.append(digit_text(octet / 100));
    }
    if octet >= 10 {
        text.append(digit_text((octet / 10) % 10));
    }
    text.append(digit_text(octet % 10));
    assert(text@ =~= decimal(octet as int));
    text
}

/// An address in dotted decimal.
pub fn address_text(addr: u32) -> (text: String)
    ensures
        text@ == dotted_decimal(addr as int),
{
    proof {
        reveal_strlit(".");
    }
    let parts = octets(addr);
    let ghost a = decimal(parts[0] as int);
    let ghost b = decimal(parts[1] as int);
    let ghost c = decimal(parts[2] as int);
    let ghost d = decimal(parts[3] as int);
    let mut text = decimal_text(parts[0]);
    text.append(".");
    text.append(decimal_text(parts[1]).as_str());
    text.append(".");
    text.append(decimal_text(parts[2]).as_str());
    text.append(".");
    text.append(decimal_text(parts[3]).as_str());
    assert("."@ =~= seq!['.']);
    assert(text@ =~= a + seq!['.'] + b + seq!['.'] + c + seq!['.'] + d);
    text
}

} // verus!
