//! IPv4 addresses as text.

use vstd::prelude::*;
use crate::number::{decimal, decimal_chars};
use crate::text::{append_str, push_char, string_from_chars};

verus! {

/// The dotted-quad text of the address with octets `o`, as `Ipv4Addr` displays it.
pub open spec fn dotted(o: [u8; 4]) -> Seq<char> {
    decimal(o[0] as nat) + "."@ + decimal(o[1] as nat) + "."@ + decimal(o[2] as nat) + "."@ + decimal(o[3] as nat)
}

/// The octets of an address held as a big-endian `u32`.
pub open spec fn octets_of(addr: u32) -> [u8; 4] {
    [(addr / 0x100_0000) as u8, ((addr / 0x1_0000) % 0x100) as u8, ((addr / 0x100) % 0x100) as u8, (addr % 0x100) as u8]
}

/// The dotted-quad text of an address.
pub fn ipv4_text(o: [u8; 4]) -> (r: String)
    ensures
        r@ == dotted(o),
{
    let mut r = String::new();
    let d0 = decimal_chars(o[0] as u64);
    let d1 = decimal_chars(o[1] as u64);
    let d2 = decimal_chars(o[2] as u64);
    let d3 = decimal_chars(o[3] as u64);
    append_str(&mut r, string_from_chars(d0.as_slice()).as_str());
    push_char(&mut r, '.');
    append_str(&mut r, string_from_chars(d1.as_slice()).as_str());
    push_char(&mut r, '.');
    append_str(&mut r, string_from_chars(d2.as_slice()).as_str());
    push_char(&mut r, '.');
    append_str(&mut r, string_from_chars(d3.as_slice()).as_str());
    proof {
        reveal_strlit(".");
        assert(r@ =~= dotted(o));
    }
    r
}

/// The octets of an address held as a big-endian `u32`.
pub fn octets(addr: u32) -> (r: [u8; 4])
    ensures
        r == octets_of(addr),
{
    [(addr / 0x100_0000) as u8, ((addr / 0x1_0000) % 0x100) as u8, ((addr / 0x100) % 0x100) as u8, (addr % 0x100) as u8]
}

} // verus!
