//! Reading IPv4 addresses.
use vstd::prelude::*;
use crate::text::{split_of, split_on, texts, unsigned_value};

verus! {

/// Four values as an address.
pub fn vec_to_arr(v: &Vec<u8>) -> (r: [u8; 4])
    requires
        v@.len() == 4,
    ensures
        r@ == v@,
{
    let r = [v[0], v[1], v[2], v[3]];
    assert(r@ =~= v@);
    r
}

/// The octets of a dotted IPv4 address: four pieces between dots, each a
/// number from 0 to 255.
pub open spec fn ipv4_octets(s: Seq<char>) -> Option<Seq<u8>> {
    let parts = split_of(s, '.');
    if parts.len() == 4 && forall|k: int| 0 <= k < 4 ==> unsigned_value(#[trigger] parts[k], 255) is Some {
        Some(Seq::new(4, |k: int| unsigned_value(parts[k], 255)->0 as u8))
    } else {
        None
    }
}

/// Reads a dotted IPv4 address.
pub fn parse_ipv4(s: &str) -> (r: Option<[u8; 4]>)
    ensures
        match ipv4_octets(s@) {
            Some(o) => r matches Some(a) && a@ == o,
            None => r is None,
        },
{
    let parts = split_on(s, '.');
    if parts.len() != 4 {
        return None;
    }
    let mut octets: Vec<u8> = Vec::new();
    let mut i: usize = 0;
    while i < 4
        invariant
            parts@.len() == 4,
            texts(parts@) == split_of(s@, '.'),
            i <= 4,
            octets@.len() == i,
            forall|k: int| 0 <= k < i ==> unsigned_value(#[trigger] texts(parts@)[k], 255) == Some(octets@[k] as int),
        decreases 4 - i,
    {
        match crate::text::parse_unsigned(parts[i].as_str(), 255) {
            Some(v) => {
                octets.push(v as u8);
            },
            None => {
                assert(unsigned_value(texts(parts@)[i as int], 255) is None);
                return None;
            },
        }
        i = i + 1;
    }
    let r = vec_to_arr(&octets);
    assert(r@ =~= ipv4_octets(s@)->0);
    Some(r)
}

} // verus!
