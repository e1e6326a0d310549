//! Addresses the user typed in, and the list of watched addresses.

use crate::data_type::DataType;
use crate::decimal::chars_of;
use vstd::prelude::*;

verus! {

pub open spec fn is_hex(c: char) -> bool {
    ('0' <= c <= '9') || ('a' <= c <= 'f') || ('A' <= c <= 'F')
}

pub open spec fn hex_value(c: char) -> nat {
    if '0' <= c <= '9' {
        (c as int - '0' as int) as nat
    } else if 'a' <= c <= 'f' {
        (c as int - 'a' as int + 10) as nat
    } else {
        (c as int - 'A' as int + 10) as nat
    }
}

/// Value of a run of hex digits, most significant first.
pub open spec fn hex_digits_value(s: Seq<char>) -> nat
    decreases s.len(),
{
    if s.len() == 0 {
        0
    } else {
        hex_digits_value(s.drop_last()) * 16 + hex_value(s.last())
    }
}

pub open spec fn all_hex(s: Seq<char>) -> bool {
    forall|i: int| 0 <= i < s.len() ==> is_hex(#[trigger] s[i])
}

/// What `usize::from_str_radix(s, 16)` gives: an optional `+`, then one or
/// more hex digits of either case, with a value that fits a `usize`.
pub open spec fn hex_text_value(s: Seq<char>) -> Option<nat> {
    let d = if s.len() > 0 && s[0] == '+' {
        s.drop_first()
    } else {
        s
    };
    if d.len() > 0 && all_hex(d) && hex_digits_value(d) <= usize::MAX {
        Some(hex_digits_value(d))
    } else {
        None
    }
}

/// Reads a hexadecimal address as `usize::from_str_radix(s, 16)` does.
pub fn parse_hex(s: &str) -> (r: Option<usize>)
    ensures
        r matches Some(v) ==> hex_text_value(s@) == Some(v as nat),
        r is None ==> hex_text_value(s@) is None,
{
    let c = chars_of(s);
    let n = c.len();
    let ds: usize = if n > 0 && c[0] == '+' {
        1
    } else {
        0
    };
    let ghost d = c@.subrange(ds as int, n as int);
    assert(d =~= (if c@.len() > 0 && c@[0] == '+' {
        c@.drop_first()
    } else {
        c@
    }));
    if ds == n {
        return None;
    }
    let mut acc: usize = 0;
    let mut over = false;
    let mut i: usize = ds;
    while i < n
        invariant
            ds <= i <= n == c@.len(),
            d == c@.subrange(ds as int, n as int),
            c@ == s@,
            d == (if c@.len() > 0 && c@[0] == '+' {
                c@.drop_first()
            } else {
                c@
            }),
            all_hex(c@.subrange(ds as int, i as int)),
            !over ==> acc == hex_digits_value(c@.subrange(ds as int, i as int)),
            over ==> hex_digits_value(c@.subrange(ds as int, i as int)) > usize::MAX,
        decreases n - i,
    {
        let ch = c[i];
        let dv: usize = if '0' <= ch && ch <= '9' {
            (ch as u32 - '0' as u32) as usize
        } else if 'a' <= ch && ch <= 'f' {
            (ch as u32 - 'a' as u32 + 10) as usize
        } else if 'A' <= ch && ch <= 'F' {
            (ch as u32 - 'A' as u32 + 10) as usize
        } else {
            assert(!is_hex(d[i - ds]));
            return None;
        };
        let ghost prev = c@.subrange(ds as int, i as int);
        let ghost next = c@.subrange(ds as int, i + 1);
        assert(next.drop_last() =~= prev);
        if !over {
            if acc > usize::MAX / 16 {
                over = true;
            } else {
                assert(acc * 16 <= usize::MAX) by (nonlinear_arith)
                    requires
                        acc <= usize::MAX / 16,
                ;
                let t: usize = acc * 16;
                if t > usize::MAX - dv {
                    over = true;
                } else {
                    acc = t + dv;
                }
            }
        }
        i = i + 1;
    }
    if over {
        None
    } else {
        Some(acc)
    }
}

/// An address with the shape to read there.
pub struct Address {
    pub address: usize,
    pub data_type: DataType,
}

impl Address {
    /// The address written in hex by `address`; 0 when it is no hex address.
    pub fn from_hex(address: &str) -> (r: Address)
        ensures
            r.address == (match hex_text_value(address@) {
                Some(v) => v,
                None => 0,
            }),
            r.data_type == DataType::FourBytes,
    {
        let a = match parse_hex(address) {
            Some(v) => v,
            None => 0,
        };
        Address { address: a, data_type: DataType::FourBytes }
    }

    pub fn from_address(address: usize) -> (r: Address)
        ensures
            r.address == address,
            r.data_type == DataType::FourBytes,
    {
        Address { address, data_type: DataType::FourBytes }
    }
}

impl From<String> for Address {
    /// The address written in hex by `address`; 0 when it is no hex address.
    fn from(address: String) -> Address {
        Address::from_hex(address.as_str())
    }
}

impl vstd::std_specs::convert::FromSpecImpl<String> for Address {
    open spec fn obeys_from_spec() -> bool {
        true
    }

    open spec fn from_spec(v: String) -> Address {
        Address {
            address: match hex_text_value(v@) {
                Some(a) => a as usize,
                None => 0,
            },
            data_type: DataType::FourBytes,
        }
    }
}

impl From<usize> for Address {
    fn from(address: usize) -> Address {
        Address::from_address(address)
    }
}

impl vstd::std_specs::convert::FromSpecImpl<usize> for Address {
    open spec fn obeys_from_spec() -> bool {
        true
    }

    open spec fn from_spec(v: usize) -> Address {
        Address { address: v, data_type: DataType::FourBytes }
    }
}

/// A row of the address list: what the user typed for one address.
pub struct UserAddress {
    pub id: usize,
    pub description: String,
    /// The address, in hex.
    pub address: String,
    pub data_type: DataType,
    /// The value to write, as text.
    pub requested_val: String,
}

impl UserAddress {
    /// An empty row with identifier `id`.
    pub fn new(id: usize) -> (r: UserAddress)
        ensures
            r.id == id,
            r.description@.len() == 0,
            r.address@.len() == 0,
            r.data_type == DataType::FourBytes,
            r.requested_val@.len() == 0,
    {
        UserAddress {
            id,
            description: String::new(),
            address: String::new(),
            data_type: DataType::FourBytes,
            requested_val: String::new(),
        }
    }

    /// The address the row names, if its text is a hex address.
    pub fn target(&self) -> (r: Option<usize>)
        ensures
            r matches Some(v) ==> hex_text_value(self.address@) == Some(v as nat),
            r is None ==> hex_text_value(self.address@) is None,
    {
        parse_hex(self.address.as_str())
    }
}

/// The list of watched addresses. Row identifiers are handed out in order and
/// never reused.
pub struct AddressGrid {
    pub addresses: Vec<UserAddress>,
    pub next_id: usize,
}

impl AddressGrid {
    pub fn new() -> (r: AddressGrid)
        ensures
            r.addresses@.len() == 0,
            r.next_id == 0,
    {
        AddressGrid { addresses: Vec::new(), next_id: 0 }
    }

    /// Appends an empty row with the next identifier.
    pub fn add_row(&mut self)
        requires
            old(self).next_id < usize::MAX,
        ensures
            final(self).next_id == old(self).next_id + 1,
            final(self).addresses@.len() == old(self).addresses@.len() + 1,
            forall|i: int|
                0 <= i < old(self).addresses@.len() ==> final(self).addresses@[i] == old(
                    self,
                ).addresses@[i],
            final(self).addresses@.last().id == old(self).next_id,
            final(self).addresses@.last().address@.len() == 0,
    {
        let row = UserAddress::new(self.next_id);
        self.addresses.push(row);
        self.next_id = self.next_id + 1;
    }

    /// Removes the row at `index`, if there is one.
    pub fn remove_row(&mut self, index: usize)
        ensures
            index < old(self).addresses@.len() ==> final(self).addresses@ == old(
                self,
            ).addresses@.remove(index as int),
            index >= old(self).addresses@.len() ==> final(self).addresses@ == old(self).addresses@,
            final(self).next_id == old(self).next_id,
    {
        if index < self.addresses.len() {
            self.addresses.remove(index);
        }
    }
}

} // verus!
