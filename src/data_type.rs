//! The four numeric shapes a memory slot can be read as.

use crate::decimal::{chars_of, int_text_value, lemma_int_text_reads_back, i32_text_value, i64_text_value, int_text, int_to_text, parse_i64};
use crate::words::{i32_bytes, i32_of, i64_bytes, i64_of, read_i32, read_i64};
use vstd::prelude::*;

verus! {

/// A numeric shape: 4-byte and 8-byte signed integers, 4-byte and 8-byte
/// IEEE-754 floats.
#[derive(Clone, Copy, PartialEq, Eq, Structural, Debug)]
pub enum DataType {
    FourBytes,
    EightBytes,
    Float,
    Double,
}

/// The shape selected in a type chooser.
pub type DataTypeEnum = DataType;

/// The shape a user picked for an address of the address list.
pub type UserDataType = DataType;

impl Default for DataType {
    fn default() -> (r: DataType)
        ensures
            r == DataType::FourBytes,
    {
        DataType::FourBytes
    }
}

/// Every shape, in the order that selectors list them.
pub fn all_data_types() -> (r: [DataType; 4])
    ensures
        r@ == seq![DataType::FourBytes, DataType::EightBytes, DataType::Float, DataType::Double],
{
    let r = [DataType::FourBytes, DataType::EightBytes, DataType::Float, DataType::Double];
    assert(r@ =~= seq![DataType::FourBytes, DataType::EightBytes, DataType::Float, DataType::Double]);
    r
}

impl DataType {
    pub open spec fn spec_size(self) -> nat {
        match self {
            DataType::FourBytes | DataType::Float => 4,
            DataType::EightBytes | DataType::Double => 8,
        }
    }

    pub open spec fn spec_name(self) -> Seq<char> {
        match self {
            DataType::FourBytes => "4 bytes"@,
            DataType::EightBytes => "8 bytes"@,
            DataType::Float => "Float"@,
            DataType::Double => "Double"@,
        }
    }

    /// Integer shapes; the float shapes are handled as raw bit patterns.
    pub open spec fn is_int(self) -> bool {
        self is FourBytes || self is EightBytes
    }

    /// The integer that the bytes `b` store, for an integer shape.
    pub open spec fn int_value(self, b: Seq<u8>) -> int {
        match self {
            DataType::FourBytes => i32_of(b),
            DataType::EightBytes => i64_of(b),
            _ => 0,
        }
    }

    /// The integer that the text `s` writes, when it fits this integer shape.
    pub open spec fn text_value(self, s: Seq<char>) -> Option<int> {
        match self {
            DataType::FourBytes => i32_text_value(s),
            DataType::EightBytes => i64_text_value(s),
            _ => None,
        }
    }

    /// Display name of the shape.
    pub fn name(&self) -> (r: &'static str)
        ensures
            r@ == self.spec_name(),
    {
        match *self {
            DataType::FourBytes => "4 bytes",
            DataType::EightBytes => "8 bytes",
            DataType::Float => "Float",
            DataType::Double => "Double",
        }
    }

    /// Size of the shape in bytes.
    pub fn size_of(&self) -> (r: usize)
        ensures
            r == self.spec_size(),
    {
        match *self {
            DataType::FourBytes => 4,
            DataType::EightBytes => 8,
            DataType::Float => 4,
            DataType::Double => 8,
        }
    }

    pub fn is_integer(&self) -> (r: bool)
        ensures
            r == self.is_int(),
    {
        match *self {
            DataType::FourBytes | DataType::EightBytes => true,
            _ => false,
        }
    }

    /// Decimal text of the integer stored in `value`. Float text is written by
    /// the application, which owns float formatting.
    pub fn from_bytes(&self, value: Vec<u8>) -> (r: String)
        requires
            self.is_int(),
            value@.len() == self.spec_size(),
        ensures
            r@ == int_text(self.int_value(value@)),
    {
        let v: i64 = match *self {
            DataType::FourBytes => read_i32(value.as_slice(), 0) as i64,
            _ => read_i64(value.as_slice(), 0),
        };
        assert(value@.subrange(0, self.spec_size() as int) =~= value@);
        int_to_text(v)
    }

    /// The bytes that store the integer written by `value`, or an error when
    /// the text is no integer of this shape.
    pub fn to_bytes(&self, value: &String) -> (r: Result<Vec<u8>, String>)
        requires
            self.is_int(),
        ensures
            r is Ok <==> self.text_value(value@) is Some,
            r matches Ok(b) ==> b@.len() == self.spec_size() && self.int_value(b@)
                == self.text_value(value@)->0,
    {
        let chars = chars_of(value.as_str());
        match parse_i64(&chars, 0, chars.len()) {
            Some(v) => {
                assert(chars@.subrange(0, chars@.len() as int) =~= value@);
                match *self {
                    DataType::FourBytes => {
                        if v < i32::MIN as i64 || v > i32::MAX as i64 {
                            Err("Parse Error".to_string())
                        } else {
                            Ok(i32_bytes(v as i32))
                        }
                    },
                    _ => Ok(i64_bytes(v)),
                }
            },
            None => {
                assert(chars@.subrange(0, chars@.len() as int) =~= value@);
                Err("Parse Error".to_string())
            },
        }
    }
}


/// Round trip: for an integer shape and a text that `to_bytes` accepts, the
/// bytes it stores read back through `from_bytes` as the canonical decimal
/// text of the parsed value, and that text writes the same value again.
pub proof fn lemma_round_trip(t: DataType, s: Seq<char>, b: Seq<u8>)
    requires
        t.is_int(),
        t.text_value(s) is Some,
        b.len() == t.spec_size(),
        t.int_value(b) == t.text_value(s)->0,
    ensures
        int_text(t.int_value(b)) == int_text(t.text_value(s)->0),
        t.text_value(int_text(t.int_value(b))) == t.text_value(s),
{
    let v = t.text_value(s)->0;
    lemma_int_text_reads_back(v);
    assert(int_text_value(int_text(v)) == Some(v));
}

} // verus!
