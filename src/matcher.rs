//! Evaluating a parsed query against raw memory: a whole page, or one slot.
//!
//! Float slots are compared through their IEEE-754 bit patterns. The literal's
//! float value and its tolerance bounds come in as bit patterns too
//! (`FloatBounds`), computed by whoever does the float arithmetic.

use crate::data_type::DataType;
use crate::query::{Comparator, Node};
use crate::scanner::{hits_of, push_result, Hit, SearchResult};
use crate::words::{i32_of, i64_of, ne_value, read_i32, read_i64, read_u32, read_u64, signed32};
use vstd::arithmetic::div_mod::lemma_mod_multiples_vanish;
use vstd::seq_lib::lemma_seq_concat_contains_all_elements;
use vstd::prelude::*;

verus! {

/// Width of an IEEE-754 binary float.
#[derive(Clone, Copy, PartialEq, Eq, Structural, Debug)]
pub enum FloatWidth {
    Single,
    Double,
}

impl FloatWidth {
    pub open spec fn sign_bit(self) -> int {
        match self {
            FloatWidth::Single => 0x8000_0000,
            FloatWidth::Double => 0x8000_0000_0000_0000,
        }
    }

    /// Bit pattern of positive infinity; larger magnitudes are NaN.
    pub open spec fn infinity(self) -> int {
        match self {
            FloatWidth::Single => 0x7f80_0000,
            FloatWidth::Double => 0x7ff0_0000_0000_0000,
        }
    }
}

pub open spec fn magnitude(w: FloatWidth, bits: int) -> int {
    bits % w.sign_bit()
}

pub open spec fn is_negative(w: FloatWidth, bits: int) -> bool {
    (bits / w.sign_bit()) % 2 == 1
}

pub open spec fn is_nan(w: FloatWidth, bits: int) -> bool {
    magnitude(w, bits) > w.infinity()
}

/// Position of a non-NaN float on the number line: both zeros map to 0, and
/// the order of keys is the order of the floats.
pub open spec fn order_key(w: FloatWidth, bits: int) -> int {
    if is_negative(w, bits) {
        -magnitude(w, bits)
    } else {
        magnitude(w, bits)
    }
}

/// IEEE-754 `a < b`: false when either is NaN.
pub open spec fn float_lt(w: FloatWidth, a: int, b: int) -> bool {
    !is_nan(w, a) && !is_nan(w, b) && order_key(w, a) < order_key(w, b)
}

/// IEEE-754 `a <= b`: false when either is NaN.
pub open spec fn float_le(w: FloatWidth, a: int, b: int) -> bool {
    !is_nan(w, a) && !is_nan(w, b) && order_key(w, a) <= order_key(w, b)
}

/// Bit patterns of a float literal and of its tolerance bounds at one width:
/// `lower`/`upper` are `value ∓ 0.999·tol`, `eq_lower`/`eq_upper` are
/// `value ∓ tol`, with `tol = 10^(-precision)`. Single-width patterns sit in
/// the low 32 bits.
#[derive(Clone, Copy)]
pub struct FloatWindow {
    pub value: u64,
    pub lower: u64,
    pub upper: u64,
    pub eq_lower: u64,
    pub eq_upper: u64,
}

/// The float literal of a query resolved at both widths.
#[derive(Clone, Copy)]
pub struct FloatBounds {
    pub double: FloatWindow,
    pub single: FloatWindow,
}

impl Comparator {
    /// The relation between a float `v` in memory and the literal's window:
    /// `Approx` strictly inside the 0.999 bounds, `Eq` inside the full
    /// tolerance, `Neq` strictly outside the 0.999 bounds, the orderings
    /// against the value itself.
    pub open spec fn float_holds(self, w: FloatWidth, v: int, win: FloatWindow) -> bool {
        match self {
            Comparator::Approx => float_lt(w, win.lower as int, v) && float_lt(
                w,
                v,
                win.upper as int,
            ),
            Comparator::Eq => float_le(w, win.eq_lower as int, v) && float_le(
                w,
                v,
                win.eq_upper as int,
            ),
            Comparator::Neq => float_lt(w, v, win.lower as int) || float_lt(
                w,
                win.upper as int,
                v,
            ),
            Comparator::Gt => float_lt(w, win.value as int, v),
            Comparator::Gte => float_le(w, win.value as int, v),
            Comparator::Lt => float_lt(w, v, win.value as int),
            Comparator::Lte => float_le(w, v, win.value as int),
        }
    }

    /// Compares the float with bit pattern `v` with the literal's window.
    pub fn matches_float(&self, w: FloatWidth, v: u64, win: &FloatWindow) -> (r: bool)
        ensures
            r == self.float_holds(w, v as int, *win),
    {
        match *self {
            Comparator::Approx => bits_lt(w, win.lower, v) && bits_lt(w, v, win.upper),
            Comparator::Eq => bits_le(w, win.eq_lower, v) && bits_le(w, v, win.eq_upper),
            Comparator::Neq => bits_lt(w, v, win.lower) || bits_lt(w, win.upper, v),
            Comparator::Gt => bits_lt(w, win.value, v),
            Comparator::Gte => bits_le(w, win.value, v),
            Comparator::Lt => bits_lt(w, v, win.value),
            Comparator::Lte => bits_le(w, v, win.value),
        }
    }
}

fn sign_bit(w: FloatWidth) -> (r: u64)
    ensures
        r == w.sign_bit(),
{
    match w {
        FloatWidth::Single => 0x8000_0000,
        FloatWidth::Double => 0x8000_0000_0000_0000,
    }
}

fn infinity(w: FloatWidth) -> (r: u64)
    ensures
        r == w.infinity(),
{
    match w {
        FloatWidth::Single => 0x7f80_0000,
        FloatWidth::Double => 0x7ff0_0000_0000_0000,
    }
}

/// Compares the keys of two non-NaN floats: -1, 0 or 1.
fn key_cmp(w: FloatWidth, a: u64, b: u64) -> (r: i8)
    ensures
        r == -1 <==> order_key(w, a as int) < order_key(w, b as int),
        r == 0 <==> order_key(w, a as int) == order_key(w, b as int),
        r == 1 <==> order_key(w, a as int) > order_key(w, b as int),
{
    let s = sign_bit(w);
    let ma = a % s;
    let mb = b % s;
    let na = (a / s) % 2 == 1;
    let nb = (b / s) % 2 == 1;
    if !na && !nb {
        if ma < mb {
            -1
        } else if ma == mb {
            0
        } else {
            1
        }
    } else if na && nb {
        if mb < ma {
            -1
        } else if ma == mb {
            0
        } else {
            1
        }
    } else if na {
        if ma == 0 && mb == 0 {
            0
        } else {
            -1
        }
    } else {
        if ma == 0 && mb == 0 {
            0
        } else {
            1
        }
    }
}

fn bits_lt(w: FloatWidth, a: u64, b: u64) -> (r: bool)
    ensures
        r == float_lt(w, a as int, b as int),
{
    let s = sign_bit(w);
    let inf = infinity(w);
    if a % s > inf || b % s > inf {
        false
    } else {
        key_cmp(w, a, b) == -1
    }
}

fn bits_le(w: FloatWidth, a: u64, b: u64) -> (r: bool)
    ensures
        r == float_le(w, a as int, b as int),
{
    let s = sign_bit(w);
    let inf = infinity(w);
    if a % s > inf || b % s > inf {
        false
    } else {
        key_cmp(w, a, b) != 1
    }
}


/// The literal `v` narrowed to 32 bits, as `v as i32` does.
pub open spec fn narrow32(v: int) -> int {
    signed32(v % 0x1_0000_0000)
}

/// The literal narrowed to 32 bits.
pub fn narrow_to_i32(v: i64) -> (r: i32)
    ensures
        r == narrow32(v as int),
{
    let u: u64 = if v >= 0 {
        v as u64
    } else {
        u64::MAX - ((-(v + 1)) as u64)
    };
    proof {
        if v < 0 {
            lemma_mod_multiples_vanish(0x1_0000_0000, v as int, 0x1_0000_0000);
            assert(u as int == 0x1_0000_0000 * 0x1_0000_0000 + v);
        }
    }
    let low: u32 = (u % 0x1_0000_0000) as u32;
    crate::words::to_signed32(low)
}

/// What a slot of the given shape holding `b` does under the comparator `op`,
/// the integer literal `as_int` and the resolved float literal `floats`.
pub open spec fn slot_matches(
    op: Comparator,
    as_int: Option<i64>,
    floats: Option<FloatBounds>,
    t: DataType,
    b: Seq<u8>,
) -> bool {
    match t {
        DataType::FourBytes => as_int is Some && op.int_holds(i32_of(b), narrow32(as_int->0 as int)),
        DataType::EightBytes => as_int is Some && op.int_holds(i64_of(b), as_int->0 as int),
        DataType::Float => floats is Some && op.float_holds(
            FloatWidth::Single,
            ne_value(b) as int,
            floats->0.single,
        ),
        DataType::Double => floats is Some && op.float_holds(
            FloatWidth::Double,
            ne_value(b) as int,
            floats->0.double,
        ),
    }
}

/// The hit of shape `t` at byte offset `at` of the page, if the slot there
/// lies inside the page and matches.
#[verifier::opaque]
pub open spec fn hit_at(
    mem: Seq<u8>,
    base: int,
    op: Comparator,
    as_int: Option<i64>,
    floats: Option<FloatBounds>,
    t: DataType,
    at: int,
) -> Seq<Hit> {
    let b = mem.subrange(at, at + t.spec_size());
    if at + t.spec_size() <= mem.len() && slot_matches(op, as_int, floats, t, b) {
        seq![Hit { address: base + at, data_type: t, value: b }]
    } else {
        seq![]
    }
}

/// The hits emitted for the `k`-th 4-byte word of a page: the 8-byte integer
/// and the double starting there (even words only), the 4-byte integer and
/// the float.
pub open spec fn word_hits(
    mem: Seq<u8>,
    base: int,
    op: Comparator,
    as_int: Option<i64>,
    floats: Option<FloatBounds>,
    k: int,
) -> Seq<Hit> {
    let wide = if k % 2 == 0 {
        hit_at(mem, base, op, as_int, floats, DataType::EightBytes, 4 * k)
    } else {
        seq![]
    };
    let wide_float = if k % 2 == 0 {
        hit_at(mem, base, op, as_int, floats, DataType::Double, 4 * k)
    } else {
        seq![]
    };
    wide + hit_at(mem, base, op, as_int, floats, DataType::FourBytes, 4 * k) + wide_float
        + hit_at(mem, base, op, as_int, floats, DataType::Float, 4 * k)
}

/// The hits of the first `n` words of a page, in order.
pub open spec fn page_hits(
    mem: Seq<u8>,
    base: int,
    op: Comparator,
    as_int: Option<i64>,
    floats: Option<FloatBounds>,
    n: nat,
) -> Seq<Hit>
    decreases n,
{
    if n == 0 {
        seq![]
    } else {
        page_hits(mem, base, op, as_int, floats, (n - 1) as nat) + word_hits(
            mem,
            base,
            op,
            as_int,
            floats,
            n - 1,
        )
    }
}

/// A hit lies wholly inside the page of `len` bytes at `base`, and holds the
/// bytes of its shape.
pub open spec fn within_page(len: int, base: int, h: Hit) -> bool {
    &&& base <= h.address
    &&& h.address + h.data_type.spec_size() <= base + len
    &&& h.value.len() == h.data_type.spec_size()
}

/// Every hit of `s` lies inside the page of `len` bytes at `base`.
pub open spec fn all_within_page(len: int, base: int, s: Seq<Hit>) -> bool {
    forall|i: int| 0 <= i < s.len() ==> within_page(len, base, #[trigger] s[i])
}

proof fn lemma_concat_within(len: int, base: int, a: Seq<Hit>, b: Seq<Hit>)
    requires
        all_within_page(len, base, a),
        all_within_page(len, base, b),
    ensures
        all_within_page(len, base, a + b),
{
    assert forall|i: int| 0 <= i < (a + b).len() implies within_page(
        len,
        base,
        #[trigger] (a + b)[i],
    ) by {
        if i < a.len() {
            assert((a + b)[i] == a[i]);
        } else {
            assert((a + b)[i] == b[i - a.len()]);
        }
    }
}

proof fn lemma_word_within(
    mem: Seq<u8>,
    base: int,
    op: Comparator,
    as_int: Option<i64>,
    floats: Option<FloatBounds>,
    k: int,
)
    requires
        0 <= k,
    ensures
        all_within_page(mem.len() as int, base, word_hits(mem, base, op, as_int, floats, k)),
{
    reveal(hit_at);
    let len = mem.len() as int;
    let wide = if k % 2 == 0 {
        hit_at(mem, base, op, as_int, floats, DataType::EightBytes, 4 * k)
    } else {
        seq![]
    };
    let wide_float = if k % 2 == 0 {
        hit_at(mem, base, op, as_int, floats, DataType::Double, 4 * k)
    } else {
        seq![]
    };
    let four = hit_at(mem, base, op, as_int, floats, DataType::FourBytes, 4 * k);
    let single = hit_at(mem, base, op, as_int, floats, DataType::Float, 4 * k);
    assert(all_within_page(len, base, wide));
    assert(all_within_page(len, base, four));
    assert(all_within_page(len, base, wide_float));
    assert(all_within_page(len, base, single));
    lemma_concat_within(len, base, wide, four);
    lemma_concat_within(len, base, wide + four, wide_float);
    lemma_concat_within(len, base, wide + four + wide_float, single);
}

/// Page boundary: every hit of a page scan lies inside the page, that is at
/// an address in `[base, base + len - size_of(type)]`.
pub proof fn lemma_page_boundary(
    mem: Seq<u8>,
    base: int,
    op: Comparator,
    as_int: Option<i64>,
    floats: Option<FloatBounds>,
    n: nat,
)
    ensures
        all_within_page(mem.len() as int, base, page_hits(mem, base, op, as_int, floats, n)),
    decreases n,
{
    if n > 0 {
        lemma_page_boundary(mem, base, op, as_int, floats, (n - 1) as nat);
        lemma_word_within(mem, base, op, as_int, floats, n - 1);
        lemma_concat_within(
            mem.len() as int,
            base,
            page_hits(mem, base, op, as_int, floats, (n - 1) as nat),
            word_hits(mem, base, op, as_int, floats, n - 1),
        );
    }
}

/// A hit belongs to a page scan iff it belongs to the hits of one of its words.
proof fn lemma_page_hits_contains(
    mem: Seq<u8>,
    base: int,
    op: Comparator,
    as_int: Option<i64>,
    floats: Option<FloatBounds>,
    n: nat,
    h: Hit,
)
    ensures
        page_hits(mem, base, op, as_int, floats, n).contains(h) <==> exists|k: int|
            0 <= k < n && #[trigger] word_hits(mem, base, op, as_int, floats, k).contains(h),
    decreases n,
{
    broadcast use lemma_seq_concat_contains_all_elements;

    if n > 0 {
        lemma_page_hits_contains(mem, base, op, as_int, floats, (n - 1) as nat, h);
        if word_hits(mem, base, op, as_int, floats, n - 1).contains(h) {
            assert(page_hits(mem, base, op, as_int, floats, n).contains(h));
        }
    }
}

/// Soundness for 4-byte integers: the page scan reports the `k`-th word as an
/// `i32` hit exactly when the query has an integer literal and the word
/// compares with the literal taken modulo 2^32.
pub proof fn lemma_i32_hit(
    mem: Seq<u8>,
    base: int,
    op: Comparator,
    as_int: Option<i64>,
    floats: Option<FloatBounds>,
    k: int,
)
    requires
        0 <= k < mem.len() / 4,
    ensures
        ({
            let b = mem.subrange(4 * k, 4 * k + 4);
            page_hits(mem, base, op, as_int, floats, mem.len() / 4).contains(
                Hit { address: base + 4 * k, data_type: DataType::FourBytes, value: b },
            ) <==> (as_int is Some && op.int_holds(i32_of(b), narrow32(as_int->0 as int)))
        }),
{
    broadcast use lemma_seq_concat_contains_all_elements;

    reveal(hit_at);
    let b = mem.subrange(4 * k, 4 * k + 4);
    let h = Hit { address: base + 4 * k, data_type: DataType::FourBytes, value: b };
    let n = mem.len() / 4;
    lemma_page_hits_contains(mem, base, op, as_int, floats, n, h);
    if as_int is Some && op.int_holds(i32_of(b), narrow32(as_int->0 as int)) {
        assert(hit_at(mem, base, op, as_int, floats, DataType::FourBytes, 4 * k)[0] == h);
        assert(word_hits(mem, base, op, as_int, floats, k).contains(h));
    }
    if page_hits(mem, base, op, as_int, floats, n).contains(h) {
        let k2 = choose|k2: int|
            0 <= k2 < n && #[trigger] word_hits(mem, base, op, as_int, floats, k2).contains(h);
        assert(hit_at(mem, base, op, as_int, floats, DataType::FourBytes, 4 * k2).contains(h));
        assert(k2 == k);
    }
}

/// Soundness for 8-byte integers: the page scan reports the 8-byte word at
/// offset `8·j` as an `i64` hit exactly when the query has an integer
/// literal and the word compares with it.
pub proof fn lemma_i64_hit(
    mem: Seq<u8>,
    base: int,
    op: Comparator,
    as_int: Option<i64>,
    floats: Option<FloatBounds>,
    j: int,
)
    requires
        0 <= j,
        8 * j + 8 <= mem.len(),
    ensures
        ({
            let b = mem.subrange(8 * j, 8 * j + 8);
            page_hits(mem, base, op, as_int, floats, mem.len() / 4).contains(
                Hit { address: base + 8 * j, data_type: DataType::EightBytes, value: b },
            ) <==> (as_int is Some && op.int_holds(i64_of(b), as_int->0 as int))
        }),
{
    broadcast use lemma_seq_concat_contains_all_elements;

    reveal(hit_at);
    let b = mem.subrange(8 * j, 8 * j + 8);
    let h = Hit { address: base + 8 * j, data_type: DataType::EightBytes, value: b };
    let n = mem.len() / 4;
    lemma_page_hits_contains(mem, base, op, as_int, floats, n, h);
    if as_int is Some && op.int_holds(i64_of(b), as_int->0 as int) {
        assert(hit_at(mem, base, op, as_int, floats, DataType::EightBytes, 8 * j)[0] == h);
        assert(word_hits(mem, base, op, as_int, floats, 2 * j).contains(h));
    }
    if page_hits(mem, base, op, as_int, floats, n).contains(h) {
        let k2 = choose|k2: int|
            0 <= k2 < n && #[trigger] word_hits(mem, base, op, as_int, floats, k2).contains(h);
        assert(k2 % 2 == 0);
        assert(hit_at(mem, base, op, as_int, floats, DataType::EightBytes, 4 * k2).contains(h));
        assert(k2 == 2 * j);
    }
}

/// Copies `mem[at..at + len]`.
fn copy_bytes(mem: &[u8], at: usize, len: usize) -> (r: Vec<u8>)
    requires
        at + len <= mem@.len(),
    ensures
        r@ == mem@.subrange(at as int, at + len),
{
    let n = mem.len();
    let mut r: Vec<u8> = Vec::new();
    let mut i: usize = 0;
    while i < len
        invariant
            n == mem@.len(),
            at + len <= mem@.len(),
            i <= len,
            r@ == mem@.subrange(at as int, at + i),
        decreases len - i,
    {
        r.push(mem[at + i]);
        i = i + 1;
        assert(r@ =~= mem@.subrange(at as int, at + i));
    }
    r
}

/// Tests the slot of shape `t` holding `b`.
fn test_slot(
    op: Comparator,
    as_int: Option<i64>,
    floats: &Option<FloatBounds>,
    t: DataType,
    b: &[u8],
) -> (r: bool)
    requires
        b@.len() == t.spec_size(),
    ensures
        r == slot_matches(op, as_int, *floats, t, b@),
{
    assert(b@.subrange(0, b@.len() as int) =~= b@);
    match t {
        DataType::FourBytes => match as_int {
            Some(v) => op.matches_int(read_i32(b, 0) as i64, narrow_to_i32(v) as i64),
            None => false,
        },
        DataType::EightBytes => match as_int {
            Some(v) => op.matches_int(read_i64(b, 0), v),
            None => false,
        },
        DataType::Float => match floats {
            Some(f) => op.matches_float(FloatWidth::Single, read_u32(b, 0) as u64, &f.single),
            None => false,
        },
        DataType::Double => match floats {
            Some(f) => op.matches_float(FloatWidth::Double, read_u64(b, 0), &f.double),
            None => false,
        },
    }
}

/// Appends the hit of shape `t` at byte offset `at`, if there is one.
fn emit_at(
    out: &mut Vec<SearchResult>,
    mem: &[u8],
    base: usize,
    op: Comparator,
    as_int: Option<i64>,
    floats: &Option<FloatBounds>,
    t: DataType,
    at: usize,
)
    requires
        base + mem@.len() <= usize::MAX,
        at <= mem@.len(),
    ensures
        hits_of(final(out)@) == hits_of(old(out)@) + hit_at(
            mem@,
            base as int,
            op,
            as_int,
            *floats,
            t,
            at as int,
        ),
{
    reveal(hit_at);
    let size = t.size_of();
    if size <= mem.len() - at {
        let b = copy_bytes(mem, at, size);
        if test_slot(op, as_int, floats, t, b.as_slice()) {
            push_result(out, SearchResult { address: base + at, data_type: t, value: b });
        } else {
            assert(hits_of(out@) =~= hits_of(old(out)@) + seq![]);
        }
    } else {
        assert(hits_of(out@) =~= hits_of(old(out)@) + seq![]);
    }
}

/// Appends the hits of the `k`-th 4-byte word of the page.
fn emit_word(
    out: &mut Vec<SearchResult>,
    mem: &[u8],
    base: usize,
    op: Comparator,
    as_int: Option<i64>,
    floats: &Option<FloatBounds>,
    k: usize,
)
    requires
        base + mem@.len() <= usize::MAX,
        k < mem@.len() / 4,
    ensures
        hits_of(final(out)@) == hits_of(old(out)@) + word_hits(
            mem@,
            base as int,
            op,
            as_int,
            *floats,
            k as int,
        ),
{
    let ghost before = hits_of(out@);
    let at = 4 * k;
    if k % 2 == 0 {
        emit_at(out, mem, base, op, as_int, floats, DataType::EightBytes, at);
    }
    let ghost h1 = hits_of(out@);
    emit_at(out, mem, base, op, as_int, floats, DataType::FourBytes, at);
    let ghost h2 = hits_of(out@);
    if k % 2 == 0 {
        emit_at(out, mem, base, op, as_int, floats, DataType::Double, at);
    }
    let ghost h3 = hits_of(out@);
    emit_at(out, mem, base, op, as_int, floats, DataType::Float, at);
    proof {
        let wide = if k % 2 == 0 {
            hit_at(mem@, base as int, op, as_int, *floats, DataType::EightBytes, 4 * k)
        } else {
            seq![]
        };
        let wide_float = if k % 2 == 0 {
            hit_at(mem@, base as int, op, as_int, *floats, DataType::Double, 4 * k)
        } else {
            seq![]
        };
        if k % 2 != 0 {
            assert(h1 =~= before + seq![]);
            assert(h3 =~= h2 + seq![]);
        }
        assert(h1 == before + wide);
        assert(h3 == h2 + wide_float);
        assert(hits_of(out@) =~= before + word_hits(mem@, base as int, op, as_int, *floats, k as int));
    }
}

impl Node {
    /// Scans a page of memory that starts at `addr_start`. Every 4-byte word
    /// is read as an `i32` and, when the literal is an integer, compared with
    /// the literal narrowed to 32 bits; every 8-byte word at an even word
    /// index is read as an `i64`. With `floats` the same words are read as
    /// `f32` and `f64`. Trailing bytes that do not fill a word are ignored.
    pub fn scan_page(&self, mem: &[u8], addr_start: usize, floats: &Option<FloatBounds>) -> (r:
        Vec<SearchResult>)
        requires
            self.wf(),
            addr_start + mem@.len() <= usize::MAX,
        ensures
            hits_of(r@) == page_hits(
                mem@,
                addr_start as int,
                self.spec_op(),
                self.spec_constant().as_int,
                *floats,
                mem@.len() / 4,
            ),
    {
        let op = self.op();
        let as_int = self.constant().as_int;
        let n = mem.len() / 4;
        let mut out: Vec<SearchResult> = Vec::new();
        let mut k: usize = 0;
        while k < n
            invariant
                k <= n,
                n == mem@.len() / 4,
                addr_start + mem@.len() <= usize::MAX,
                hits_of(out@) == page_hits(mem@, addr_start as int, op, as_int, *floats, k as nat),
            decreases n - k,
        {
            emit_word(&mut out, mem, addr_start, op, as_int, floats, k);
            k = k + 1;
        }
        out
    }

    /// Tests one already located slot of shape `data_type` holding `mem`;
    /// bytes of another length never match.
    pub fn test_single(&self, mem: &[u8], data_type: DataType, floats: &Option<FloatBounds>) -> (r:
        bool)
        requires
            self.wf(),
        ensures
            r == (mem@.len() == data_type.spec_size() && slot_matches(
                self.spec_op(),
                self.spec_constant().as_int,
                *floats,
                data_type,
                mem@,
            )),
    {
        if mem.len() != data_type.size_of() {
            return false;
        }
        test_slot(self.op(), self.constant().as_int, floats, data_type, mem)
    }
}

} // verus!
