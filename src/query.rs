//! The search query language:
//!
//! ```text
//! SearchQuery     := Whitespace? MatchExpr Whitespace?
//! MatchExpr       := Comparator? Whitespace? Num
//! Comparator      := ">=" | "<=" | "!=" | ">" | "<" | "=" | "~"
//! Num             := Sign? Digits TrailingDecimal? (Exp FloatPower)?
//! TrailingDecimal := "." Digits
//! FloatPower      := Sign? Digits
//! ```
//!
//! A query is read into a `Node`: the comparator and the literal's integer and
//! float readings.

use vstd::string::{StrSliceExecFns, StringExecFns};
use crate::decimal::{chars_of, i32_text_value, i64_text_value, is_digit, parse_i64};
use vstd::prelude::*;

verus! {

/// How a value in memory is compared with the query's literal.
#[derive(Clone, Copy, PartialEq, Eq, Structural, Debug)]
pub enum Comparator {
    Approx,
    Gt,
    Gte,
    Lt,
    Lte,
    Eq,
    Neq,
}

impl Comparator {
    /// The relation between integers: `Approx` is plain equality.
    pub open spec fn int_holds(self, mem: int, val: int) -> bool {
        match self {
            Comparator::Approx | Comparator::Eq => mem == val,
            Comparator::Neq => mem != val,
            Comparator::Gt => mem > val,
            Comparator::Gte => mem >= val,
            Comparator::Lt => mem < val,
            Comparator::Lte => mem <= val,
        }
    }

    /// Compares the integer `mem` found in memory with the literal `val`.
    pub fn matches_int(&self, mem: i64, val: i64) -> (r: bool)
        ensures
            r == self.int_holds(mem as int, val as int),
    {
        match *self {
            Comparator::Approx => mem == val,
            Comparator::Eq => mem == val,
            Comparator::Neq => mem != val,
            Comparator::Gt => mem > val,
            Comparator::Gte => mem >= val,
            Comparator::Lt => mem < val,
            Comparator::Lte => mem <= val,
        }
    }

    /// The comparator that `val` writes, if it is one of the seven symbols.
    pub fn from_str(val: &str) -> (r: Option<Comparator>)
        ensures
            r == (match comparator_at(val@, 0) {
                Some((op, e)) => if e == val@.len() {
                    Some(op)
                } else {
                    None
                },
                None => None,
            }),
    {
        let chars = chars_of(val);
        match scan_comparator(&chars, 0) {
            Some((op, e)) => if e == chars.len() {
                Some(op)
            } else {
                None
            },
            None => None,
        }
    }
}

pub open spec fn is_ws(c: char) -> bool {
    c == ' ' || c == '\t' || c == '\n' || c == '\r'
}

/// First position at or after `i` that holds no whitespace.
pub open spec fn ws_end(s: Seq<char>, i: int) -> int
    decreases s.len() - i,
{
    if 0 <= i < s.len() && is_ws(s[i]) {
        ws_end(s, i + 1)
    } else {
        i
    }
}

/// First position at or after `i` that holds no digit.
pub open spec fn digits_end(s: Seq<char>, i: int) -> int
    decreases s.len() - i,
{
    if 0 <= i < s.len() && is_digit(s[i]) {
        digits_end(s, i + 1)
    } else {
        i
    }
}

/// The position after an optional sign at `i`.
pub open spec fn sign_end(s: Seq<char>, i: int) -> int {
    if 0 <= i < s.len() && (s[i] == '+' || s[i] == '-') {
        i + 1
    } else {
        i
    }
}

/// The comparator written at `i` and the position after it; two-character
/// symbols are tried first.
pub open spec fn comparator_at(s: Seq<char>, i: int) -> Option<(Comparator, int)> {
    let two = 0 <= i && i + 2 <= s.len();
    let one = 0 <= i < s.len();
    if two && s[i] == '>' && s[i + 1] == '=' {
        Some((Comparator::Gte, i + 2))
    } else if two && s[i] == '<' && s[i + 1] == '=' {
        Some((Comparator::Lte, i + 2))
    } else if two && s[i] == '!' && s[i + 1] == '=' {
        Some((Comparator::Neq, i + 2))
    } else if one && s[i] == '>' {
        Some((Comparator::Gt, i + 1))
    } else if one && s[i] == '<' {
        Some((Comparator::Lt, i + 1))
    } else if one && s[i] == '=' {
        Some((Comparator::Eq, i + 1))
    } else if one && s[i] == '~' {
        Some((Comparator::Approx, i + 1))
    } else {
        None
    }
}

/// End of the integer part of a number at `i` (sign and digits).
pub open spec fn int_part_end(s: Seq<char>, i: int) -> int {
    digits_end(s, sign_end(s, i))
}

/// A number starts at `i`: at least one digit after the optional sign.
pub open spec fn num_at(s: Seq<char>, i: int) -> bool {
    int_part_end(s, i) > sign_end(s, i)
}

/// Whether a trailing decimal (a dot and at least one digit) follows the
/// integer part of the number at `i`.
pub open spec fn has_fraction(s: Seq<char>, i: int) -> bool {
    let b = int_part_end(s, i);
    b < s.len() && s[b] == '.' && digits_end(s, b + 1) > b + 1
}

/// End of the number at `i` without its exponent.
pub open spec fn mantissa_end(s: Seq<char>, i: int) -> int {
    let b = int_part_end(s, i);
    if has_fraction(s, i) {
        digits_end(s, b + 1)
    } else {
        b
    }
}

/// Whether an exponent (`e` or `E`, an optional sign, digits) follows the
/// mantissa of the number at `i`.
pub open spec fn has_exponent(s: Seq<char>, i: int) -> bool {
    let c = mantissa_end(s, i);
    c < s.len() && (s[c] == 'e' || s[c] == 'E') && digits_end(s, sign_end(s, c + 1)) > sign_end(
        s,
        c + 1,
    )
}

/// End of the number at `i`.
pub open spec fn num_end(s: Seq<char>, i: int) -> int {
    let c = mantissa_end(s, i);
    if has_exponent(s, i) {
        digits_end(s, sign_end(s, c + 1))
    } else {
        c
    }
}

/// Decimal precision of the number at `i`: the count of fraction digits less
/// the exponent (an exponent that does not fit an `i32` counts as zero).
pub open spec fn precision_at(s: Seq<char>, i: int) -> int {
    let b = int_part_end(s, i);
    let c = mantissa_end(s, i);
    let frac = if has_fraction(s, i) {
        c - b - 1
    } else {
        0
    };
    let power = if has_exponent(s, i) {
        match i32_text_value(s.subrange(c + 1, num_end(s, i))) {
            Some(p) => p,
            None => 0,
        }
    } else {
        0
    };
    frac - power
}

/// Position after the comparator, or of the number when there is none.
pub open spec fn after_comparator(s: Seq<char>) -> int {
    match comparator_at(s, ws_end(s, 0)) {
        Some((_, e)) => e,
        None => ws_end(s, 0),
    }
}

/// Where the number of the query `s` starts.
pub open spec fn query_num_start(s: Seq<char>) -> int {
    ws_end(s, after_comparator(s))
}

/// The query `s` is well formed.
pub open spec fn is_query(s: Seq<char>) -> bool {
    let k = query_num_start(s);
    num_at(s, k) && ws_end(s, num_end(s, k)) == s.len()
}

/// The literal of the query `s`.
pub open spec fn query_literal(s: Seq<char>) -> Seq<char> {
    let k = query_num_start(s);
    s.subrange(k, num_end(s, k))
}

/// The comparator written in the query `s`, if any.
pub open spec fn query_op(s: Seq<char>) -> Option<Comparator> {
    match comparator_at(s, ws_end(s, 0)) {
        Some((op, _)) => Some(op),
        None => None,
    }
}

/// The float reading of a literal: its text and its decimal precision.
pub struct FloatLiteral {
    pub text: String,
    pub precision: i32,
}

/// The two readings of a literal. `as_int` is present iff the literal is an
/// `i64`; `as_float` holds the literal for its float reading.
pub struct ConstantMatcher {
    pub as_int: Option<i64>,
    pub as_float: Option<FloatLiteral>,
}

/// A node of a parsed query.
pub enum Node {
    Constant(ConstantMatcher),
    MatchExpr { op: Comparator, val: Box<Node> },
}

impl Node {
    /// The value of a comparison is a constant.
    pub open spec fn wf(&self) -> bool {
        match self {
            Node::Constant(_) => true,
            Node::MatchExpr { val, .. } => **val is Constant,
        }
    }

    /// The comparator in effect: `Approx` when none was written.
    pub open spec fn spec_op(&self) -> Comparator {
        match self {
            Node::Constant(_) => Comparator::Approx,
            Node::MatchExpr { op, .. } => *op,
        }
    }

    pub open spec fn spec_constant(&self) -> &ConstantMatcher {
        match self {
            Node::Constant(c) => c,
            Node::MatchExpr { val, .. } => match &**val {
                Node::Constant(c) => c,
                Node::MatchExpr { .. } => arbitrary(),
            },
        }
    }

    /// The constant of a bare literal.
    pub fn as_constant(&self) -> (r: &ConstantMatcher)
        requires
            self is Constant,
        ensures
            r == self.spec_constant(),
        decreases self,
    {
        match self {
            Node::Constant(info) => info,
            Node::MatchExpr { val, .. } => {
                assert(false);
                val.as_constant()
            },
        }
    }

    /// The comparator in effect.
    pub fn op(&self) -> (r: Comparator)
        ensures
            r == self.spec_op(),
    {
        match self {
            Node::Constant(_) => Comparator::Approx,
            Node::MatchExpr { op, .. } => *op,
        }
    }

    /// The constant the query compares with.
    pub fn constant(&self) -> (r: &ConstantMatcher)
        requires
            self.wf(),
        ensures
            r == self.spec_constant(),
    {
        match self {
            Node::Constant(c) => c,
            Node::MatchExpr { val, .. } => val.as_constant(),
        }
    }
}

/// Position of the first non-whitespace character at or after `i`.
fn skip_ws(s: &Vec<char>, i: usize) -> (r: usize)
    requires
        i <= s@.len(),
    ensures
        r == ws_end(s@, i as int),
        i <= r <= s@.len(),
{
    let mut j = i;
    while j < s.len() && (s[j] == ' ' || s[j] == '\t' || s[j] == '\n' || s[j] == '\r')
        invariant
            i <= j <= s@.len(),
            ws_end(s@, i as int) == ws_end(s@, j as int),
        decreases s@.len() - j,
    {
        j = j + 1;
    }
    j
}

/// Position of the first non-digit at or after `i`.
fn skip_digits(s: &Vec<char>, i: usize) -> (r: usize)
    requires
        i <= s@.len(),
    ensures
        r == digits_end(s@, i as int),
        i <= r <= s@.len(),
{
    let mut j = i;
    while j < s.len() && ('0' <= s[j] && s[j] <= '9')
        invariant
            i <= j <= s@.len(),
            digits_end(s@, i as int) == digits_end(s@, j as int),
        decreases s@.len() - j,
    {
        j = j + 1;
    }
    j
}

/// Position after an optional sign at `i`.
fn skip_sign(s: &Vec<char>, i: usize) -> (r: usize)
    requires
        i <= s@.len(),
    ensures
        r == sign_end(s@, i as int),
        i <= r <= s@.len(),
{
    if i < s.len() && (s[i] == '+' || s[i] == '-') {
        i + 1
    } else {
        i
    }
}

/// The comparator written at `i`, and the position after it.
fn scan_comparator(s: &Vec<char>, i: usize) -> (r: Option<(Comparator, usize)>)
    requires
        i <= s@.len(),
    ensures
        r matches Some((op, e)) ==> comparator_at(s@, i as int) == Some((op, e as int)) && e
            <= s@.len(),
        r is None ==> comparator_at(s@, i as int) is None,
{
    let n = s.len();
    if n - i >= 2 && s[i] == '>' && s[i + 1] == '=' {
        Some((Comparator::Gte, i + 2))
    } else if n - i >= 2 && s[i] == '<' && s[i + 1] == '=' {
        Some((Comparator::Lte, i + 2))
    } else if n - i >= 2 && s[i] == '!' && s[i + 1] == '=' {
        Some((Comparator::Neq, i + 2))
    } else if i < n && s[i] == '>' {
        Some((Comparator::Gt, i + 1))
    } else if i < n && s[i] == '<' {
        Some((Comparator::Lt, i + 1))
    } else if i < n && s[i] == '=' {
        Some((Comparator::Eq, i + 1))
    } else if i < n && s[i] == '~' {
        Some((Comparator::Approx, i + 1))
    } else {
        None
    }
}


/// The constant `c` holds the readings of the literal `lit` whose decimal
/// precision is `precision`.
pub open spec fn reads_literal(c: &ConstantMatcher, lit: Seq<char>, precision: int) -> bool {
    &&& c.as_int matches Some(v) ==> i64_text_value(lit) == Some(v as int)
    &&& c.as_int is None ==> i64_text_value(lit) is None
    &&& c.as_float is Some <==> i32::MIN <= precision <= i32::MAX
    &&& c.as_float matches Some(f) ==> f.text@ == lit && f.precision == precision
}

/// `n` is the node of the well-formed query `s`.
pub open spec fn parsed_as(n: &Node, s: Seq<char>) -> bool {
    &&& n.wf()
    &&& (n is Constant <==> query_op(s) is None)
    &&& n.spec_op() == (match query_op(s) {
        Some(op) => op,
        None => Comparator::Approx,
    })
    &&& reads_literal(
        n.spec_constant(),
        query_literal(s),
        precision_at(s, query_num_start(s)),
    )
}

/// Parses a search query. A bare literal gives a `Constant`; a literal after
/// a comparator gives a `MatchExpr` over that constant.
pub fn parse(input: &str) -> (r: Result<Node, String>)
    ensures
        r is Ok <==> is_query(input@),
        r matches Ok(n) ==> parsed_as(&n, input@),
{
    let s = chars_of(input);
    let w0 = skip_ws(&s, 0);
    let (op, p) = match scan_comparator(&s, w0) {
        Some((op, e)) => (Some(op), e),
        None => (None, w0),
    };
    let k = skip_ws(&s, p);
    let a = skip_sign(&s, k);
    let b = skip_digits(&s, a);
    if b == a {
        return Err("expected a number, optionally after a comparator".to_string());
    }
    let mut c = b;
    let mut frac: usize = 0;
    if b < s.len() && s[b] == '.' {
        let d = skip_digits(&s, b + 1);
        if d > b + 1 {
            c = d;
            frac = d - b - 1;
        }
    }
    let mut e = c;
    let mut power: i64 = 0;
    if c < s.len() && (s[c] == 'e' || s[c] == 'E') {
        let f = skip_sign(&s, c + 1);
        let g = skip_digits(&s, f);
        if g > f {
            e = g;
            power = match parse_i64(&s, c + 1, g) {
                Some(v) => if i32::MIN as i64 <= v && v <= i32::MAX as i64 {
                    v
                } else {
                    0
                },
                None => 0,
            };
        }
    }
    if skip_ws(&s, e) != s.len() {
        return Err("unexpected text after the number".to_string());
    }
    let as_int = parse_i64(&s, k, e);
    let as_float = if frac as u64 > 0x1_0000_0000 {
        None
    } else {
        let precision: i64 = frac as i64 - power;
        if i32::MIN as i64 <= precision && precision <= i32::MAX as i64 {
            let text = String::from_str(input.substring_char(k, e));
            Some(FloatLiteral { text, precision: precision as i32 })
        } else {
            None
        }
    };
    let constant = ConstantMatcher { as_int, as_float };
    match op {
        Some(op) => Ok(Node::MatchExpr { op, val: Box::new(Node::Constant(constant)) }),
        None => Ok(Node::Constant(constant)),
    }
}

} // verus!
