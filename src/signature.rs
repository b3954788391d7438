use vstd::prelude::*;
use crate::decimal::{is_digit, decimal_value, digit_of};

verus! {

/// Why a descriptor does not describe a type.
#[derive(Debug, PartialEq, Eq)]
pub enum ParseError {
    /// The type string starts with no known keyword.
    UnknownBaseType,
    /// A width after `uint`, `int` or `bytes` is missing or outside its legal set.
    InvalidWidth,
    /// A `tuple` type came without components.
    MissingComponents,
    /// Components came with a type whose base is not `tuple`.
    UnexpectedComponents,
    /// A bracket suffix is not `[]` or `[N]` with `N` a positive number.
    MalformedArraySuffix,
    /// Characters follow a complete type.
    TrailingInput,
    /// The component at this index failed, for the reason inside.
    NestedFailure(usize, Box<ParseError>),
}

/// The keyword at the start of a type string, with its width.
#[derive(Debug, Clone, Copy, PartialEq, Eq)]
pub enum BaseType {
    Uint(usize),
    Int(usize),
    Address,
    Bool,
    FixedBytes(usize),
    Bytes,
    String,
    Tuple,
}

/// One array suffix: `[]` or `[N]`.
#[derive(Debug, Clone, Copy, PartialEq, Eq)]
pub enum Dim {
    Dynamic,
    Fixed(usize),
}

pub open spec fn kw_uint() -> Seq<char> {
    seq!['u', 'i', 'n', 't']
}

pub open spec fn kw_int() -> Seq<char> {
    seq!['i', 'n', 't']
}

pub open spec fn kw_address() -> Seq<char> {
    seq!['a', 'd', 'd', 'r', 'e', 's', 's']
}

pub open spec fn kw_bool() -> Seq<char> {
    seq!['b', 'o', 'o', 'l']
}

pub open spec fn kw_bytes() -> Seq<char> {
    seq!['b', 'y', 't', 'e', 's']
}

pub open spec fn kw_string() -> Seq<char> {
    seq!['s', 't', 'r', 'i', 'n', 'g']
}

pub open spec fn kw_tuple() -> Seq<char> {
    seq!['t', 'u', 'p', 'l', 'e']
}

pub open spec fn has_prefix(s: Seq<char>, p: Seq<char>) -> bool {
    p.len() <= s.len() && forall|j: int| 0 <= j < p.len() ==> s[j] == p[j]
}

/// The length of the run of digits that starts at `i`.
pub open spec fn digit_run(s: Seq<char>, i: int) -> nat
    decreases s.len() - i,
{
    if 0 <= i < s.len() && is_digit(s[i]) {
        1 + digit_run(s, i + 1)
    } else {
        0
    }
}

pub open spec fn valid_int_width(w: nat) -> bool {
    8 <= w <= 256 && w % 8 == 0
}

pub open spec fn valid_bytes_width(w: nat) -> bool {
    1 <= w <= 32
}

/// `uint` or `int` at the start of `s`, `n` characters long, and its required width.
pub open spec fn int_rule(s: Seq<char>, n: nat, signed: bool) -> Result<(BaseType, nat), ParseError> {
    let k = digit_run(s, n as int);
    let w = decimal_value(s.subrange(n as int, (n + k) as int));
    if k > 0 && valid_int_width(w) {
        Ok((if signed { BaseType::Int(w as usize) } else { BaseType::Uint(w as usize) }, n + k))
    } else {
        Err(ParseError::InvalidWidth)
    }
}

/// The base type at the start of `s` and where it ends.
pub open spec fn base_rule(s: Seq<char>) -> Result<(BaseType, nat), ParseError> {
    if has_prefix(s, kw_uint()) {
        int_rule(s, 4, false)
    } else if has_prefix(s, kw_int()) {
        int_rule(s, 3, true)
    } else if has_prefix(s, kw_address()) {
        Ok((BaseType::Address, 7))
    } else if has_prefix(s, kw_bool()) {
        Ok((BaseType::Bool, 4))
    } else if has_prefix(s, kw_string()) {
        Ok((BaseType::String, 6))
    } else if has_prefix(s, kw_tuple()) {
        Ok((BaseType::Tuple, 5))
    } else if has_prefix(s, kw_bytes()) {
        let k = digit_run(s, 5);
        let w = decimal_value(s.subrange(5, (5 + k) as int));
        if k == 0 {
            Ok((BaseType::Bytes, 5))
        } else if valid_bytes_width(w) {
            Ok((BaseType::FixedBytes(w as usize), 5 + k))
        } else {
            Err(ParseError::InvalidWidth)
        }
    } else {
        Err(ParseError::UnknownBaseType)
    }
}

/// The array suffixes from position `i` to the end of `s`, in the order written.
pub open spec fn dims_rule(s: Seq<char>, i: nat) -> Result<Seq<Dim>, ParseError>
    decreases s.len() - i,
{
    if i >= s.len() {
        Ok(seq![])
    } else if s[i as int] != '[' {
        Err(ParseError::TrailingInput)
    } else {
        let k = digit_run(s, (i + 1) as int);
        let j = i + 1 + k;
        let n = decimal_value(s.subrange((i + 1) as int, j as int));
        if j >= s.len() || s[j as int] != ']' {
            Err(ParseError::MalformedArraySuffix)
        } else if k > 0 && (n == 0 || n > usize::MAX) {
            Err(ParseError::MalformedArraySuffix)
        } else {
            let d = if k == 0 { Dim::Dynamic } else { Dim::Fixed(n as usize) };
            match dims_rule(s, j + 1) {
                Ok(rest) => Ok(seq![d] + rest),
                Err(e) => Err(e),
            }
        }
    }
}

/// The grammar of a type string: a base type followed by array suffixes.
pub open spec fn signature_rule(s: Seq<char>) -> Result<(BaseType, Seq<Dim>), ParseError> {
    match base_rule(s) {
        Err(e) => Err(e),
        Ok((b, end)) => match dims_rule(s, end) {
            Ok(ds) => Ok((b, ds)),
            Err(e) => Err(e),
        },
    }
}

fn chars_of(s: &str) -> (r: Vec<char>)
    ensures
        r@ == s@,
{
    let n = s.unicode_len();
    let mut v: Vec<char> = Vec::new();
    let mut i: usize = 0;
    while i < n
        invariant
            n == s@.len(),
            i <= n,
            v@ == s@.subrange(0, i as int),
        decreases n - i,
    {
        v.push(s.get_char(i));
        i = i + 1;
        assert(v@ =~= s@.subrange(0, i as int));
    }
    assert(v@ =~= s@);
    v
}

fn starts_with(s: &Vec<char>, p: Vec<char>) -> (r: bool)
    ensures
        r == has_prefix(s@, p@),
{
    if p.len() > s.len() {
        return false;
    }
    let mut i: usize = 0;
    while i < p.len()
        invariant
            p@.len() <= s@.len(),
            i <= p@.len(),
            forall|j: int| 0 <= j < i ==> s@[j] == p@[j],
        decreases p@.len() - i,
    {
        if s[i] != p[i] {
            return false;
        }
        i = i + 1;
    }
    true
}

/// Reads the digits that start at `i`: how many there are, and their value
/// where it fits in `usize`.
fn read_number(s: &Vec<char>, i: usize) -> (r: (usize, Option<usize>))
    requires
        i <= s@.len(),
    ensures
        r.0 == digit_run(s@, i as int),
        i + r.0 <= s@.len(),
        decimal_value(s@.subrange(i as int, i + r.0)) <= usize::MAX ==> r.1 == Some(
            decimal_value(s@.subrange(i as int, i + r.0)) as usize,
        ),
        decimal_value(s@.subrange(i as int, i + r.0)) > usize::MAX ==> r.1 is None,
{
    let mut j: usize = i;
    let mut v: Option<usize> = Some(0);
    assert(s@.subrange(i as int, i as int) =~= Seq::<char>::empty());
    while j < s.len() && digit_of(s[j]).is_some()
        invariant
            i <= j <= s@.len(),
            digit_run(s@, i as int) == (j - i) + digit_run(s@, j as int),
            v matches Some(x) ==> x == decimal_value(s@.subrange(i as int, j as int)),
            v is None ==> decimal_value(s@.subrange(i as int, j as int)) > usize::MAX,
        decreases s@.len() - j,
    {
        let d = digit_of(s[j]).unwrap();
        let ghost before = decimal_value(s@.subrange(i as int, j as int));
        v = match v {
            Some(x) => match x.checked_mul(10) {
                Some(y) => y.checked_add(d),
                None => None,
            },
            None => None,
        };
        proof {
            assert(s@.subrange(i as int, j + 1).drop_last() =~= s@.subrange(i as int, j as int));
            assert(decimal_value(s@.subrange(i as int, j + 1)) == before * 10 + d);
        }
        j = j + 1;
    }
    (j - i, v)
}

/// `uint<M>` or `int<M>`: the width after a keyword `n` characters long.
fn parse_int(s: &Vec<char>, n: usize, signed: bool) -> (r: Result<(BaseType, usize), ParseError>)
    requires
        n <= s@.len(),
    ensures
        int_rule(s@, n as nat, signed) == match r {
            Ok((b, e)) => Ok((b, e as nat)),
            Err(x) => Err(x),
        },
        r matches Ok((_, e)) ==> e <= s@.len(),
{
    let total = s.len();
    let (k, v) = read_number(s, n);
    if k > 0 {
        if let Some(w) = v {
            if w >= 8 && w <= 256 && w % 8 == 0 {
                let b = if signed { BaseType::Int(w) } else { BaseType::Uint(w) };
                return Ok((b, n + k));
            }
        }
    }
    Err(ParseError::InvalidWidth)
}

fn parse_base(s: &Vec<char>) -> (r: Result<(BaseType, usize), ParseError>)
    ensures
        base_rule(s@) == match r {
            Ok((b, e)) => Ok((b, e as nat)),
            Err(x) => Err(x),
        },
        r matches Ok((_, e)) ==> e <= s@.len(),
{
    if starts_with(s, vec!['u', 'i', 'n', 't']) {
        parse_int(s, 4, false)
    } else if starts_with(s, vec!['i', 'n', 't']) {
        parse_int(s, 3, true)
    } else if starts_with(s, vec!['a', 'd', 'd', 'r', 'e', 's', 's']) {
        Ok((BaseType::Address, 7))
    } else if starts_with(s, vec!['b', 'o', 'o', 'l']) {
        Ok((BaseType::Bool, 4))
    } else if starts_with(s, vec!['s', 't', 'r', 'i', 'n', 'g']) {
        Ok((BaseType::String, 6))
    } else if starts_with(s, vec!['t', 'u', 'p', 'l', 'e']) {
        Ok((BaseType::Tuple, 5))
    } else if starts_with(s, vec!['b', 'y', 't', 'e', 's']) {
        let total = s.len();
        let (k, v) = read_number(s, 5);
        if k == 0 {
            Ok((BaseType::Bytes, 5))
        } else {
            match v {
                Some(w) => if w >= 1 && w <= 32 {
                    Ok((BaseType::FixedBytes(w), 5 + k))
                } else {
                    Err(ParseError::InvalidWidth)
                },
                None => Err(ParseError::InvalidWidth),
            }
        }
    } else {
        Err(ParseError::UnknownBaseType)
    }
}

fn parse_dims(s: &Vec<char>, start: usize) -> (r: Result<Vec<Dim>, ParseError>)
    requires
        start <= s@.len(),
    ensures
        dims_rule(s@, start as nat) == match r {
            Ok(ds) => Ok(ds@),
            Err(x) => Err(x),
        },
{
    let mut acc: Vec<Dim> = Vec::new();
    let mut i: usize = start;
    assert(acc@ + seq![] =~= acc@);
    while i < s.len()
        invariant
            start <= i <= s@.len(),
            dims_rule(s@, start as nat) == match dims_rule(s@, i as nat) {
                Ok(rest) => Ok(acc@ + rest),
                Err(e) => Err(e),
            },
        decreases s@.len() - i,
    {
        if s[i] != '[' {
            return Err(ParseError::TrailingInput);
        }
        let (k, v) = read_number(s, i + 1);
        let j = i + 1 + k;
        if j >= s.len() || s[j] != ']' {
            return Err(ParseError::MalformedArraySuffix);
        }
        let d = if k == 0 {
            Dim::Dynamic
        } else {
            match v {
                Some(n) => {
                    if n == 0 {
                        return Err(ParseError::MalformedArraySuffix);
                    }
                    Dim::Fixed(n)
                },
                None => {
                    return Err(ParseError::MalformedArraySuffix);
                },
            }
        };
        let ghost prev = acc@;
        acc.push(d);
        proof {
            match dims_rule(s@, (j + 1) as nat) {
                Ok(rest) => {
                    assert(prev + (seq![d] + rest) =~= acc@ + rest);
                },
                Err(_) => {},
            }
        }
        i = j + 1;
    }
    assert(acc@ + seq![] =~= acc@);
    Ok(acc)
}

/// Splits a type string into its base type and its array suffixes, in the
/// order written (innermost first).
pub fn parse_signature(text: &str) -> (r: Result<(BaseType, Vec<Dim>), ParseError>)
    ensures
        signature_rule(text@) == match r {
            Ok((b, ds)) => Ok((b, ds@)),
            Err(x) => Err(x),
        },
{
    let s = chars_of(text);
    match parse_base(&s) {
        Err(e) => Err(e),
        Ok((b, end)) => match parse_dims(&s, end) {
            Ok(ds) => Ok((b, ds)),
            Err(e) => Err(e),
        },
    }
}

} // verus!
