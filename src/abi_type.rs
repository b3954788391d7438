use vstd::prelude::*;
use crate::decimal::{decimal_text, push_decimal};
use crate::signature::{
    valid_int_width, valid_bytes_width, kw_uint, kw_int, kw_address, kw_bool, kw_bytes,
    kw_string, kw_tuple, BaseType, Dim,
};

verus! {

/// An ABI type: a scalar, a byte string, an array or a tuple of named fields.
#[derive(Debug, PartialEq, Eq)]
pub enum Type {
    /// Unsigned integer `uint<M>`.
    Uint(usize),
    /// Signed integer `int<M>`.
    Int(usize),
    /// `address`.
    Address,
    /// `bool`.
    Bool,
    /// Fixed-size byte string `bytes<M>`.
    FixedBytes(usize),
    /// Fixed-size array `T[k]`.
    FixedArray(Box<Type>, usize),
    /// UTF-8 text `string`.
    String,
    /// Dynamic byte string `bytes`.
    Bytes,
    /// Dynamic array `T[]`.
    Array(Box<Type>),
    /// Tuple of named fields, in declaration order.
    Tuple(Vec<(String, Type)>),
}

/// Whether a type is dynamically sized.
pub open spec fn dynamic(t: Type) -> bool
    decreases t,
{
    match t {
        Type::FixedArray(e, _) => dynamic(*e),
        Type::String | Type::Bytes | Type::Array(_) => true,
        Type::Tuple(fs) => exists|i: int| 0 <= i < fs@.len() && dynamic(#[trigger] fs@[i].1),
        _ => false,
    }
}

/// `a` and `b` are the same type once field names are left out: the same
/// variants, parameters and field order all the way down.
pub open spec fn shape_eq(a: Type, b: Type) -> bool
    decreases a,
{
    match (a, b) {
        (Type::FixedArray(e, n), Type::FixedArray(f, m)) => n == m && shape_eq(*e, *f),
        (Type::Array(e), Type::Array(f)) => shape_eq(*e, *f),
        (Type::Tuple(fs), Type::Tuple(gs)) => {
            &&& fs@.len() == gs@.len()
            &&& forall|i: int| 0 <= i < fs@.len() ==> shape_eq(#[trigger] fs@[i].1, gs@[i].1)
        },
        _ => a == b,
    }
}

/// Every width, length and tuple in the tree is one that the grammar allows.
pub open spec fn wf(t: Type) -> bool
    decreases t,
{
    match t {
        Type::Uint(w) => valid_int_width(w as nat),
        Type::Int(w) => valid_int_width(w as nat),
        Type::FixedBytes(w) => valid_bytes_width(w as nat),
        Type::FixedArray(e, n) => n > 0 && wf(*e),
        Type::Array(e) => wf(*e),
        Type::Tuple(fs) => fs@.len() > 0 && forall|i: int| 0 <= i < fs@.len() ==> wf(#[trigger] fs@[i].1),
        _ => true,
    }
}

/// The type under all array layers.
pub open spec fn base_of(t: Type) -> Type
    decreases t,
{
    match t {
        Type::FixedArray(e, _) => base_of(*e),
        Type::Array(e) => base_of(*e),
        _ => t,
    }
}

/// The array layers around the base type, innermost first.
pub open spec fn layers(t: Type) -> Seq<Dim>
    decreases t,
{
    match t {
        Type::FixedArray(e, n) => layers(*e).push(Dim::Fixed(n)),
        Type::Array(e) => layers(*e).push(Dim::Dynamic),
        _ => seq![],
    }
}

/// The type that a keyword other than `tuple` stands for. A tuple's type
/// comes from its components, so the value given for `tuple` is never read.
pub open spec fn scalar_type(b: BaseType) -> Type {
    match b {
        BaseType::Uint(w) => Type::Uint(w),
        BaseType::Int(w) => Type::Int(w),
        BaseType::Address => Type::Address,
        BaseType::Bool => Type::Bool,
        BaseType::FixedBytes(w) => Type::FixedBytes(w),
        BaseType::Bytes => Type::Bytes,
        BaseType::String => Type::String,
        BaseType::Tuple => Type::Bool,
    }
}

/// The keyword of a base type.
pub open spec fn base_kind(t: Type) -> BaseType {
    match t {
        Type::Uint(w) => BaseType::Uint(w),
        Type::Int(w) => BaseType::Int(w),
        Type::Address => BaseType::Address,
        Type::Bool => BaseType::Bool,
        Type::FixedBytes(w) => BaseType::FixedBytes(w),
        Type::Bytes => BaseType::Bytes,
        Type::String => BaseType::String,
        _ => BaseType::Tuple,
    }
}

pub open spec fn dim_text(d: Dim) -> Seq<char> {
    match d {
        Dim::Dynamic => seq!['[', ']'],
        Dim::Fixed(n) => seq!['['] + decimal_text(n as nat) + seq![']'],
    }
}

pub open spec fn tuple_len(t: Type) -> nat {
    match t {
        Type::Tuple(fs) => fs@.len(),
        _ => 0,
    }
}

/// The canonical signature: field names left out, tuples in parentheses.
pub open spec fn canonical(t: Type) -> Seq<char>
    decreases t, tuple_len(t) + 1,
{
    match t {
        Type::Uint(w) => kw_uint() + decimal_text(w as nat),
        Type::Int(w) => kw_int() + decimal_text(w as nat),
        Type::Address => kw_address(),
        Type::Bool => kw_bool(),
        Type::FixedBytes(w) => kw_bytes() + decimal_text(w as nat),
        Type::FixedArray(e, n) => canonical(*e) + dim_text(Dim::Fixed(n)),
        Type::String => kw_string(),
        Type::Bytes => kw_bytes(),
        Type::Array(e) => canonical(*e) + dim_text(Dim::Dynamic),
        Type::Tuple(fs) => seq!['('] + fields_canonical(t, fs@.len()) + seq![')'],
    }
}

/// The signatures of the first `k` fields of a tuple, separated by commas.
pub open spec fn fields_canonical(t: Type, k: nat) -> Seq<char>
    decreases t, k,
{
    match t {
        Type::Tuple(fs) => {
            if k == 0 || k > fs@.len() {
                seq![]
            } else if k == 1 {
                canonical(fs@[0].1)
            } else {
                fields_canonical(t, (k - 1) as nat) + seq![','] + canonical(fs@[k - 1].1)
            }
        },
        _ => seq![],
    }
}

/// The type string of a descriptor for `t`: like the canonical signature,
/// with the keyword `tuple` in place of a parenthesised tuple.
pub open spec fn type_text(t: Type) -> Seq<char>
    decreases t,
{
    match t {
        Type::FixedArray(e, n) => type_text(*e) + dim_text(Dim::Fixed(n)),
        Type::Array(e) => type_text(*e) + dim_text(Dim::Dynamic),
        Type::Tuple(_) => kw_tuple(),
        _ => canonical(t),
    }
}

/// Wraps `base` in array layers, the first of `dims` innermost.
pub fn wrap(base: Type, dims: Vec<Dim>) -> (t: Type)
    requires
        !(base is Array || base is FixedArray),
    ensures
        base_of(t) == base,
        layers(t) == dims@,
{
    let mut t = base;
    let mut i: usize = 0;
    assert(dims@.subrange(0, 0) =~= Seq::<Dim>::empty());
    while i < dims.len()
        invariant
            i <= dims@.len(),
            !(base is Array || base is FixedArray),
            base_of(t) == base,
            layers(t) == dims@.subrange(0, i as int),
        decreases dims@.len() - i,
    {
        t = match dims[i] {
            Dim::Dynamic => Type::Array(Box::new(t)),
            Dim::Fixed(n) => Type::FixedArray(Box::new(t), n),
        };
        i = i + 1;
        assert(layers(t) =~= dims@.subrange(0, i as int));
    }
    assert(dims@.subrange(0, i as int) =~= dims@);
    t
}

impl Type {
    /// Whether values of this type have a size that is not fixed.
    pub fn is_dynamic(&self) -> (r: bool)
        ensures
            r == dynamic(*self),
        decreases self,
    {
        match self {
            Type::FixedArray(e, _) => e.is_dynamic(),
            Type::String | Type::Bytes | Type::Array(_) => true,
            Type::Tuple(fs) => {
                let mut i: usize = 0;
                while i < fs.len()
                    invariant
                        *self == Type::Tuple(*fs),
                        i <= fs@.len(),
                        forall|j: int| 0 <= j < i ==> !dynamic(#[trigger] fs@[j].1),
                    decreases fs@.len() - i,
                {
                    proof {
                        assert(decreases_to!(*self => (*self)->Tuple_0));
                        assert(decreases_to!(*fs => fs@));
                        assert(decreases_to!(fs@ => fs@[i as int]));
                    }
                    if fs[i].1.is_dynamic() {
                        assert(dynamic(fs@[i as int].1));
                        assert(dynamic(*self));
                        return true;
                    }
                    i = i + 1;
                }
                false
            },
            _ => false,
        }
    }

    /// Whether `other` is the same type as this one, field names aside.
    pub fn same_shape(&self, other: &Type) -> (r: bool)
        ensures
            r == shape_eq(*self, *other),
        decreases self,
    {
        match (self, other) {
            (Type::Uint(x), Type::Uint(y)) => *x == *y,
            (Type::Int(x), Type::Int(y)) => *x == *y,
            (Type::Address, Type::Address) => true,
            (Type::Bool, Type::Bool) => true,
            (Type::FixedBytes(x), Type::FixedBytes(y)) => *x == *y,
            (Type::FixedArray(e, n), Type::FixedArray(f, m)) => *n == *m && e.same_shape(f),
            (Type::String, Type::String) => true,
            (Type::Bytes, Type::Bytes) => true,
            (Type::Array(e), Type::Array(f)) => e.same_shape(f),
            (Type::Tuple(fs), Type::Tuple(gs)) => {
                if fs.len() != gs.len() {
                    return false;
                }
                let mut i: usize = 0;
                while i < fs.len()
                    invariant
                        *self == Type::Tuple(*fs),
                        *other == Type::Tuple(*gs),
                        fs@.len() == gs@.len(),
                        i <= fs@.len(),
                        forall|j: int| 0 <= j < i ==> shape_eq(#[trigger] fs@[j].1, gs@[j].1),
                    decreases fs@.len() - i,
                {
                    proof {
                        assert(decreases_to!(*self => (*self)->Tuple_0));
                        assert(decreases_to!(*fs => fs@));
                        assert(decreases_to!(fs@ => fs@[i as int]));
                    }
                    if !fs[i].1.same_shape(&gs[i].1) {
                        return false;
                    }
                    i = i + 1;
                }
                true
            },
            _ => false,
        }
    }

    /// The canonical signature, such as `(uint256,bool)[2]`.
    pub fn render_canonical(&self) -> (r: String)
        ensures
            r@ == canonical(*self),
    {
        let mut out = String::new();
        self.render_into(&mut out);
        assert(out@ =~= canonical(*self));
        out
    }

    /// Appends the canonical signature to `out`.
    fn render_into(&self, out: &mut String)
        ensures
            final(out)@ == old(out)@ + canonical(*self),
        decreases self,
    {
        proof {
            reveal_strlit("uint");
            reveal_strlit("int");
            reveal_strlit("address");
            reveal_strlit("bool");
            reveal_strlit("bytes");
            reveal_strlit("string");
            reveal_strlit("[");
            reveal_strlit("]");
            reveal_strlit("[]");
            reveal_strlit("(");
            reveal_strlit(")");
            reveal_strlit(",");
        }
        let ghost start = out@;
        match self {
            Type::Uint(w) => {
                out.append("uint");
                push_decimal(out, *w);
            },
            Type::Int(w) => {
                out.append("int");
                push_decimal(out, *w);
            },
            Type::Address => out.append("address"),
            Type::Bool => out.append("bool"),
            Type::FixedBytes(w) => {
                out.append("bytes");
                push_decimal(out, *w);
            },
            Type::FixedArray(e, n) => {
                e.render_into(out);
                out.append("[");
                push_decimal(out, *n);
                out.append("]");
            },
            Type::String => out.append("string"),
            Type::Bytes => out.append("bytes"),
            Type::Array(e) => {
                e.render_into(out);
                out.append("[]");
            },
            Type::Tuple(fs) => {
                out.append("(");
                let mut i: usize = 0;
                while i < fs.len()
                    invariant
                        *self == Type::Tuple(*fs),
                        i <= fs@.len(),
                        out@ == start + seq!['('] + fields_canonical(*self, i as nat),
                    decreases fs@.len() - i,
                {
                    let ghost before = out@;
                    proof {
                        reveal_strlit(",");
                    }
                    if i > 0 {
                        out.append(",");
                    }
                    let ghost mid = out@;
                    assert(i > 0 ==> mid == before + seq![',']);
                    assert(i == 0 ==> mid == before);
                    proof {
                        assert(decreases_to!(*self => (*self)->Tuple_0));
                        assert(decreases_to!(*fs => fs@));
                        assert(decreases_to!(fs@ => fs@[i as int]));
                    }
                    fs[i].1.render_into(out);
                    proof {
                        let prev = fields_canonical(*self, i as nat);
                        let next = fields_canonical(*self, (i + 1) as nat);
                        if i == 0 {
                            assert(prev =~= Seq::<char>::empty());
                            assert(next == canonical(fs@[0].1));
                        } else {
                            assert(next == prev + seq![','] + canonical(fs@[i as int].1));
                        }
                        assert(out@ == mid + canonical(fs@[i as int].1));
                        assert(out@ =~= start + seq!['('] + next);
                    }
                    i = i + 1;
                }
                out.append(")");
            },
        }
        assert(out@ =~= start + canonical(*self));
    }
}

} // verus!
