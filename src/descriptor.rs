use vstd::prelude::*;
use crate::abi_type::{Type, base_of, layers, scalar_type, type_text, wrap};
use crate::decimal::push_decimal;
use crate::signature::{signature_rule, parse_signature, BaseType, Dim, ParseError};

verus! {

/// A parameter as an ABI listing gives it: a name, a type string, the
/// components of a tuple base type, and an optional `indexed` flag.
#[derive(Debug)]
pub struct ParameterDescriptor {
    pub name: String,
    pub ty: String,
    pub components: Vec<ParameterDescriptor>,
    pub indexed: Option<bool>,
}

/// Why `d` does not describe a type, or `None` where it does.
pub open spec fn parse_failure(d: ParameterDescriptor) -> Option<ParseError>
    decreases d, d.components@.len() + 1,
{
    match signature_rule(d.ty@) {
        Err(e) => Some(e),
        Ok((b, _)) => {
            if b is Tuple {
                if d.components@.len() == 0 {
                    Some(ParseError::MissingComponents)
                } else {
                    components_failure(d, 0)
                }
            } else if d.components@.len() > 0 {
                Some(ParseError::UnexpectedComponents)
            } else {
                None
            }
        },
    }
}

/// The failure of the first component from index `k` on that fails, with its index.
pub open spec fn components_failure(d: ParameterDescriptor, k: nat) -> Option<ParseError>
    decreases d, d.components@.len() - k,
{
    if k >= d.components@.len() {
        None
    } else {
        match parse_failure(d.components@[k as int]) {
            Some(e) => Some(ParseError::NestedFailure(k as usize, Box::new(e))),
            None => components_failure(d, k + 1),
        }
    }
}

/// `t` is the type that `d` describes: its type string gives the base type
/// and the array layers of `t`, and for a tuple each component describes the
/// field at its index and gives the field its name.
pub open spec fn describes(d: ParameterDescriptor, t: Type) -> bool
    decreases d,
{
    match signature_rule(d.ty@) {
        Err(_) => false,
        Ok((b, dims)) => {
            &&& layers(t) == dims
            &&& if b is Tuple {
                &&& base_of(t) is Tuple
                &&& d.components@.len() == base_of(t)->Tuple_0@.len()
                &&& forall|i: int|
                    0 <= i < d.components@.len() ==> {
                        &&& (#[trigger] base_of(t)->Tuple_0@[i]).0@ == d.components@[i].name@
                        &&& describes(d.components@[i], base_of(t)->Tuple_0@[i].1)
                    }
            } else {
                &&& d.components@.len() == 0
                &&& base_of(t) == scalar_type(b)
            }
        },
    }
}

/// The components `cs` of a descriptor match the tuple at the base of `t`,
/// field by field, names included.
pub open spec fn components_match(t: Type, cs: Seq<ParameterDescriptor>) -> bool
    decreases t,
{
    match t {
        Type::FixedArray(e, _) => components_match(*e, cs),
        Type::Array(e) => components_match(*e, cs),
        Type::Tuple(fs) => {
            &&& cs.len() == fs@.len()
            &&& forall|i: int|
                0 <= i < fs@.len() ==> {
                    &&& cs[i].name@ == (#[trigger] fs@[i]).0@
                    &&& cs[i].ty@ == type_text(fs@[i].1)
                    &&& components_match(fs@[i].1, cs[i].components@)
                }
        },
        _ => cs.len() == 0,
    }
}

/// `d` is the descriptor that writes `t` back out.
pub open spec fn renders_as(t: Type, d: ParameterDescriptor) -> bool {
    d.ty@ == type_text(t) && components_match(t, d.components@)
}

fn scalar_of(b: BaseType) -> (t: Type)
    requires
        !(b is Tuple),
    ensures
        t == scalar_type(b),
{
    match b {
        BaseType::Uint(w) => Type::Uint(w),
        BaseType::Int(w) => Type::Int(w),
        BaseType::Address => Type::Address,
        BaseType::Bool => Type::Bool,
        BaseType::FixedBytes(w) => Type::FixedBytes(w),
        BaseType::Bytes => Type::Bytes,
        BaseType::String => Type::String,
        BaseType::Tuple => Type::Bool,
    }
}

/// Resolves a descriptor into a type, recursing into the components of a
/// tuple. Fails on the first grammar violation found, with no partial result.
pub fn parse(d: &ParameterDescriptor) -> (r: Result<Type, ParseError>)
    ensures
        match r {
            Ok(t) => parse_failure(*d) is None && describes(*d, t),
            Err(e) => parse_failure(*d) == Some(e),
        },
    decreases d,
{
    match parse_signature(d.ty.as_str()) {
        Err(e) => Err(e),
        Ok((b, dims)) => {
            let base = match b {
                BaseType::Tuple => {
                    if d.components.len() == 0 {
                        return Err(ParseError::MissingComponents);
                    }
                    let mut fs: Vec<(String, Type)> = Vec::new();
                    let mut i: usize = 0;
                    while i < d.components.len()
                        invariant
                            signature_rule(d.ty@) == Ok::<(BaseType, Seq<Dim>), ParseError>((b, dims@)),
                            b is Tuple,
                            d.components@.len() > 0,
                            i <= d.components@.len(),
                            fs@.len() == i,
                            components_failure(*d, 0) == components_failure(*d, i as nat),
                            forall|j: int|
                                0 <= j < i ==> {
                                    &&& (#[trigger] fs@[j]).0@ == d.components@[j].name@
                                    &&& describes(d.components@[j], fs@[j].1)
                                },
                        decreases d.components@.len() - i,
                    {
                        proof {
                            assert(decreases_to!(*d => d.components));
                            assert(decreases_to!(d.components => d.components@));
                            assert(decreases_to!(d.components@ => d.components@[i as int]));
                        }
                        match parse(&d.components[i]) {
                            Ok(t) => {
                                fs.push((d.components[i].name.clone(), t));
                            },
                            Err(e) => {
                                return Err(ParseError::NestedFailure(i, Box::new(e)));
                            },
                        }
                        i = i + 1;
                    }
                    Type::Tuple(fs)
                },
                _ => {
                    if d.components.len() > 0 {
                        return Err(ParseError::UnexpectedComponents);
                    }
                    scalar_of(b)
                },
            };
            Ok(wrap(base, dims))
        },
    }
}

impl Type {
    /// A descriptor that describes this type: its type string, and the
    /// components of a tuple base type with the fields' names.
    pub fn to_descriptor(&self) -> (d: ParameterDescriptor)
        ensures
            renders_as(*self, d),
        decreases self,
    {
        proof {
            reveal_strlit("[");
            reveal_strlit("]");
            reveal_strlit("[]");
            reveal_strlit("tuple");
        }
        match self {
            Type::FixedArray(e, n) => {
                let inner = e.to_descriptor();
                let ghost cs = inner.components@;
                assert(components_match(*self, cs));
                let mut ty = inner.ty;
                ty.append("[");
                push_decimal(&mut ty, *n);
                ty.append("]");
                assert(ty@ =~= type_text(*self));
                let r = ParameterDescriptor {
                    name: inner.name,
                    ty,
                    components: inner.components,
                    indexed: None,
                };
                assert(renders_as(*self, r));
                r
            },
            Type::Array(e) => {
                let inner = e.to_descriptor();
                let ghost cs = inner.components@;
                assert(components_match(*self, cs));
                let mut ty = inner.ty;
                ty.append("[]");
                assert(ty@ =~= type_text(*self));
                ParameterDescriptor {
                    name: inner.name,
                    ty,
                    components: inner.components,
                    indexed: None,
                }
            },
            Type::Tuple(fs) => {
                let mut cs: Vec<ParameterDescriptor> = Vec::new();
                let mut i: usize = 0;
                while i < fs.len()
                    invariant
                        *self == Type::Tuple(*fs),
                        i <= fs@.len(),
                        cs@.len() == i,
                        forall|j: int|
                            0 <= j < i ==> {
                                &&& cs@[j].name@ == (#[trigger] fs@[j]).0@
                                &&& cs@[j].ty@ == type_text(fs@[j].1)
                                &&& components_match(fs@[j].1, cs@[j].components@)
                            },
                    decreases fs@.len() - i,
                {
                    proof {
                        assert(decreases_to!(*self => (*self)->Tuple_0));
                        assert(decreases_to!(*fs => fs@));
                        assert(decreases_to!(fs@ => fs@[i as int]));
                    }
                    let f = fs[i].1.to_descriptor();
                    cs.push(ParameterDescriptor {
                        name: fs[i].0.clone(),
                        ty: f.ty,
                        components: f.components,
                        indexed: None,
                    });
                    i = i + 1;
                }
                proof {
                    reveal_strlit("tuple");
                }
                let r = ParameterDescriptor {
                    name: String::new(),
                    ty: String::from_str("tuple"),
                    components: cs,
                    indexed: None,
                };
                assert(r.ty@ =~= type_text(*self));
                assert(renders_as(*self, r));
                r
            },
            _ => {
                let r = ParameterDescriptor {
                    name: String::new(),
                    ty: self.render_canonical(),
                    components: Vec::new(),
                    indexed: None,
                };
                assert(renders_as(*self, r));
                r
            },
        }
    }
}

} // verus!
