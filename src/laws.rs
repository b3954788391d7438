use vstd::prelude::*;
use crate::abi_type::{
    Type, wf, base_of, layers, base_kind, scalar_type, dim_text, type_text, canonical, dynamic,
    shape_eq, fields_canonical, tuple_len,
};
use crate::decimal::{decimal_text, decimal_value, is_digit, lemma_decimal_round_trip};
use crate::descriptor::{
    ParameterDescriptor, parse_failure, components_failure, describes, components_match,
    renders_as,
};
use crate::signature::{
    signature_rule, base_rule, dims_rule, digit_run, kw_uint, kw_int, kw_address, kw_bool,
    kw_bytes, kw_string, kw_tuple, has_prefix, BaseType, Dim, ParseError,
};

verus! {

/// The array suffixes written one after another.
pub open spec fn dims_text(ds: Seq<Dim>) -> Seq<char>
    decreases ds.len(),
{
    if ds.len() == 0 {
        seq![]
    } else {
        dim_text(ds[0]) + dims_text(ds.drop_first())
    }
}

/// Every fixed array length is positive.
pub open spec fn dims_ok(ds: Seq<Dim>) -> bool {
    forall|i: int| 0 <= i < ds.len() ==> (#[trigger] ds[i] matches Dim::Fixed(n) ==> n > 0)
}

proof fn lemma_digit_run_exact(s: Seq<char>, i: int, k: int)
    requires
        0 <= i,
        0 <= k,
        i + k <= s.len(),
        forall|j: int| i <= j < i + k ==> is_digit(#[trigger] s[j]),
        i + k == s.len() || !is_digit(s[i + k]),
    ensures
        digit_run(s, i) == k,
    decreases k,
{
    if k > 0 {
        assert(is_digit(s[i]));
        lemma_digit_run_exact(s, i + 1, k - 1);
    }
}

/// `n` written in base ten at position `i` of `s`, followed by the end of `s`
/// or by `[` or `]`, reads back as `n`.
proof fn lemma_number_at(s: Seq<char>, i: int, n: nat)
    requires
        0 <= i,
        i + decimal_text(n).len() <= s.len(),
        s.subrange(i, i + decimal_text(n).len()) == decimal_text(n),
        i + decimal_text(n).len() == s.len() || s[i + decimal_text(n).len()] == '['
            || s[i + decimal_text(n).len()] == ']',
    ensures
        digit_run(s, i) == decimal_text(n).len(),
        decimal_value(s.subrange(i, i + digit_run(s, i))) == n,
{
    let t = decimal_text(n);
    lemma_decimal_round_trip(n);
    assert forall|j: int| i <= j < i + t.len() implies is_digit(#[trigger] s[j]) by {
        assert(s[j] == s.subrange(i, i + t.len())[j - i]);
    }
    lemma_digit_run_exact(s, i, t.len() as int);
}

proof fn lemma_dims_text_push(ds: Seq<Dim>, d: Dim)
    ensures
        dims_text(ds.push(d)) == dims_text(ds) + dim_text(d),
    decreases ds.len(),
{
    if ds.len() == 0 {
        assert(ds.push(d).drop_first() =~= Seq::<Dim>::empty());
        assert(dims_text(Seq::<Dim>::empty()) == Seq::<char>::empty());
        assert(ds.push(d)[0] == d);
        assert(dims_text(ds.push(d)) =~= dims_text(ds) + dim_text(d));
    } else {
        lemma_dims_text_push(ds.drop_first(), d);
        assert(ds.push(d).drop_first() =~= ds.drop_first().push(d));
        assert(ds.push(d)[0] == ds[0]);
        assert(dims_text(ds.push(d)) =~= dims_text(ds) + dim_text(d));
    }
}

/// A type string is the base type's string followed by the array suffixes.
proof fn lemma_type_text_split(t: Type)
    ensures
        type_text(t) == type_text(base_of(t)) + dims_text(layers(t)),
    decreases t,
{
    match t {
        Type::FixedArray(e, n) => {
            lemma_type_text_split(*e);
            lemma_dims_text_push(layers(*e), Dim::Fixed(n));
            assert(type_text(t) =~= type_text(base_of(t)) + dims_text(layers(t)));
        },
        Type::Array(e) => {
            lemma_type_text_split(*e);
            lemma_dims_text_push(layers(*e), Dim::Dynamic);
            assert(type_text(t) =~= type_text(base_of(t)) + dims_text(layers(t)));
        },
        _ => {
            assert(type_text(t) =~= type_text(base_of(t)) + dims_text(layers(t)));
        },
    }
}

/// What a well-formed type's base and layers are like.
proof fn lemma_layers(t: Type, cs: Seq<ParameterDescriptor>)
    requires
        wf(t),
    ensures
        wf(base_of(t)),
        !(base_of(t) is Array || base_of(t) is FixedArray),
        dims_ok(layers(t)),
        components_match(t, cs) == components_match(base_of(t), cs),
    decreases t,
{
    match t {
        Type::FixedArray(e, n) => {
            lemma_layers(*e, cs);
        },
        Type::Array(e) => {
            lemma_layers(*e, cs);
        },
        _ => {},
    }
}

proof fn lemma_dims(p: Seq<char>, ds: Seq<Dim>)
    requires
        dims_ok(ds),
    ensures
        dims_rule(p + dims_text(ds), p.len()) == Ok::<Seq<Dim>, ParseError>(ds),
    decreases ds.len(),
{
    let s = p + dims_text(ds);
    if ds.len() == 0 {
        assert(ds =~= seq![]);
    } else {
        let d = ds[0];
        let rest = ds.drop_first();
        let q = p + dim_text(d);
        assert(dims_ok(rest)) by {
            assert forall|i: int| 0 <= i < rest.len() implies (#[trigger] rest[i] matches Dim::Fixed(n) ==> n > 0) by {
                assert(rest[i] == ds[i + 1]);
            }
        }
        lemma_dims(q, rest);
        assert(s =~= q + dims_text(rest));
        let i = p.len() as int;
        assert(s[i] == '[');
        match d {
            Dim::Dynamic => {
                assert(s[i + 1] == ']');
                assert(digit_run(s, i + 1) == 0);
                assert(q.len() == i + 2);
            },
            Dim::Fixed(n) => {
                let t = decimal_text(n as nat);
                assert(ds[0] matches Dim::Fixed(m) ==> m > 0);
                assert(s.subrange(i + 1, i + 1 + t.len()) =~= t);
                assert(s[i + 1 + t.len()] == ']');
                lemma_number_at(s, i + 1, n as nat);
                assert(q.len() == i + 2 + t.len());
            },
        }
        assert(seq![d] + rest =~= ds);
    }
}

/// A well-formed base type's string, followed by nothing or by a suffix,
/// reads back as that base type.
proof fn lemma_base(bt: Type, rest: Seq<char>)
    requires
        wf(bt),
        !(bt is Array || bt is FixedArray),
        rest.len() == 0 || rest[0] == '[',
    ensures
        base_rule(type_text(bt) + rest) == Ok::<(BaseType, nat), ParseError>(
            (base_kind(bt), type_text(bt).len()),
        ),
{
    let s = type_text(bt) + rest;
    let t = type_text(bt);
    assert(forall|j: int| 0 <= j < t.len() ==> s[j] == t[j]);
    match bt {
        Type::Uint(w) => {
            let dt = decimal_text(w as nat);
            assert(t == kw_uint() + dt);
            assert(s.subrange(4, 4 + dt.len() as int) =~= dt);
            lemma_number_at(s, 4, w as nat);
            assert(has_prefix(s, kw_uint()));
        },
        Type::Int(w) => {
            let dt = decimal_text(w as nat);
            assert(t == kw_int() + dt);
            assert(s.subrange(3, 3 + dt.len() as int) =~= dt);
            lemma_number_at(s, 3, w as nat);
            assert(s[0] == 'i');
            assert(has_prefix(s, kw_int()));
        },
        Type::FixedBytes(w) => {
            let dt = decimal_text(w as nat);
            assert(t == kw_bytes() + dt);
            assert(s.subrange(5, 5 + dt.len() as int) =~= dt);
            lemma_number_at(s, 5, w as nat);
            assert(s[0] == 'b' && s[1] == 'y');
            assert(has_prefix(s, kw_bytes()));
        },
        Type::Bytes => {
            assert(t == kw_bytes());
            assert(s[0] == 'b' && s[1] == 'y');
            assert(has_prefix(s, kw_bytes()));
            assert(digit_run(s, 5) == 0);
        },
        Type::Address => {
            assert(s[0] == 'a');
            assert(has_prefix(s, kw_address()));
        },
        Type::Bool => {
            assert(s[0] == 'b' && s[1] == 'o');
            assert(has_prefix(s, kw_bool()));
        },
        Type::String => {
            assert(s[0] == 's');
            assert(has_prefix(s, kw_string()));
        },
        Type::Tuple(_) => {
            assert(s[0] == 't');
            assert(has_prefix(s, kw_tuple()));
        },
        _ => {},
    }
}

/// Once every component resolves, no component fails.
proof fn lemma_components_resolve(d: ParameterDescriptor, k: nat)
    requires
        forall|i: int| 0 <= i < d.components@.len() ==> #[trigger] parse_failure(d.components@[i]) is None,
    ensures
        components_failure(d, k) is None,
    decreases d.components@.len() - k,
{
    if k < d.components@.len() {
        assert(parse_failure(d.components@[k as int]) is None);
        lemma_components_resolve(d, k + 1);
    }
}

/// Round trip: writing a well-formed type out as a descriptor and resolving
/// that descriptor gives the same type, field names included. Every tuple in
/// a well-formed type has at least one field.
pub proof fn law_round_trip(t: Type, d: ParameterDescriptor)
    requires
        wf(t),
        renders_as(t, d),
    ensures
        parse_failure(d) is None,
        describes(d, t),
    decreases d,
{
    let bt = base_of(t);
    let cs = d.components@;
    lemma_layers(t, cs);
    lemma_type_text_split(t);
    let rest = dims_text(layers(t));
    if layers(t).len() > 0 {
        assert(rest[0] == '[');
    }
    lemma_base(bt, rest);
    lemma_dims(type_text(bt), layers(t));
    assert(signature_rule(d.ty@) == Ok::<(BaseType, Seq<Dim>), ParseError>(
        (base_kind(bt), layers(t)),
    ));
    match bt {
        Type::Tuple(fs) => {
            assert forall|i: int| 0 <= i < cs.len() implies #[trigger] parse_failure(cs[i]) is None
                && describes(cs[i], fs@[i].1) by {
                assert(wf(fs@[i].1));
                assert(decreases_to!(d => d.components));
                assert(decreases_to!(d.components => d.components@));
                assert(decreases_to!(d.components@ => d.components@[i]));
                law_round_trip(fs@[i].1, cs[i]);
            }
            lemma_components_resolve(d, 0);
            assert forall|i: int| 0 <= i < cs.len() implies {
                &&& (#[trigger] base_of(t)->Tuple_0@[i]).0@ == cs[i].name@
                &&& describes(cs[i], base_of(t)->Tuple_0@[i].1)
            } by {
                assert(parse_failure(cs[i]) is None);
            }
        },
        _ => {
            assert(scalar_type(base_kind(bt)) == bt);
        },
    }
}

/// For a type without tuples, the descriptor's type string is exactly the
/// canonical signature, so that signature alone resolves back to the type.
pub proof fn law_canonical_is_type_string(t: Type)
    requires
        !(base_of(t) is Tuple),
    ensures
        type_text(t) == canonical(t),
    decreases t,
{
    match t {
        Type::FixedArray(e, _) => law_canonical_is_type_string(*e),
        Type::Array(e) => law_canonical_is_type_string(*e),
        _ => {},
    }
}

/// Round trip through the canonical signature alone: for a well-formed type
/// without tuples, a descriptor whose type string is the type's canonical
/// signature, with no components, resolves back to the type.
pub proof fn law_canonical_round_trip(t: Type, d: ParameterDescriptor)
    requires
        wf(t),
        !(base_of(t) is Tuple),
        d.ty@ == canonical(t),
        d.components@.len() == 0,
    ensures
        parse_failure(d) is None,
        describes(d, t),
{
    law_canonical_is_type_string(t);
    lemma_layers(t, d.components@);
    law_round_trip(t, d);
}

/// Field names take no part in the canonical signature nor in whether a
/// type is dynamic: types of the same shape agree on both.
pub proof fn law_names_do_not_matter(a: Type, b: Type)
    requires
        shape_eq(a, b),
    ensures
        canonical(a) == canonical(b),
        dynamic(a) == dynamic(b),
    decreases a, tuple_len(a) + 1,
{
    match (a, b) {
        (Type::FixedArray(e, _), Type::FixedArray(f, _)) => law_names_do_not_matter(*e, *f),
        (Type::Array(e), Type::Array(f)) => law_names_do_not_matter(*e, *f),
        (Type::Tuple(fs), Type::Tuple(gs)) => {
            lemma_fields_agree(a, b, fs@.len());
            assert forall|i: int| 0 <= i < fs@.len() implies dynamic(#[trigger] fs@[i].1)
                == dynamic(gs@[i].1) by {
                assert(decreases_to!(a => a->Tuple_0));
                assert(decreases_to!(fs => fs@));
                assert(decreases_to!(fs@ => fs@[i]));
                law_names_do_not_matter(fs@[i].1, gs@[i].1);
            }
            if dynamic(a) {
                let i = choose|i: int| 0 <= i < fs@.len() && dynamic(#[trigger] fs@[i].1);
                assert(dynamic(gs@[i].1));
            }
            if dynamic(b) {
                let i = choose|i: int| 0 <= i < gs@.len() && dynamic(#[trigger] gs@[i].1);
                assert(dynamic(fs@[i].1));
            }
        },
        _ => {},
    }
}

proof fn lemma_fields_agree(a: Type, b: Type, k: nat)
    requires
        a is Tuple,
        shape_eq(a, b),
        k <= tuple_len(a),
    ensures
        fields_canonical(a, k) == fields_canonical(b, k),
    decreases a, k,
{
    match (a, b) {
        (Type::Tuple(fs), Type::Tuple(gs)) => {
            if k >= 1 {
                assert(shape_eq(fs@[k - 1].1, gs@[k - 1].1));
                assert(decreases_to!(a => a->Tuple_0));
                assert(decreases_to!(fs => fs@));
                assert(decreases_to!(fs@ => fs@[k - 1]));
                law_names_do_not_matter(fs@[k - 1].1, gs@[k - 1].1);
                if k >= 2 {
                    lemma_fields_agree(a, b, (k - 1) as nat);
                }
            }
        },
        _ => {},
    }
}

/// A composite type is dynamic exactly when one of its parts is: an array of
/// unknown length always, a fixed array when its element is, a tuple when
/// one of its fields is.
pub proof fn law_dynamic_composite(t: Type)
    ensures
        t matches Type::FixedArray(e, _) ==> (dynamic(t) == dynamic(*e)),
        t is Array ==> dynamic(t),
        t matches Type::Tuple(fs) ==> (dynamic(t) <==> exists|i: int|
            0 <= i < fs@.len() && dynamic(#[trigger] fs@[i].1)),
{
}

} // verus!
