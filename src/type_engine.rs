//! The type engine: an append-only arena of type shapes behind opaque handles.
use vstd::prelude::*;

use crate::span::{Ident, Span};

verus! {

/// A handle to a type shape stored in a [`TypeEngine`].
#[derive(Clone, Copy, Debug, PartialEq, Eq, Structural, Hash)]
pub struct TypeId(pub usize);

#[derive(Clone, Copy, Debug, PartialEq, Eq, Structural)]
pub enum IntegerBits {
    Eight,
    Sixteen,
    ThirtyTwo,
    SixtyFour,
}

/// A path such as `a::b::c`: the prefixes `a`, `b` and the suffix `c`.
#[derive(Clone, Debug)]
pub struct CallPath {
    pub prefixes: Vec<String>,
    pub suffix: String,
}

/// The ABI that a contract caller is bound to.
#[derive(Clone, Debug)]
pub enum AbiName {
    Deferred,
    Known(CallPath),
}

/// A use of a type, with the place it was written.
#[derive(Clone, Copy, Debug)]
pub struct TypeArgument {
    pub type_id: TypeId,
    pub span: Span,
}

#[derive(Clone, Debug)]
pub struct TyStructField {
    pub name: Ident,
    pub type_id: TypeId,
    pub span: Span,
}

#[derive(Clone, Debug)]
pub struct TyEnumVariant {
    pub name: Ident,
    pub type_id: TypeId,
    pub tag: usize,
    pub span: Span,
}

/// The shape of a type, as the type engine stores it.
#[derive(Clone, Debug)]
pub enum TypeInfo {
    Unknown,
    UnknownGeneric { name: Ident },
    Str(u64),
    UnsignedInteger(IntegerBits),
    Enum { name: Ident, variant_types: Vec<TyEnumVariant> },
    Struct { name: Ident, fields: Vec<TyStructField> },
    Boolean,
    /// Stands for the type behind another handle.
    Ref(TypeId),
    Tuple(Vec<TypeArgument>),
    ContractCaller { abi_name: AbiName, address: String },
    Custom { name: Ident, type_arguments: Vec<TypeArgument> },
    SelfType,
    Byte,
    B256,
    Numeric,
    Contract,
    ErrorRecovery,
    Array(TypeId, usize),
    Storage { fields: Vec<TyStructField> },
}

impl Default for TypeInfo {
    /// A type about which nothing is known yet.
    fn default() -> (r: TypeInfo)
        ensures
            r == TypeInfo::Unknown,
    {
        TypeInfo::Unknown
    }
}

// ---------------------------------------------------------------------------
// Mathematical model
// ---------------------------------------------------------------------------

pub open spec fn args_below(args: Seq<TypeArgument>, n: nat) -> bool {
    forall|i: int| 0 <= i < args.len() ==> (#[trigger] args[i]).type_id.0 < n
}

pub open spec fn fields_below(fields: Seq<TyStructField>, n: nat) -> bool {
    forall|i: int| 0 <= i < fields.len() ==> (#[trigger] fields[i]).type_id.0 < n
}

pub open spec fn variants_below(vs: Seq<TyEnumVariant>, n: nat) -> bool {
    forall|i: int| 0 <= i < vs.len() ==> (#[trigger] vs[i]).type_id.0 < n
}

/// Every handle inside `t` names a shape among the first `n` of the arena.
pub open spec fn shape_below(t: TypeInfo, n: nat) -> bool {
    match t {
        TypeInfo::Ref(id) => id.0 < n,
        TypeInfo::Array(id, _) => id.0 < n,
        TypeInfo::Tuple(args) => args_below(args@, n),
        TypeInfo::Custom { type_arguments, .. } => args_below(type_arguments@, n),
        TypeInfo::Struct { fields, .. } => fields_below(fields@, n),
        TypeInfo::Storage { fields } => fields_below(fields@, n),
        TypeInfo::Enum { variant_types, .. } => variants_below(variant_types@, n),
        _ => true,
    }
}

/// An arena is well formed when each shape refers only to shapes inserted
/// before it; this keeps chains of `Ref` and nested types finite.
pub open spec fn arena_wf(types: Seq<TypeInfo>) -> bool {
    forall|j: int| 0 <= j < types.len() ==> shape_below(#[trigger] types[j], j as nat)
}

/// The handle reached from `id` by following `Ref` links.
pub open spec fn resolve(types: Seq<TypeInfo>, id: nat) -> nat
    decreases id,
{
    if id < types.len() {
        match types[id as int] {
            TypeInfo::Ref(t) => if (t.0 as nat) < id {
                resolve(types, t.0 as nat)
            } else {
                id
            },
            _ => id,
        }
    } else {
        id
    }
}

pub open spec fn call_path_eq(l: CallPath, r: CallPath) -> bool {
    &&& l.prefixes@.len() == r.prefixes@.len()
    &&& forall|i: int| 0 <= i < l.prefixes@.len() ==> (#[trigger] l.prefixes@[i])@ == r.prefixes@[i]@
    &&& l.suffix@ == r.suffix@
}

pub open spec fn abi_name_eq(l: AbiName, r: AbiName) -> bool {
    match (l, r) {
        (AbiName::Deferred, AbiName::Deferred) => true,
        (AbiName::Known(a), AbiName::Known(b)) => call_path_eq(a, b),
        _ => false,
    }
}

/// Structural equality of the types behind two handles: both are first
/// dereferenced, then compared shape by shape, nested types again by
/// structural equality, never by handle.
pub open spec fn type_eq(types: Seq<TypeInfo>, a: nat, b: nat) -> bool
    decreases a + b,
{
    let ra = resolve(types, a);
    let rb = resolve(types, b);
    if ra < types.len() && rb < types.len() && ra <= a && rb <= b {
        match (types[ra as int], types[rb as int]) {
            (TypeInfo::Unknown, TypeInfo::Unknown) => true,
            (TypeInfo::Boolean, TypeInfo::Boolean) => true,
            (TypeInfo::SelfType, TypeInfo::SelfType) => true,
            (TypeInfo::Byte, TypeInfo::Byte) => true,
            (TypeInfo::B256, TypeInfo::B256) => true,
            (TypeInfo::Numeric, TypeInfo::Numeric) => true,
            (TypeInfo::Contract, TypeInfo::Contract) => true,
            (TypeInfo::ErrorRecovery, TypeInfo::ErrorRecovery) => true,
            (TypeInfo::UnknownGeneric { name: l }, TypeInfo::UnknownGeneric { name: r }) => l.name@
                == r.name@,
            (
                TypeInfo::Custom { name: ln, type_arguments: la },
                TypeInfo::Custom { name: rn, type_arguments: rargs },
            ) => {
                &&& ln.name@ == rn.name@
                &&& la@.len() == rargs@.len()
                &&& forall|i: int|
                    0 <= i < la@.len() ==> {
                        &&& (la@[i].type_id.0 as nat) < ra
                        &&& (rargs@[i].type_id.0 as nat) < rb
                        &&& type_eq(
                            types,
                            #[trigger] la@[i].type_id.0 as nat,
                            rargs@[i].type_id.0 as nat,
                        )
                    }
            },
            (TypeInfo::Str(l), TypeInfo::Str(r)) => l == r,
            (TypeInfo::UnsignedInteger(l), TypeInfo::UnsignedInteger(r)) => l == r,
            (
                TypeInfo::Enum { name: ln, variant_types: lv },
                TypeInfo::Enum { name: rn, variant_types: rv },
            ) => {
                &&& ln.name@ == rn.name@
                &&& lv@.len() == rv@.len()
                &&& forall|i: int|
                    0 <= i < lv@.len() ==> {
                        &&& lv@[i].name.name@ == rv@[i].name.name@
                        &&& lv@[i].tag == rv@[i].tag
                        &&& (lv@[i].type_id.0 as nat) < ra
                        &&& (rv@[i].type_id.0 as nat) < rb
                        &&& type_eq(
                            types,
                            #[trigger] lv@[i].type_id.0 as nat,
                            rv@[i].type_id.0 as nat,
                        )
                    }
            },
            (TypeInfo::Struct { name: ln, fields: lf }, TypeInfo::Struct { name: rn, fields: rf }) => {
                &&& ln.name@ == rn.name@
                &&& lf@.len() == rf@.len()
                &&& forall|i: int|
                    0 <= i < lf@.len() ==> {
                        &&& lf@[i].name.name@ == rf@[i].name.name@
                        &&& (lf@[i].type_id.0 as nat) < ra
                        &&& (rf@[i].type_id.0 as nat) < rb
                        &&& type_eq(
                            types,
                            #[trigger] lf@[i].type_id.0 as nat,
                            rf@[i].type_id.0 as nat,
                        )
                    }
            },
            (TypeInfo::Tuple(l), TypeInfo::Tuple(r)) => {
                &&& l@.len() == r@.len()
                &&& forall|i: int|
                    0 <= i < l@.len() ==> {
                        &&& (l@[i].type_id.0 as nat) < ra
                        &&& (r@[i].type_id.0 as nat) < rb
                        &&& type_eq(
                            types,
                            #[trigger] l@[i].type_id.0 as nat,
                            r@[i].type_id.0 as nat,
                        )
                    }
            },
            (
                TypeInfo::ContractCaller { abi_name: la, address: ladr },
                TypeInfo::ContractCaller { abi_name: rabi, address: radr },
            ) => abi_name_eq(la, rabi) && ladr@ == radr@,
            (TypeInfo::Array(l0, l1), TypeInfo::Array(r0, r1)) => {
                &&& l1 == r1
                &&& (l0.0 as nat) < ra
                &&& (r0.0 as nat) < rb
                &&& type_eq(types, l0.0 as nat, r0.0 as nat)
            },
            (TypeInfo::Storage { fields: lf }, TypeInfo::Storage { fields: rf }) => {
                &&& lf@.len() == rf@.len()
                &&& forall|i: int|
                    0 <= i < lf@.len() ==> {
                        &&& lf@[i].name.name@ == rf@[i].name.name@
                        &&& (lf@[i].type_id.0 as nat) < ra
                        &&& (rf@[i].type_id.0 as nat) < rb
                        &&& type_eq(
                            types,
                            #[trigger] lf@[i].type_id.0 as nat,
                            rf@[i].type_id.0 as nat,
                        )
                    }
            },
            _ => false,
        }
    } else {
        false
    }
}


// ---------------------------------------------------------------------------
// Hashing model
// ---------------------------------------------------------------------------

pub open spec fn mix(h: u64, x: u64) -> u64 {
    ((h as int * 31 + x as int) % 0x1_0000_0000_0000_0000) as u64
}

pub open spec fn str_hash(s: Seq<char>) -> u64
    decreases s.len(),
{
    if s.len() == 0 {
        0
    } else {
        mix(str_hash(s.drop_last()), s.last() as u32 as u64)
    }
}

pub open spec fn strings_hash(ss: Seq<String>) -> u64
    decreases ss.len(),
{
    if ss.len() == 0 {
        0
    } else {
        mix(strings_hash(ss.drop_last()), str_hash(ss.last()@))
    }
}

pub open spec fn abi_name_hash(a: AbiName) -> u64 {
    match a {
        AbiName::Deferred => 0,
        AbiName::Known(cp) => mix(mix(1, strings_hash(cp.prefixes@)), str_hash(cp.suffix@)),
    }
}

pub open spec fn bits_code(b: IntegerBits) -> u64 {
    match b {
        IntegerBits::Eight => 8,
        IntegerBits::Sixteen => 16,
        IntegerBits::ThirtyTwo => 32,
        IntegerBits::SixtyFour => 64,
    }
}

/// The hash of one shape's own parts: a fixed tag for its variant mixed
/// with its names and sizes. Shapes that hold other types get the hashes
/// of those from [`type_hash`].
pub open spec fn shape_hash(t: TypeInfo) -> u64 {
    match t {
        TypeInfo::Str(len) => mix(1, len),
        TypeInfo::UnsignedInteger(bits) => mix(2, bits_code(bits)),
        TypeInfo::Numeric => 3,
        TypeInfo::Boolean => 4,
        TypeInfo::Tuple(_) => 5,
        TypeInfo::Byte => 6,
        TypeInfo::B256 => 7,
        TypeInfo::Enum { .. } => 8,
        TypeInfo::Struct { .. } => 9,
        TypeInfo::ContractCaller { abi_name, address } => mix(
            mix(10, abi_name_hash(abi_name)),
            str_hash(address@),
        ),
        TypeInfo::Contract => 11,
        TypeInfo::ErrorRecovery => 12,
        TypeInfo::Unknown => 13,
        TypeInfo::SelfType => 14,
        TypeInfo::UnknownGeneric { name } => mix(15, str_hash(name.name@)),
        TypeInfo::Custom { .. } => 16,
        TypeInfo::Ref(_) => 17,
        TypeInfo::Array(..) => 18,
        TypeInfo::Storage { .. } => 19,
    }
}

/// The hash of the type behind a handle, taken after dereferencing: its
/// shape's own hash, mixed for tuples, arrays, custom types, structs,
/// storage and enums with the hashes of the types inside.
pub open spec fn type_hash(types: Seq<TypeInfo>, id: nat) -> u64
    decreases id + 1, 0nat,
{
    let r = resolve(types, id);
    if r < types.len() && r <= id {
        match types[r as int] {
            TypeInfo::Tuple(args) => mix(mix(5, args@.len() as u64), args_hash(types, args@, r)),
            TypeInfo::Custom { name, type_arguments } => mix(
                mix(16, str_hash(name.name@)),
                args_hash(types, type_arguments@, r),
            ),
            TypeInfo::Struct { name, fields } => mix(
                mix(9, str_hash(name.name@)),
                fields_hash(types, fields@, r),
            ),
            TypeInfo::Storage { fields } => mix(19, fields_hash(types, fields@, r)),
            TypeInfo::Enum { name, variant_types } => mix(
                mix(8, str_hash(name.name@)),
                variants_deep_hash(types, variant_types@, r),
            ),
            TypeInfo::Array(e, count) => mix(
                mix(
                    18,
                    if (e.0 as nat) < r {
                        type_hash(types, e.0 as nat)
                    } else {
                        0
                    },
                ),
                count as u64,
            ),
            t => shape_hash(t),
        }
    } else {
        0
    }
}

/// The hashes of the argument types, mixed in order.
pub open spec fn args_hash(types: Seq<TypeInfo>, args: Seq<TypeArgument>, bound: nat) -> u64
    decreases bound, args.len(),
{
    if args.len() == 0 {
        0
    } else {
        let x = args.last().type_id.0 as nat;
        mix(
            args_hash(types, args.drop_last(), bound),
            if x < bound {
                type_hash(types, x)
            } else {
                0
            },
        )
    }
}

/// Each field's name and type hash, mixed in order.
pub open spec fn fields_hash(types: Seq<TypeInfo>, fs: Seq<TyStructField>, bound: nat) -> u64
    decreases bound, fs.len(),
{
    if fs.len() == 0 {
        0
    } else {
        let x = fs.last().type_id.0 as nat;
        mix(
            mix(fields_hash(types, fs.drop_last(), bound), str_hash(fs.last().name.name@)),
            if x < bound {
                type_hash(types, x)
            } else {
                0
            },
        )
    }
}

/// Each variant's name, tag and type hash, mixed in order.
pub open spec fn variants_deep_hash(types: Seq<TypeInfo>, vs: Seq<TyEnumVariant>, bound: nat) -> u64
    decreases bound, vs.len(),
{
    if vs.len() == 0 {
        0
    } else {
        let x = vs.last().type_id.0 as nat;
        mix(
            mix(
                mix(variants_deep_hash(types, vs.drop_last(), bound), str_hash(vs.last().name.name@)),
                vs.last().tag as u64,
            ),
            if x < bound {
                type_hash(types, x)
            } else {
                0
            },
        )
    }
}

// ---------------------------------------------------------------------------
// Lemmas
// ---------------------------------------------------------------------------

pub proof fn lemma_resolve(types: Seq<TypeInfo>, id: nat)
    requires
        arena_wf(types),
        id < types.len(),
    ensures
        resolve(types, id) <= id,
        !(types[resolve(types, id) as int] is Ref),
    decreases id,
{
    if let TypeInfo::Ref(t) = types[id as int] {
        assert(shape_below(types[id as int], id));
        lemma_resolve(types, t.0 as nat);
    }
}

proof fn lemma_strings_hash(l: Seq<String>, r: Seq<String>)
    requires
        l.len() == r.len(),
        forall|i: int| 0 <= i < l.len() ==> (#[trigger] l[i])@ == r[i]@,
    ensures
        strings_hash(l) == strings_hash(r),
    decreases l.len(),
{
    if l.len() > 0 {
        lemma_strings_hash(l.drop_last(), r.drop_last());
    }
}

/// Structurally equal types hash alike.
pub proof fn lemma_type_eq_hash(types: Seq<TypeInfo>, a: nat, b: nat)
    requires
        type_eq(types, a, b),
    ensures
        type_hash(types, a) == type_hash(types, b),
    decreases a + b + 1, 0nat,
{
    let ra = resolve(types, a);
    let rb = resolve(types, b);
    match (types[ra as int], types[rb as int]) {
        (TypeInfo::Tuple(l), TypeInfo::Tuple(r)) => {
            assert forall|i: int| 0 <= i < l@.len() implies {
                &&& ((#[trigger] l@[i]).type_id.0 as nat) < ra
                &&& (r@[i].type_id.0 as nat) < rb
                &&& type_eq(types, l@[i].type_id.0 as nat, r@[i].type_id.0 as nat)
            } by {
                assert(type_eq(types, l@[i].type_id.0 as nat, r@[i].type_id.0 as nat));
            }
            lemma_args_hash(types, l@, r@, ra, rb);
        },
        (TypeInfo::Custom { type_arguments: l, .. }, TypeInfo::Custom { type_arguments: r, .. }) => {
            assert forall|i: int| 0 <= i < l@.len() implies {
                &&& ((#[trigger] l@[i]).type_id.0 as nat) < ra
                &&& (r@[i].type_id.0 as nat) < rb
                &&& type_eq(types, l@[i].type_id.0 as nat, r@[i].type_id.0 as nat)
            } by {
                assert(type_eq(types, l@[i].type_id.0 as nat, r@[i].type_id.0 as nat));
            }
            lemma_args_hash(types, l@, r@, ra, rb);
        },
        (TypeInfo::Enum { variant_types: lv, .. }, TypeInfo::Enum { variant_types: rv, .. }) => {
            assert forall|i: int| 0 <= i < lv@.len() implies {
                &&& (#[trigger] lv@[i]).name.name@ == rv@[i].name.name@
                &&& lv@[i].tag == rv@[i].tag
                &&& (lv@[i].type_id.0 as nat) < ra
                &&& (rv@[i].type_id.0 as nat) < rb
                &&& type_eq(types, lv@[i].type_id.0 as nat, rv@[i].type_id.0 as nat)
            } by {
                assert(type_eq(types, lv@[i].type_id.0 as nat, rv@[i].type_id.0 as nat));
            }
            lemma_variants_deep_hash(types, lv@, rv@, ra, rb);
        },
        (TypeInfo::Struct { fields: lf, .. }, TypeInfo::Struct { fields: rf, .. }) => {
            assert forall|i: int| 0 <= i < lf@.len() implies {
                &&& (#[trigger] lf@[i]).name.name@ == rf@[i].name.name@
                &&& (lf@[i].type_id.0 as nat) < ra
                &&& (rf@[i].type_id.0 as nat) < rb
                &&& type_eq(types, lf@[i].type_id.0 as nat, rf@[i].type_id.0 as nat)
            } by {
                assert(type_eq(types, lf@[i].type_id.0 as nat, rf@[i].type_id.0 as nat));
            }
            lemma_fields_hash(types, lf@, rf@, ra, rb);
        },
        (TypeInfo::Storage { fields: lf }, TypeInfo::Storage { fields: rf }) => {
            assert forall|i: int| 0 <= i < lf@.len() implies {
                &&& (#[trigger] lf@[i]).name.name@ == rf@[i].name.name@
                &&& (lf@[i].type_id.0 as nat) < ra
                &&& (rf@[i].type_id.0 as nat) < rb
                &&& type_eq(types, lf@[i].type_id.0 as nat, rf@[i].type_id.0 as nat)
            } by {
                assert(type_eq(types, lf@[i].type_id.0 as nat, rf@[i].type_id.0 as nat));
            }
            lemma_fields_hash(types, lf@, rf@, ra, rb);
        },
        (TypeInfo::Array(l0, _), TypeInfo::Array(r0, _)) => {
            lemma_type_eq_hash(types, l0.0 as nat, r0.0 as nat);
        },
        (
            TypeInfo::ContractCaller { abi_name: la, .. },
            TypeInfo::ContractCaller { abi_name: rabi, .. },
        ) => {
            if let (AbiName::Known(x), AbiName::Known(y)) = (la, rabi) {
                lemma_strings_hash(x.prefixes@, y.prefixes@);
            }
        },
        _ => {},
    }
}

proof fn lemma_args_hash(types: Seq<TypeInfo>, l: Seq<TypeArgument>, r: Seq<TypeArgument>, ra: nat, rb: nat)
    requires
        l.len() == r.len(),
        forall|i: int|
            #![trigger l[i]]
            0 <= i < l.len() ==> {
                &&& (l[i].type_id.0 as nat) < ra
                &&& (r[i].type_id.0 as nat) < rb
                &&& type_eq(types, l[i].type_id.0 as nat, r[i].type_id.0 as nat)
            },
    ensures
        args_hash(types, l, ra) == args_hash(types, r, rb),
    decreases ra + rb, l.len(),
{
    if l.len() > 0 {
        let i = l.len() - 1;
        assert(type_eq(types, l[i].type_id.0 as nat, r[i].type_id.0 as nat));
        lemma_args_hash(types, l.drop_last(), r.drop_last(), ra, rb);
        lemma_type_eq_hash(types, l.last().type_id.0 as nat, r.last().type_id.0 as nat);
    }
}

pub proof fn lemma_fields_hash(types: Seq<TypeInfo>, l: Seq<TyStructField>, r: Seq<TyStructField>, ra: nat, rb: nat)
    requires
        l.len() == r.len(),
        forall|i: int|
            #![trigger l[i]]
            0 <= i < l.len() ==> {
                &&& l[i].name.name@ == r[i].name.name@
                &&& (l[i].type_id.0 as nat) < ra
                &&& (r[i].type_id.0 as nat) < rb
                &&& type_eq(types, l[i].type_id.0 as nat, r[i].type_id.0 as nat)
            },
    ensures
        fields_hash(types, l, ra) == fields_hash(types, r, rb),
    decreases ra + rb, l.len(),
{
    if l.len() > 0 {
        let i = l.len() - 1;
        assert(type_eq(types, l[i].type_id.0 as nat, r[i].type_id.0 as nat));
        lemma_fields_hash(types, l.drop_last(), r.drop_last(), ra, rb);
        lemma_type_eq_hash(types, l.last().type_id.0 as nat, r.last().type_id.0 as nat);
    }
}

pub proof fn lemma_variants_deep_hash(
    types: Seq<TypeInfo>,
    l: Seq<TyEnumVariant>,
    r: Seq<TyEnumVariant>,
    ra: nat,
    rb: nat,
)
    requires
        l.len() == r.len(),
        forall|i: int|
            #![trigger l[i]]
            0 <= i < l.len() ==> {
                &&& l[i].name.name@ == r[i].name.name@
                &&& l[i].tag == r[i].tag
                &&& (l[i].type_id.0 as nat) < ra
                &&& (r[i].type_id.0 as nat) < rb
                &&& type_eq(types, l[i].type_id.0 as nat, r[i].type_id.0 as nat)
            },
    ensures
        variants_deep_hash(types, l, ra) == variants_deep_hash(types, r, rb),
    decreases ra + rb, l.len(),
{
    if l.len() > 0 {
        let i = l.len() - 1;
        assert(type_eq(types, l[i].type_id.0 as nat, r[i].type_id.0 as nat));
        lemma_variants_deep_hash(types, l.drop_last(), r.drop_last(), ra, rb);
        lemma_type_eq_hash(types, l.last().type_id.0 as nat, r.last().type_id.0 as nat);
    }
}


// ---------------------------------------------------------------------------
// Executable hashing helpers
// ---------------------------------------------------------------------------

pub fn mix_hash(h: u64, x: u64) -> (r: u64)
    ensures
        r == mix(h, x),
{
    let hh = h as u128;
    assert(hh * 31 <= 0xffff_ffff_ffff_ffffu128 * 31) by (nonlinear_arith)
        requires
            hh <= 0xffff_ffff_ffff_ffffu128,
    ;
    let v = hh * 31 + x as u128;
    (v % 0x1_0000_0000_0000_0000u128) as u64
}

pub fn hash_str(s: &str) -> (r: u64)
    ensures
        r == str_hash(s@),
{
    let n = s.unicode_len();
    let mut h: u64 = 0;
    let mut i: usize = 0;
    while i < n
        invariant
            n == s@.len(),
            i <= n,
            h == str_hash(s@.subrange(0, i as int)),
        decreases n - i,
    {
        let c = s.get_char(i);
        assert(s@.subrange(0, i as int + 1).drop_last() =~= s@.subrange(0, i as int));
        h = mix_hash(h, c as u32 as u64);
        i = i + 1;
    }
    assert(s@.subrange(0, n as int) =~= s@);
    h
}

fn hash_strings(ss: &Vec<String>) -> (r: u64)
    ensures
        r == strings_hash(ss@),
{
    let mut h: u64 = 0;
    let mut i: usize = 0;
    while i < ss.len()
        invariant
            i <= ss@.len(),
            h == strings_hash(ss@.subrange(0, i as int)),
        decreases ss@.len() - i,
    {
        assert(ss@.subrange(0, i as int + 1).drop_last() =~= ss@.subrange(0, i as int));
        h = mix_hash(h, hash_str(ss[i].as_str()));
        i = i + 1;
    }
    assert(ss@.subrange(0, ss@.len() as int) =~= ss@);
    h
}

fn hash_abi_name(a: &AbiName) -> (r: u64)
    ensures
        r == abi_name_hash(*a),
{
    match a {
        AbiName::Deferred => 0,
        AbiName::Known(cp) => mix_hash(
            mix_hash(1, hash_strings(&cp.prefixes)),
            hash_str(cp.suffix.as_str()),
        ),
    }
}

fn bits_value(b: IntegerBits) -> (r: u64)
    ensures
        r == bits_code(b),
{
    match b {
        IntegerBits::Eight => 8,
        IntegerBits::Sixteen => 16,
        IntegerBits::ThirtyTwo => 32,
        IntegerBits::SixtyFour => 64,
    }
}

fn hash_shape(t: &TypeInfo) -> (r: u64)
    ensures
        r == shape_hash(*t),
{
    match t {
        TypeInfo::Str(len) => mix_hash(1, *len),
        TypeInfo::UnsignedInteger(bits) => mix_hash(2, bits_value(*bits)),
        TypeInfo::Numeric => 3,
        TypeInfo::Boolean => 4,
        TypeInfo::Tuple(_) => 5,
        TypeInfo::Byte => 6,
        TypeInfo::B256 => 7,
        TypeInfo::Enum { .. } => 8,
        TypeInfo::Struct { .. } => 9,
        TypeInfo::ContractCaller { abi_name, address } => mix_hash(
            mix_hash(10, hash_abi_name(abi_name)),
            hash_str(address.as_str()),
        ),
        TypeInfo::Contract => 11,
        TypeInfo::ErrorRecovery => 12,
        TypeInfo::Unknown => 13,
        TypeInfo::SelfType => 14,
        TypeInfo::UnknownGeneric { name } => mix_hash(15, hash_str(name.as_str())),
        TypeInfo::Custom { .. } => 16,
        TypeInfo::Ref(_) => 17,
        TypeInfo::Array(..) => 18,
        TypeInfo::Storage { .. } => 19,
    }
}

// ---------------------------------------------------------------------------
// The engine
// ---------------------------------------------------------------------------

/// An append-only arena of type shapes. Handles stay valid for the life of
/// the engine; a stored shape never changes.
pub struct TypeEngine {
    types: Vec<TypeInfo>,
}

impl View for TypeEngine {
    type V = Seq<TypeInfo>;

    closed spec fn view(&self) -> Seq<TypeInfo> {
        self.types@
    }
}

impl TypeEngine {
    pub open spec fn wf(&self) -> bool {
        arena_wf(self@)
    }

    pub fn new() -> (r: TypeEngine)
        ensures
            r@ == Seq::<TypeInfo>::empty(),
            r.wf(),
    {
        TypeEngine { types: Vec::new() }
    }

    pub fn len(&self) -> (r: usize)
        ensures
            r == self@.len(),
    {
        self.types.len()
    }

    /// Stores a shape and returns the fresh handle to it.
    pub fn insert(&mut self, shape: TypeInfo) -> (r: TypeId)
        requires
            old(self).wf(),
            shape_below(shape, old(self)@.len()),
        ensures
            final(self).wf(),
            final(self)@ == old(self)@.push(shape),
            r.0 == old(self)@.len(),
    {
        let id = self.types.len();
        self.types.push(shape);
        proof {
            assert forall|j: int| 0 <= j < self@.len() implies shape_below(
                #[trigger] self@[j],
                j as nat,
            ) by {
                if j < id {
                    assert(self@[j] == old(self)@[j]);
                }
            }
        }
        TypeId(id)
    }

    /// The shape stored under `id`, as it was inserted.
    pub fn get(&self, id: TypeId) -> (r: &TypeInfo)
        requires
            id.0 < self@.len(),
        ensures
            *r == self@[id.0 as int],
    {
        &self.types[id.0]
    }

    /// Follows `Ref` links from `id` to the handle of a shape that is not a `Ref`.
    pub fn look_up_type_id(&self, id: TypeId) -> (r: TypeId)
        requires
            self.wf(),
            id.0 < self@.len(),
        ensures
            r.0 == resolve(self@, id.0 as nat),
            r.0 <= id.0,
            !(self@[r.0 as int] is Ref),
    {
        proof {
            lemma_resolve(self@, id.0 as nat);
        }
        let mut cur = id.0;
        loop
            invariant
                self.wf(),
                id.0 < self@.len(),
                cur <= id.0,
                resolve(self@, cur as nat) == resolve(self@, id.0 as nat),
            decreases cur,
        {
            match &self.types[cur] {
                TypeInfo::Ref(t) => {
                    assert(shape_below(self@[cur as int], cur as nat));
                    cur = t.0;
                },
                _ => {
                    return TypeId(cur);
                },
            }
        }
    }

    /// The shape behind `id` once `Ref` links are followed.
    pub fn look_up(&self, id: TypeId) -> (r: &TypeInfo)
        requires
            self.wf(),
            id.0 < self@.len(),
        ensures
            resolve(self@, id.0 as nat) < self@.len(),
            *r == self@[resolve(self@, id.0 as nat) as int],
    {
        let t = self.look_up_type_id(id);
        &self.types[t.0]
    }

    /// The engine-aware hash of the type behind `id`; see [`type_hash`].
    pub fn hash_type(&self, id: TypeId) -> (r: u64)
        requires
            self.wf(),
            id.0 < self@.len(),
        ensures
            r == type_hash(self@, id.0 as nat),
        decreases id.0, 1nat,
    {
        let t = self.look_up_type_id(id);
        proof {
            assert(shape_below(self@[t.0 as int], t.0 as nat));
        }
        match &self.types[t.0] {
            TypeInfo::Tuple(args) => mix_hash(mix_hash(5, args.len() as u64), self.hash_args(args, t.0)),
            TypeInfo::Custom { name, type_arguments } => mix_hash(
                mix_hash(16, hash_str(name.as_str())),
                self.hash_args(type_arguments, t.0),
            ),
            TypeInfo::Struct { name, fields } => mix_hash(
                mix_hash(9, hash_str(name.as_str())),
                self.hash_fields(fields, t.0),
            ),
            TypeInfo::Storage { fields } => mix_hash(19, self.hash_fields(fields, t.0)),
            TypeInfo::Enum { name, variant_types } => mix_hash(
                mix_hash(8, hash_str(name.as_str())),
                self.hash_variant_types(variant_types, t.0),
            ),
            TypeInfo::Array(e, count) => mix_hash(mix_hash(18, self.hash_type(*e)), *count as u64),
            other => hash_shape(other),
        }
    }

    fn hash_args(&self, items: &Vec<TypeArgument>, bound: usize) -> (r: u64)
        requires
            self.wf(),
            bound < self@.len(),
            args_below(items@, bound as nat),
        ensures
            r == args_hash(self@, items@, bound as nat),
        decreases bound, 0nat,
    {
        let mut h: u64 = 0;
        let mut i: usize = 0;
        while i < items.len()
            invariant
                self.wf(),
                bound < self@.len(),
                args_below(items@, bound as nat),
                i <= items@.len(),
                h == args_hash(self@, items@.subrange(0, i as int), bound as nat),
            decreases items@.len() - i,
        {
            assert(items@.subrange(0, i as int + 1).drop_last() =~= items@.subrange(0, i as int));
            assert(items@[i as int].type_id.0 < bound);
            let nested = self.hash_type(items[i].type_id);
            h = mix_hash(h, nested);
            i = i + 1;
        }
        assert(items@.subrange(0, items@.len() as int) =~= items@);
        h
    }

    pub fn hash_fields(&self, items: &Vec<TyStructField>, bound: usize) -> (r: u64)
        requires
            self.wf(),
            bound <= self@.len(),
            fields_below(items@, bound as nat),
        ensures
            r == fields_hash(self@, items@, bound as nat),
        decreases bound, 0nat,
    {
        let mut h: u64 = 0;
        let mut i: usize = 0;
        while i < items.len()
            invariant
                self.wf(),
                bound <= self@.len(),
                fields_below(items@, bound as nat),
                i <= items@.len(),
                h == fields_hash(self@, items@.subrange(0, i as int), bound as nat),
            decreases items@.len() - i,
        {
            assert(items@.subrange(0, i as int + 1).drop_last() =~= items@.subrange(0, i as int));
            assert(items@[i as int].type_id.0 < bound);
            let nested = self.hash_type(items[i].type_id);
            h = mix_hash(mix_hash(h, hash_str(items[i].name.as_str())), nested);
            i = i + 1;
        }
        assert(items@.subrange(0, items@.len() as int) =~= items@);
        h
    }

    pub fn hash_variant_types(&self, items: &Vec<TyEnumVariant>, bound: usize) -> (r: u64)
        requires
            self.wf(),
            bound <= self@.len(),
            variants_below(items@, bound as nat),
        ensures
            r == variants_deep_hash(self@, items@, bound as nat),
        decreases bound, 0nat,
    {
        let mut h: u64 = 0;
        let mut i: usize = 0;
        while i < items.len()
            invariant
                self.wf(),
                bound <= self@.len(),
                variants_below(items@, bound as nat),
                i <= items@.len(),
                h == variants_deep_hash(self@, items@.subrange(0, i as int), bound as nat),
            decreases items@.len() - i,
        {
            assert(items@.subrange(0, i as int + 1).drop_last() =~= items@.subrange(0, i as int));
            assert(items@[i as int].type_id.0 < bound);
            let nested = self.hash_type(items[i].type_id);
            h = mix_hash(mix_hash(mix_hash(h, hash_str(items[i].name.as_str())), items[i].tag as u64), nested);
            i = i + 1;
        }
        assert(items@.subrange(0, items@.len() as int) =~= items@);
        h
    }
}


impl TypeEngine {
    /// Engine-aware equality of the types behind two handles.
    pub fn types_eq(&self, a: TypeId, b: TypeId) -> (r: bool)
        requires
            self.wf(),
            a.0 < self@.len(),
            b.0 < self@.len(),
        ensures
            r == type_eq(self@, a.0 as nat, b.0 as nat),
        decreases a.0 + b.0, 1nat,
    {
        let ra = self.look_up_type_id(a);
        let rb = self.look_up_type_id(b);
        let ghost types = self@;
        proof {
            assert(shape_below(types[ra.0 as int], ra.0 as nat));
            assert(shape_below(types[rb.0 as int], rb.0 as nat));
        }
        match (&self.types[ra.0], &self.types[rb.0]) {
            (TypeInfo::Unknown, TypeInfo::Unknown) => true,
            (TypeInfo::Boolean, TypeInfo::Boolean) => true,
            (TypeInfo::SelfType, TypeInfo::SelfType) => true,
            (TypeInfo::Byte, TypeInfo::Byte) => true,
            (TypeInfo::B256, TypeInfo::B256) => true,
            (TypeInfo::Numeric, TypeInfo::Numeric) => true,
            (TypeInfo::Contract, TypeInfo::Contract) => true,
            (TypeInfo::ErrorRecovery, TypeInfo::ErrorRecovery) => true,
            (TypeInfo::UnknownGeneric { name: l }, TypeInfo::UnknownGeneric { name: r }) => l.same_name(r),
            (
                TypeInfo::Custom { name: ln, type_arguments: la },
                TypeInfo::Custom { name: rn, type_arguments: rargs },
            ) => ln.same_name(rn) && self.args_eq(la, rargs, ra.0, rb.0),
            (TypeInfo::Str(l), TypeInfo::Str(r)) => *l == *r,
            (TypeInfo::UnsignedInteger(l), TypeInfo::UnsignedInteger(r)) => *l == *r,
            (
                TypeInfo::Enum { name: ln, variant_types: lv },
                TypeInfo::Enum { name: rn, variant_types: rv },
            ) => ln.same_name(rn) && self.variants_eq(lv, rv, ra.0, rb.0),
            (TypeInfo::Struct { name: ln, fields: lf }, TypeInfo::Struct { name: rn, fields: rf }) => {
                ln.same_name(rn) && self.fields_eq(lf, rf, ra.0, rb.0)
            },
            (TypeInfo::Tuple(l), TypeInfo::Tuple(r)) => self.args_eq(l, r, ra.0, rb.0),
            (
                TypeInfo::ContractCaller { abi_name: la, address: ladr },
                TypeInfo::ContractCaller { abi_name: rabi, address: radr },
            ) => abi_names_eq(la, rabi) && *ladr == *radr,
            (TypeInfo::Array(l0, l1), TypeInfo::Array(r0, r1)) => {
                *l1 == *r1 && self.types_eq(*l0, *r0)
            },
            (TypeInfo::Storage { fields: lf }, TypeInfo::Storage { fields: rf }) => {
                self.fields_eq(lf, rf, ra.0, rb.0)
            },
            _ => false,
        }
    }

    fn args_eq(&self, l: &Vec<TypeArgument>, r: &Vec<TypeArgument>, ra: usize, rb: usize) -> (res:
        bool)
        requires
            self.wf(),
            ra < self@.len(),
            rb < self@.len(),
            args_below(l@, ra as nat),
            args_below(r@, rb as nat),
        ensures
            res == {
                &&& l@.len() == r@.len()
                &&& forall|i: int|
                    0 <= i < l@.len() ==> {
                        &&& (l@[i].type_id.0 as nat) < ra
                        &&& (r@[i].type_id.0 as nat) < rb
                        &&& type_eq(
                            self@,
                            #[trigger] l@[i].type_id.0 as nat,
                            r@[i].type_id.0 as nat,
                        )
                    }
            },
        decreases ra + rb, 0nat,
    {
        if l.len() != r.len() {
            return false;
        }
        let mut i: usize = 0;
        while i < l.len()
            invariant
                self.wf(),
                ra < self@.len(),
                rb < self@.len(),
                args_below(l@, ra as nat),
                args_below(r@, rb as nat),
                l@.len() == r@.len(),
                i <= l@.len(),
                forall|j: int|
                    0 <= j < i ==> type_eq(
                        self@,
                        #[trigger] l@[j].type_id.0 as nat,
                        r@[j].type_id.0 as nat,
                    ),
            decreases l@.len() - i,
        {
            assert(l@[i as int].type_id.0 < ra && r@[i as int].type_id.0 < rb);
            if !self.types_eq(l[i].type_id, r[i].type_id) {
                return false;
            }
            i = i + 1;
        }
        true
    }

    fn fields_eq(&self, l: &Vec<TyStructField>, r: &Vec<TyStructField>, ra: usize, rb: usize) -> (res:
        bool)
        requires
            self.wf(),
            ra < self@.len(),
            rb < self@.len(),
            fields_below(l@, ra as nat),
            fields_below(r@, rb as nat),
        ensures
            res == {
                &&& l@.len() == r@.len()
                &&& forall|i: int|
                    0 <= i < l@.len() ==> {
                        &&& l@[i].name.name@ == r@[i].name.name@
                        &&& (l@[i].type_id.0 as nat) < ra
                        &&& (r@[i].type_id.0 as nat) < rb
                        &&& type_eq(
                            self@,
                            #[trigger] l@[i].type_id.0 as nat,
                            r@[i].type_id.0 as nat,
                        )
                    }
            },
        decreases ra + rb, 0nat,
    {
        if l.len() != r.len() {
            return false;
        }
        let mut i: usize = 0;
        while i < l.len()
            invariant
                self.wf(),
                ra < self@.len(),
                rb < self@.len(),
                fields_below(l@, ra as nat),
                fields_below(r@, rb as nat),
                l@.len() == r@.len(),
                i <= l@.len(),
                forall|j: int|
                    0 <= j < i ==> l@[j].name.name@ == r@[j].name.name@ && type_eq(
                        self@,
                        #[trigger] l@[j].type_id.0 as nat,
                        r@[j].type_id.0 as nat,
                    ),
            decreases l@.len() - i,
        {
            assert(l@[i as int].type_id.0 < ra && r@[i as int].type_id.0 < rb);
            if !l[i].name.same_name(&r[i].name) {
                return false;
            }
            if !self.types_eq(l[i].type_id, r[i].type_id) {
                return false;
            }
            i = i + 1;
        }
        true
    }

    fn variants_eq(&self, l: &Vec<TyEnumVariant>, r: &Vec<TyEnumVariant>, ra: usize, rb: usize) -> (res:
        bool)
        requires
            self.wf(),
            ra < self@.len(),
            rb < self@.len(),
            variants_below(l@, ra as nat),
            variants_below(r@, rb as nat),
        ensures
            res == {
                &&& l@.len() == r@.len()
                &&& forall|i: int|
                    0 <= i < l@.len() ==> {
                        &&& l@[i].name.name@ == r@[i].name.name@
                        &&& l@[i].tag == r@[i].tag
                        &&& (l@[i].type_id.0 as nat) < ra
                        &&& (r@[i].type_id.0 as nat) < rb
                        &&& type_eq(
                            self@,
                            #[trigger] l@[i].type_id.0 as nat,
                            r@[i].type_id.0 as nat,
                        )
                    }
            },
        decreases ra + rb, 0nat,
    {
        if l.len() != r.len() {
            return false;
        }
        let mut i: usize = 0;
        while i < l.len()
            invariant
                self.wf(),
                ra < self@.len(),
                rb < self@.len(),
                variants_below(l@, ra as nat),
                variants_below(r@, rb as nat),
                l@.len() == r@.len(),
                i <= l@.len(),
                forall|j: int|
                    0 <= j < i ==> l@[j].name.name@ == r@[j].name.name@ && l@[j].tag == r@[j].tag
                        && type_eq(
                        self@,
                        #[trigger] l@[j].type_id.0 as nat,
                        r@[j].type_id.0 as nat,
                    ),
            decreases l@.len() - i,
        {
            assert(l@[i as int].type_id.0 < ra && r@[i as int].type_id.0 < rb);
            if !l[i].name.same_name(&r[i].name) || l[i].tag != r[i].tag {
                return false;
            }
            if !self.types_eq(l[i].type_id, r[i].type_id) {
                return false;
            }
            i = i + 1;
        }
        true
    }
}

fn call_paths_eq(l: &CallPath, r: &CallPath) -> (res: bool)
    ensures
        res == call_path_eq(*l, *r),
{
    if l.prefixes.len() != r.prefixes.len() {
        return false;
    }
    let mut i: usize = 0;
    while i < l.prefixes.len()
        invariant
            l.prefixes@.len() == r.prefixes@.len(),
            i <= l.prefixes@.len(),
            forall|j: int| 0 <= j < i ==> (#[trigger] l.prefixes@[j])@ == r.prefixes@[j]@,
        decreases l.prefixes@.len() - i,
    {
        if l.prefixes[i] != r.prefixes[i] {
            return false;
        }
        i = i + 1;
    }
    l.suffix == r.suffix
}

fn abi_names_eq(l: &AbiName, r: &AbiName) -> (res: bool)
    ensures
        res == abi_name_eq(*l, *r),
{
    match (l, r) {
        (AbiName::Deferred, AbiName::Deferred) => true,
        (AbiName::Known(a), AbiName::Known(b)) => call_paths_eq(a, b),
        _ => false,
    }
}


// ---------------------------------------------------------------------------
// Laws of structural equality
// ---------------------------------------------------------------------------

/// Shapes that are equal as values, seen through two handles, are structurally equal.
pub proof fn lemma_same_shape_eq(types: Seq<TypeInfo>, a: nat, b: nat)
    requires
        arena_wf(types),
        a < types.len(),
        b < types.len(),
        types[resolve(types, a) as int] == types[resolve(types, b) as int],
    ensures
        type_eq(types, a, b),
{
    lemma_resolve(types, a);
    lemma_resolve(types, b);
    let ra = resolve(types, a);
    let rb = resolve(types, b);
    let t = types[ra as int];
    assert(shape_below(types[ra as int], ra));
    assert(shape_below(types[rb as int], rb));
    match t {
        TypeInfo::Custom { type_arguments: la, .. } => {
            assert forall|i: int| 0 <= i < la@.len() implies type_eq(
                types,
                #[trigger] la@[i].type_id.0 as nat,
                la@[i].type_id.0 as nat,
            ) by {
                lemma_type_eq_refl(types, la@[i].type_id.0 as nat);
            }
        },
        TypeInfo::Tuple(la) => {
            assert forall|i: int| 0 <= i < la@.len() implies type_eq(
                types,
                #[trigger] la@[i].type_id.0 as nat,
                la@[i].type_id.0 as nat,
            ) by {
                lemma_type_eq_refl(types, la@[i].type_id.0 as nat);
            }
        },
        TypeInfo::Struct { fields: lf, .. } => {
            assert forall|i: int| 0 <= i < lf@.len() implies type_eq(
                types,
                #[trigger] lf@[i].type_id.0 as nat,
                lf@[i].type_id.0 as nat,
            ) by {
                lemma_type_eq_refl(types, lf@[i].type_id.0 as nat);
            }
        },
        TypeInfo::Storage { fields: lf } => {
            assert forall|i: int| 0 <= i < lf@.len() implies type_eq(
                types,
                #[trigger] lf@[i].type_id.0 as nat,
                lf@[i].type_id.0 as nat,
            ) by {
                lemma_type_eq_refl(types, lf@[i].type_id.0 as nat);
            }
        },
        TypeInfo::Enum { variant_types: lv, .. } => {
            assert forall|i: int| 0 <= i < lv@.len() implies type_eq(
                types,
                #[trigger] lv@[i].type_id.0 as nat,
                lv@[i].type_id.0 as nat,
            ) by {
                lemma_type_eq_refl(types, lv@[i].type_id.0 as nat);
            }
        },
        TypeInfo::Array(e, _) => {
            lemma_type_eq_refl(types, e.0 as nat);
        },
        TypeInfo::ContractCaller { abi_name, .. } => {
            if let AbiName::Known(cp) = abi_name {
                assert(call_path_eq(cp, cp));
            }
        },
        _ => {},
    }
}

/// Every valid handle's type is structurally equal to itself.
pub proof fn lemma_type_eq_refl(types: Seq<TypeInfo>, a: nat)
    requires
        arena_wf(types),
        a < types.len(),
    ensures
        type_eq(types, a, a),
    decreases a,
{
    lemma_resolve(types, a);
    let ra = resolve(types, a);
    let t = types[ra as int];
    assert(shape_below(types[ra as int], ra));
    match t {
        TypeInfo::Custom { type_arguments: la, .. } => {
            assert forall|i: int| 0 <= i < la@.len() implies type_eq(
                types,
                #[trigger] la@[i].type_id.0 as nat,
                la@[i].type_id.0 as nat,
            ) by {
                lemma_type_eq_refl(types, la@[i].type_id.0 as nat);
            }
        },
        TypeInfo::Tuple(la) => {
            assert forall|i: int| 0 <= i < la@.len() implies type_eq(
                types,
                #[trigger] la@[i].type_id.0 as nat,
                la@[i].type_id.0 as nat,
            ) by {
                lemma_type_eq_refl(types, la@[i].type_id.0 as nat);
            }
        },
        TypeInfo::Struct { fields: lf, .. } => {
            assert forall|i: int| 0 <= i < lf@.len() implies type_eq(
                types,
                #[trigger] lf@[i].type_id.0 as nat,
                lf@[i].type_id.0 as nat,
            ) by {
                lemma_type_eq_refl(types, lf@[i].type_id.0 as nat);
            }
        },
        TypeInfo::Storage { fields: lf } => {
            assert forall|i: int| 0 <= i < lf@.len() implies type_eq(
                types,
                #[trigger] lf@[i].type_id.0 as nat,
                lf@[i].type_id.0 as nat,
            ) by {
                lemma_type_eq_refl(types, lf@[i].type_id.0 as nat);
            }
        },
        TypeInfo::Enum { variant_types: lv, .. } => {
            assert forall|i: int| 0 <= i < lv@.len() implies type_eq(
                types,
                #[trigger] lv@[i].type_id.0 as nat,
                lv@[i].type_id.0 as nat,
            ) by {
                lemma_type_eq_refl(types, lv@[i].type_id.0 as nat);
            }
        },
        TypeInfo::Array(e, _) => {
            lemma_type_eq_refl(types, e.0 as nat);
        },
        TypeInfo::ContractCaller { abi_name, .. } => {
            if let AbiName::Known(cp) = abi_name {
                assert(call_path_eq(cp, cp));
            }
        },
        _ => {},
    }
}

/// Two shapes inserted one after the other, equal as written, compare
/// structurally equal under their two distinct handles, `types.len()` and
/// `types.len() + 1`.
pub proof fn law_independent_inserts_compare_equal(types: Seq<TypeInfo>, s1: TypeInfo, s2: TypeInfo)
    requires
        arena_wf(types),
        shape_below(s1, types.len()),
        s1 == s2,
    ensures
        type_eq(types.push(s1).push(s2), types.len(), types.len() + 1),
{
    let mid = types.push(s1);
    let after = mid.push(s2);
    let n = types.len();
    assert(arena_wf(after)) by {
        assert forall|j: int| 0 <= j < after.len() implies shape_below(
            #[trigger] after[j],
            j as nat,
        ) by {
            if j < n {
                assert(after[j] == types[j]);
            } else if j == n {
                assert(after[j] == s1);
            } else {
                assert(after[j] == s1);
                lemma_shape_below_mono(s1, n, n + 1);
            }
        }
    }
    lemma_same_shape_eq_pair(after, n, n + 1);
}

proof fn lemma_same_shape_eq_pair(types: Seq<TypeInfo>, a: nat, b: nat)
    requires
        arena_wf(types),
        a < types.len(),
        b < types.len(),
        types[a as int] == types[b as int],
    ensures
        type_eq(types, a, b),
{
    lemma_resolve(types, a);
    lemma_resolve(types, b);
    if let TypeInfo::Ref(t) = types[a as int] {
        assert(shape_below(types[a as int], a));
        assert(shape_below(types[b as int], b));
        assert(resolve(types, a) == resolve(types, t.0 as nat));
        assert(resolve(types, b) == resolve(types, t.0 as nat));
    }
    lemma_same_shape_eq(types, a, b);
}

pub proof fn lemma_shape_below_mono(t: TypeInfo, n: nat, m: nat)
    requires
        shape_below(t, n),
        n <= m,
    ensures
        shape_below(t, m),
{
}

/// A `Ref` to a `Ref` to a type compares equal to that type.
pub proof fn law_ref_transparent(types: Seq<TypeInfo>, t: TypeId)
    requires
        arena_wf(types),
        types.len() < usize::MAX,
        t.0 < types.len(),
    ensures
        ({
            let n = types.len();
            let after = types.push(TypeInfo::Ref(t)).push(TypeInfo::Ref(TypeId(n as usize)));
            type_eq(after, n + 1, t.0 as nat) && type_eq(after, t.0 as nat, n + 1)
        }),
{
    let n = types.len();
    let mid = types.push(TypeInfo::Ref(t));
    let after = mid.push(TypeInfo::Ref(TypeId(n as usize)));
    assert(arena_wf(after)) by {
        assert forall|j: int| 0 <= j < after.len() implies shape_below(
            #[trigger] after[j],
            j as nat,
        ) by {
            if j < n {
                assert(after[j] == types[j]);
            }
        }
    }
    assert(after[t.0 as int] == types[t.0 as int]);
    assert(resolve(after, n + 1) == resolve(after, n));
    assert(resolve(after, n) == resolve(after, t.0 as nat));
    lemma_resolve(after, t.0 as nat);
    lemma_same_shape_eq(after, n + 1, t.0 as nat);
    lemma_same_shape_eq(after, t.0 as nat, n + 1);
}


// ---------------------------------------------------------------------------
// Growth of the arena
// ---------------------------------------------------------------------------

/// `post` holds `pre` as a prefix: what an append-only arena becomes.
pub open spec fn extends(post: Seq<TypeInfo>, pre: Seq<TypeInfo>) -> bool {
    &&& pre.len() <= post.len()
    &&& forall|j: int| 0 <= j < pre.len() ==> post[j] == pre[j]
}

pub proof fn lemma_resolve_stable(pre: Seq<TypeInfo>, post: Seq<TypeInfo>, id: nat)
    requires
        extends(post, pre),
        id < pre.len(),
    ensures
        resolve(post, id) == resolve(pre, id),
    decreases id,
{
    assert(post[id as int] == pre[id as int]);
    if let TypeInfo::Ref(t) = pre[id as int] {
        if (t.0 as nat) < id {
            lemma_resolve_stable(pre, post, t.0 as nat);
        }
    }
}

/// Appending shapes does not change how earlier types compare.
pub proof fn lemma_type_eq_stable(pre: Seq<TypeInfo>, post: Seq<TypeInfo>, a: nat, b: nat)
    requires
        extends(post, pre),
        a < pre.len(),
        b < pre.len(),
    ensures
        type_eq(post, a, b) == type_eq(pre, a, b),
    decreases a + b,
{
    lemma_resolve_stable(pre, post, a);
    lemma_resolve_stable(pre, post, b);
    let ra = resolve(pre, a);
    let rb = resolve(pre, b);
    if ra <= a && rb <= b {
        assert(post[ra as int] == pre[ra as int]);
        assert(post[rb as int] == pre[rb as int]);
        match (pre[ra as int], pre[rb as int]) {
            (TypeInfo::Custom { type_arguments: la, .. }, TypeInfo::Custom { type_arguments: lb, .. }) => {
            if type_eq(pre, a, b) {
                assert forall|i: int|
                    #![trigger la@[i]]
                    0 <= i < la@.len() && i < lb@.len() && (la@[i].type_id.0 as nat) < ra && (lb@[i].type_id.0 as nat) < rb
                        implies type_eq(post, la@[i].type_id.0 as nat, lb@[i].type_id.0 as nat) by {
                    lemma_type_eq_stable(pre, post, la@[i].type_id.0 as nat, lb@[i].type_id.0 as nat);
                }
            }
            if type_eq(post, a, b) {
                assert forall|i: int|
                    #![trigger la@[i]]
                    0 <= i < la@.len() && i < lb@.len() && (la@[i].type_id.0 as nat) < ra && (lb@[i].type_id.0 as nat) < rb
                        implies type_eq(pre, la@[i].type_id.0 as nat, lb@[i].type_id.0 as nat) by {
                    lemma_type_eq_stable(pre, post, la@[i].type_id.0 as nat, lb@[i].type_id.0 as nat);
                }
            }
                assert(type_eq(post, a, b) == type_eq(pre, a, b));
            },
            (TypeInfo::Tuple(la), TypeInfo::Tuple(lb)) => {
            if type_eq(pre, a, b) {
                assert forall|i: int|
                    #![trigger la@[i]]
                    0 <= i < la@.len() && i < lb@.len() && (la@[i].type_id.0 as nat) < ra && (lb@[i].type_id.0 as nat) < rb
                        implies type_eq(post, la@[i].type_id.0 as nat, lb@[i].type_id.0 as nat) by {
                    lemma_type_eq_stable(pre, post, la@[i].type_id.0 as nat, lb@[i].type_id.0 as nat);
                }
            }
            if type_eq(post, a, b) {
                assert forall|i: int|
                    #![trigger la@[i]]
                    0 <= i < la@.len() && i < lb@.len() && (la@[i].type_id.0 as nat) < ra && (lb@[i].type_id.0 as nat) < rb
                        implies type_eq(pre, la@[i].type_id.0 as nat, lb@[i].type_id.0 as nat) by {
                    lemma_type_eq_stable(pre, post, la@[i].type_id.0 as nat, lb@[i].type_id.0 as nat);
                }
            }
                assert(type_eq(post, a, b) == type_eq(pre, a, b));
            },
            (TypeInfo::Struct { fields: la, .. }, TypeInfo::Struct { fields: lb, .. }) => {
            if type_eq(pre, a, b) {
                assert forall|i: int|
                    #![trigger la@[i]]
                    0 <= i < la@.len() && i < lb@.len() && (la@[i].type_id.0 as nat) < ra && (lb@[i].type_id.0 as nat) < rb
                        implies type_eq(post, la@[i].type_id.0 as nat, lb@[i].type_id.0 as nat) by {
                    lemma_type_eq_stable(pre, post, la@[i].type_id.0 as nat, lb@[i].type_id.0 as nat);
                }
            }
            if type_eq(post, a, b) {
                assert forall|i: int|
                    #![trigger la@[i]]
                    0 <= i < la@.len() && i < lb@.len() && (la@[i].type_id.0 as nat) < ra && (lb@[i].type_id.0 as nat) < rb
                        implies type_eq(pre, la@[i].type_id.0 as nat, lb@[i].type_id.0 as nat) by {
                    lemma_type_eq_stable(pre, post, la@[i].type_id.0 as nat, lb@[i].type_id.0 as nat);
                }
            }
                assert(type_eq(post, a, b) == type_eq(pre, a, b));
            },
            (TypeInfo::Storage { fields: la }, TypeInfo::Storage { fields: lb }) => {
            if type_eq(pre, a, b) {
                assert forall|i: int|
                    #![trigger la@[i]]
                    0 <= i < la@.len() && i < lb@.len() && (la@[i].type_id.0 as nat) < ra && (lb@[i].type_id.0 as nat) < rb
                        implies type_eq(post, la@[i].type_id.0 as nat, lb@[i].type_id.0 as nat) by {
                    lemma_type_eq_stable(pre, post, la@[i].type_id.0 as nat, lb@[i].type_id.0 as nat);
                }
            }
            if type_eq(post, a, b) {
                assert forall|i: int|
                    #![trigger la@[i]]
                    0 <= i < la@.len() && i < lb@.len() && (la@[i].type_id.0 as nat) < ra && (lb@[i].type_id.0 as nat) < rb
                        implies type_eq(pre, la@[i].type_id.0 as nat, lb@[i].type_id.0 as nat) by {
                    lemma_type_eq_stable(pre, post, la@[i].type_id.0 as nat, lb@[i].type_id.0 as nat);
                }
            }
                assert(type_eq(post, a, b) == type_eq(pre, a, b));
            },
            (TypeInfo::Enum { variant_types: la, .. }, TypeInfo::Enum { variant_types: lb, .. }) => {
            if type_eq(pre, a, b) {
                assert forall|i: int|
                    #![trigger la@[i]]
                    0 <= i < la@.len() && i < lb@.len() && (la@[i].type_id.0 as nat) < ra && (lb@[i].type_id.0 as nat) < rb
                        implies type_eq(post, la@[i].type_id.0 as nat, lb@[i].type_id.0 as nat) by {
                    lemma_type_eq_stable(pre, post, la@[i].type_id.0 as nat, lb@[i].type_id.0 as nat);
                }
            }
            if type_eq(post, a, b) {
                assert forall|i: int|
                    #![trigger la@[i]]
                    0 <= i < la@.len() && i < lb@.len() && (la@[i].type_id.0 as nat) < ra && (lb@[i].type_id.0 as nat) < rb
                        implies type_eq(pre, la@[i].type_id.0 as nat, lb@[i].type_id.0 as nat) by {
                    lemma_type_eq_stable(pre, post, la@[i].type_id.0 as nat, lb@[i].type_id.0 as nat);
                }
            }
                assert(type_eq(post, a, b) == type_eq(pre, a, b));
            },
            (TypeInfo::Array(x, _), TypeInfo::Array(y, _)) => {
                if (x.0 as nat) < ra && (y.0 as nat) < rb {
                    lemma_type_eq_stable(pre, post, x.0 as nat, y.0 as nat);
                }
                assert(type_eq(post, a, b) == type_eq(pre, a, b));
            },
            _ => {
                assert(type_eq(post, a, b) == type_eq(pre, a, b));
            },
        }
    }
}

// ---------------------------------------------------------------------------
// Substitution of types
// ---------------------------------------------------------------------------

/// A substitution: each entry maps a placeholder type to the type that
/// replaces it. The first entry whose placeholder matches wins.
#[derive(Clone, Debug)]
pub struct TypeSubstMap {
    pub mapping: Vec<(TypeId, TypeId)>,
}

impl TypeSubstMap {
    pub open spec fn valid_for(&self, n: nat) -> bool {
        forall|i: int|
            0 <= i < self.mapping@.len() ==> (#[trigger] self.mapping@[i]).0.0 < n
                && self.mapping@[i].1.0 < n
    }
}

/// The first entry, from `i` on, whose placeholder is structurally equal to `t`.
pub open spec fn match_from(types: Seq<TypeInfo>, t: nat, m: Seq<(TypeId, TypeId)>, i: nat) -> Option<
    nat,
>
    decreases m.len() - i,
{
    if i < m.len() {
        if type_eq(types, t, m[i as int].0.0 as nat) {
            Some(i)
        } else {
            match_from(types, t, m, i + 1)
        }
    } else {
        None
    }
}

/// Whether substitution has anything to replace in `t`: `t` itself matches a
/// placeholder, or an element of a tuple or array, an argument of a custom
/// type, or a field or variant of a struct or enum does.
pub open spec fn occurs(types: Seq<TypeInfo>, t: nat, m: Seq<(TypeId, TypeId)>) -> bool
    decreases t,
{
    if match_from(types, t, m, 0) is Some {
        true
    } else {
        let r = resolve(types, t);
        if r < types.len() && r <= t {
            match types[r as int] {
                TypeInfo::Tuple(args) => exists|i: int|
                    0 <= i < args@.len() && (args@[i].type_id.0 as nat) < r && occurs(
                        types,
                        #[trigger] args@[i].type_id.0 as nat,
                        m,
                    ),
                TypeInfo::Array(e, _) => (e.0 as nat) < r && occurs(types, e.0 as nat, m),
                TypeInfo::Custom { type_arguments, .. } => exists|i: int|
                    0 <= i < type_arguments@.len() && (type_arguments@[i].type_id.0 as nat) < r
                        && occurs(types, #[trigger] type_arguments@[i].type_id.0 as nat, m),
                TypeInfo::Struct { fields, .. } => exists|i: int|
                    0 <= i < fields@.len() && (fields@[i].type_id.0 as nat) < r && occurs(
                        types,
                        #[trigger] fields@[i].type_id.0 as nat,
                        m,
                    ),
                TypeInfo::Enum { variant_types, .. } => exists|i: int|
                    0 <= i < variant_types@.len() && (variant_types@[i].type_id.0 as nat) < r
                        && occurs(types, #[trigger] variant_types@[i].type_id.0 as nat, m),
                _ => false,
            }
        } else {
            false
        }
    }
}

/// `n` is `t` with the substitution applied: a matching type becomes its
/// replacement; a type with nothing to replace keeps its handle; a tuple,
/// array, custom type, struct or enum is rebuilt from its substituted parts.
pub open spec fn subst_of(types: Seq<TypeInfo>, t: nat, n: nat, m: Seq<(TypeId, TypeId)>) -> bool
    decreases t + n,
{
    match match_from(types, t, m, 0) {
        Some(i) => type_eq(types, n, m[i as int].1.0 as nat),
        None => if !occurs(types, t, m) {
            n == t
        } else {
            let rt = resolve(types, t);
            let rn = resolve(types, n);
            if rt < types.len() && rn < types.len() && rt <= t && rn <= n {
                match (types[rt as int], types[rn as int]) {
                    (TypeInfo::Tuple(l), TypeInfo::Tuple(r)) => {
                        &&& l@.len() == r@.len()
                        &&& forall|i: int|
                            0 <= i < l@.len() ==> {
                                &&& (l@[i].type_id.0 as nat) < rt
                                &&& (r@[i].type_id.0 as nat) < rn
                                &&& subst_of(
                                    types,
                                    #[trigger] l@[i].type_id.0 as nat,
                                    r@[i].type_id.0 as nat,
                                    m,
                                )
                            }
                    },
                    (TypeInfo::Array(l0, l1), TypeInfo::Array(r0, r1)) => {
                        &&& l1 == r1
                        &&& (l0.0 as nat) < rt
                        &&& (r0.0 as nat) < rn
                        &&& subst_of(types, l0.0 as nat, r0.0 as nat, m)
                    },
                    (
                        TypeInfo::Custom { name: ln, type_arguments: l },
                        TypeInfo::Custom { name: rname, type_arguments: r },
                    ) => {
                        &&& ln == rname
                        &&& l@.len() == r@.len()
                        &&& forall|i: int|
                            0 <= i < l@.len() ==> {
                                &&& r@[i].span == l@[i].span
                                &&& (l@[i].type_id.0 as nat) < rt
                                &&& (r@[i].type_id.0 as nat) < rn
                                &&& subst_of(
                                    types,
                                    #[trigger] l@[i].type_id.0 as nat,
                                    r@[i].type_id.0 as nat,
                                    m,
                                )
                            }
                    },
                    (TypeInfo::Struct { name: ln, fields: l }, TypeInfo::Struct { name: rname, fields: r }) => {
                        &&& ln == rname
                        &&& l@.len() == r@.len()
                        &&& forall|i: int|
                            0 <= i < l@.len() ==> {
                                &&& r@[i].name == l@[i].name
                                &&& r@[i].span == l@[i].span
                                &&& (l@[i].type_id.0 as nat) < rt
                                &&& (r@[i].type_id.0 as nat) < rn
                                &&& subst_of(
                                    types,
                                    #[trigger] l@[i].type_id.0 as nat,
                                    r@[i].type_id.0 as nat,
                                    m,
                                )
                            }
                    },
                    (
                        TypeInfo::Enum { name: ln, variant_types: l },
                        TypeInfo::Enum { name: rname, variant_types: r },
                    ) => {
                        &&& ln == rname
                        &&& l@.len() == r@.len()
                        &&& forall|i: int|
                            0 <= i < l@.len() ==> {
                                &&& r@[i].name == l@[i].name
                                &&& r@[i].span == l@[i].span
                                &&& r@[i].tag == l@[i].tag
                                &&& (l@[i].type_id.0 as nat) < rt
                                &&& (r@[i].type_id.0 as nat) < rn
                                &&& subst_of(
                                    types,
                                    #[trigger] l@[i].type_id.0 as nat,
                                    r@[i].type_id.0 as nat,
                                    m,
                                )
                            }
                    },
                    _ => false,
                }
            } else {
                false
            }
        },
    }
}

pub proof fn lemma_match_from_stable(
    pre: Seq<TypeInfo>,
    post: Seq<TypeInfo>,
    t: nat,
    m: Seq<(TypeId, TypeId)>,
    i: nat,
)
    requires
        extends(post, pre),
        t < pre.len(),
        forall|k: int| 0 <= k < m.len() ==> (#[trigger] m[k]).0.0 < pre.len(),
    ensures
        match_from(post, t, m, i) == match_from(pre, t, m, i),
    decreases m.len() - i,
{
    if i < m.len() {
        lemma_type_eq_stable(pre, post, t, m[i as int].0.0 as nat);
        lemma_match_from_stable(pre, post, t, m, i + 1);
    }
}

pub proof fn lemma_occurs_stable(pre: Seq<TypeInfo>, post: Seq<TypeInfo>, t: nat, m: Seq<(TypeId, TypeId)>)
    requires
        extends(post, pre),
        t < pre.len(),
        forall|k: int| 0 <= k < m.len() ==> (#[trigger] m[k]).0.0 < pre.len(),
    ensures
        occurs(post, t, m) == occurs(pre, t, m),
    decreases t,
{
    lemma_match_from_stable(pre, post, t, m, 0);
    lemma_resolve_stable(pre, post, t);
    let r = resolve(pre, t);
    if r <= t {
        assert(post[r as int] == pre[r as int]);
        match pre[r as int] {
            TypeInfo::Tuple(la) => {
                assert forall|i: int|
                    #![trigger occurs(post, la@[i].type_id.0 as nat, m)]
                    #![trigger occurs(pre, la@[i].type_id.0 as nat, m)]
                    0 <= i < la@.len() && (la@[i].type_id.0 as nat) < r implies occurs(
                    post,
                    la@[i].type_id.0 as nat,
                    m,
                ) == occurs(
                    pre,
                    la@[i].type_id.0 as nat,
                    m,
                ) by {
                    lemma_occurs_stable(pre, post, la@[i].type_id.0 as nat, m);
                }
                if match_from(pre, t, m, 0) is None {
                    if occurs(pre, t, m) {
                        let i = choose|i: int|
                            0 <= i < la@.len() && (la@[i].type_id.0 as nat) < r && occurs(
                                pre,
                                #[trigger] la@[i].type_id.0 as nat,
                                m,
                            );
                        assert(occurs(post, la@[i].type_id.0 as nat, m));
                    }
                    if occurs(post, t, m) {
                        let i = choose|i: int|
                            0 <= i < la@.len() && (la@[i].type_id.0 as nat) < r && occurs(
                                post,
                                #[trigger] la@[i].type_id.0 as nat,
                                m,
                            );
                        assert(occurs(pre, la@[i].type_id.0 as nat, m));
                    }
                }
                assert(occurs(post, t, m) == occurs(pre, t, m));
            },
            TypeInfo::Array(x, _) => {
                if (x.0 as nat) < r {
                    lemma_occurs_stable(pre, post, x.0 as nat, m);
                }
                assert(occurs(post, t, m) == occurs(pre, t, m));
            },
            TypeInfo::Custom { type_arguments: la, .. } => {
                assert forall|i: int|
                    #![trigger occurs(post, la@[i].type_id.0 as nat, m)]
                    #![trigger occurs(pre, la@[i].type_id.0 as nat, m)]
                    0 <= i < la@.len() && (la@[i].type_id.0 as nat) < r implies occurs(
                    post,
                    la@[i].type_id.0 as nat,
                    m,
                ) == occurs(pre, la@[i].type_id.0 as nat, m) by {
                    lemma_occurs_stable(pre, post, la@[i].type_id.0 as nat, m);
                }
                if match_from(pre, t, m, 0) is None {
                    if occurs(pre, t, m) {
                        let i = choose|i: int|
                            0 <= i < la@.len() && (la@[i].type_id.0 as nat) < r && occurs(
                                pre,
                                #[trigger] la@[i].type_id.0 as nat,
                                m,
                            );
                        assert(occurs(post, la@[i].type_id.0 as nat, m));
                    }
                    if occurs(post, t, m) {
                        let i = choose|i: int|
                            0 <= i < la@.len() && (la@[i].type_id.0 as nat) < r && occurs(
                                post,
                                #[trigger] la@[i].type_id.0 as nat,
                                m,
                            );
                        assert(occurs(pre, la@[i].type_id.0 as nat, m));
                    }
                }
                assert(occurs(post, t, m) == occurs(pre, t, m));
            },
            TypeInfo::Struct { fields: la, .. } => {
                assert forall|i: int|
                    #![trigger occurs(post, la@[i].type_id.0 as nat, m)]
                    #![trigger occurs(pre, la@[i].type_id.0 as nat, m)]
                    0 <= i < la@.len() && (la@[i].type_id.0 as nat) < r implies occurs(
                    post,
                    la@[i].type_id.0 as nat,
                    m,
                ) == occurs(pre, la@[i].type_id.0 as nat, m) by {
                    lemma_occurs_stable(pre, post, la@[i].type_id.0 as nat, m);
                }
                if match_from(pre, t, m, 0) is None {
                    if occurs(pre, t, m) {
                        let i = choose|i: int|
                            0 <= i < la@.len() && (la@[i].type_id.0 as nat) < r && occurs(
                                pre,
                                #[trigger] la@[i].type_id.0 as nat,
                                m,
                            );
                        assert(occurs(post, la@[i].type_id.0 as nat, m));
                    }
                    if occurs(post, t, m) {
                        let i = choose|i: int|
                            0 <= i < la@.len() && (la@[i].type_id.0 as nat) < r && occurs(
                                post,
                                #[trigger] la@[i].type_id.0 as nat,
                                m,
                            );
                        assert(occurs(pre, la@[i].type_id.0 as nat, m));
                    }
                }
                assert(occurs(post, t, m) == occurs(pre, t, m));
            },
            TypeInfo::Enum { variant_types: la, .. } => {
                assert forall|i: int|
                    #![trigger occurs(post, la@[i].type_id.0 as nat, m)]
                    #![trigger occurs(pre, la@[i].type_id.0 as nat, m)]
                    0 <= i < la@.len() && (la@[i].type_id.0 as nat) < r implies occurs(
                    post,
                    la@[i].type_id.0 as nat,
                    m,
                ) == occurs(pre, la@[i].type_id.0 as nat, m) by {
                    lemma_occurs_stable(pre, post, la@[i].type_id.0 as nat, m);
                }
                if match_from(pre, t, m, 0) is None {
                    if occurs(pre, t, m) {
                        let i = choose|i: int|
                            0 <= i < la@.len() && (la@[i].type_id.0 as nat) < r && occurs(
                                pre,
                                #[trigger] la@[i].type_id.0 as nat,
                                m,
                            );
                        assert(occurs(post, la@[i].type_id.0 as nat, m));
                    }
                    if occurs(post, t, m) {
                        let i = choose|i: int|
                            0 <= i < la@.len() && (la@[i].type_id.0 as nat) < r && occurs(
                                post,
                                #[trigger] la@[i].type_id.0 as nat,
                                m,
                            );
                        assert(occurs(pre, la@[i].type_id.0 as nat, m));
                    }
                }
                assert(occurs(post, t, m) == occurs(pre, t, m));
            },
            _ => {
                assert(occurs(post, t, m) == occurs(pre, t, m));
            },
        }
    }
}

pub proof fn lemma_subst_of_stable(
    pre: Seq<TypeInfo>,
    post: Seq<TypeInfo>,
    t: nat,
    n: nat,
    m: Seq<(TypeId, TypeId)>,
)
    requires
        extends(post, pre),
        t < pre.len(),
        n < pre.len(),
        forall|k: int|
            0 <= k < m.len() ==> (#[trigger] m[k]).0.0 < pre.len() && m[k].1.0 < pre.len(),
    ensures
        subst_of(post, t, n, m) == subst_of(pre, t, n, m),
    decreases t + n,
{
    lemma_match_from_stable(pre, post, t, m, 0);
    lemma_occurs_stable(pre, post, t, m);
    lemma_resolve_stable(pre, post, t);
    lemma_resolve_stable(pre, post, n);
    if let Some(i) = match_from(pre, t, m, 0) {
        lemma_match_from_in_range(pre, t, m, 0);
        lemma_type_eq_stable(pre, post, n, m[i as int].1.0 as nat);
    }
    let rt = resolve(pre, t);
    let rn = resolve(pre, n);
    if rt <= t && rn <= n {
        assert(post[rt as int] == pre[rt as int]);
        assert(post[rn as int] == pre[rn as int]);
        match (pre[rt as int], pre[rn as int]) {
            (TypeInfo::Tuple(la), TypeInfo::Tuple(lb)) => {
                if subst_of(pre, t, n, m) && match_from(pre, t, m, 0) is None && occurs(pre, t, m) {
                    assert forall|i: int|
                        #![trigger la@[i]]
                        0 <= i < la@.len() && i < lb@.len() && (la@[i].type_id.0 as nat) < rt && (lb@[i].type_id.0 as nat) < rn
                            implies subst_of(post, la@[i].type_id.0 as nat, lb@[i].type_id.0 as nat, m) by {
                        lemma_subst_of_stable(pre, post, la@[i].type_id.0 as nat, lb@[i].type_id.0 as nat, m);
                    }
                }
                if subst_of(post, t, n, m) && match_from(pre, t, m, 0) is None && occurs(pre, t, m) {
                    assert forall|i: int|
                        #![trigger la@[i]]
                        0 <= i < la@.len() && i < lb@.len() && (la@[i].type_id.0 as nat) < rt && (lb@[i].type_id.0 as nat) < rn
                            implies subst_of(pre, la@[i].type_id.0 as nat, lb@[i].type_id.0 as nat, m) by {
                        lemma_subst_of_stable(pre, post, la@[i].type_id.0 as nat, lb@[i].type_id.0 as nat, m);
                    }
                }
                assert(subst_of(post, t, n, m) == subst_of(pre, t, n, m));
            },
            (TypeInfo::Custom { type_arguments: la, .. }, TypeInfo::Custom { type_arguments: lb, .. }) => {
                if subst_of(pre, t, n, m) && match_from(pre, t, m, 0) is None && occurs(pre, t, m) {
                    assert forall|i: int|
                        #![trigger la@[i]]
                        0 <= i < la@.len() && i < lb@.len() && (la@[i].type_id.0 as nat) < rt && (lb@[i].type_id.0 as nat) < rn
                            implies subst_of(post, la@[i].type_id.0 as nat, lb@[i].type_id.0 as nat, m) by {
                        lemma_subst_of_stable(pre, post, la@[i].type_id.0 as nat, lb@[i].type_id.0 as nat, m);
                    }
                }
                if subst_of(post, t, n, m) && match_from(pre, t, m, 0) is None && occurs(pre, t, m) {
                    assert forall|i: int|
                        #![trigger la@[i]]
                        0 <= i < la@.len() && i < lb@.len() && (la@[i].type_id.0 as nat) < rt && (lb@[i].type_id.0 as nat) < rn
                            implies subst_of(pre, la@[i].type_id.0 as nat, lb@[i].type_id.0 as nat, m) by {
                        lemma_subst_of_stable(pre, post, la@[i].type_id.0 as nat, lb@[i].type_id.0 as nat, m);
                    }
                }
                assert(subst_of(post, t, n, m) == subst_of(pre, t, n, m));
            },
            (TypeInfo::Struct { fields: la, .. }, TypeInfo::Struct { fields: lb, .. }) => {
                if subst_of(pre, t, n, m) && match_from(pre, t, m, 0) is None && occurs(pre, t, m) {
                    assert forall|i: int|
                        #![trigger la@[i]]
                        0 <= i < la@.len() && i < lb@.len() && (la@[i].type_id.0 as nat) < rt && (lb@[i].type_id.0 as nat) < rn
                            implies subst_of(post, la@[i].type_id.0 as nat, lb@[i].type_id.0 as nat, m) by {
                        lemma_subst_of_stable(pre, post, la@[i].type_id.0 as nat, lb@[i].type_id.0 as nat, m);
                    }
                }
                if subst_of(post, t, n, m) && match_from(pre, t, m, 0) is None && occurs(pre, t, m) {
                    assert forall|i: int|
                        #![trigger la@[i]]
                        0 <= i < la@.len() && i < lb@.len() && (la@[i].type_id.0 as nat) < rt && (lb@[i].type_id.0 as nat) < rn
                            implies subst_of(pre, la@[i].type_id.0 as nat, lb@[i].type_id.0 as nat, m) by {
                        lemma_subst_of_stable(pre, post, la@[i].type_id.0 as nat, lb@[i].type_id.0 as nat, m);
                    }
                }
                assert(subst_of(post, t, n, m) == subst_of(pre, t, n, m));
            },
            (TypeInfo::Enum { variant_types: la, .. }, TypeInfo::Enum { variant_types: lb, .. }) => {
                if subst_of(pre, t, n, m) && match_from(pre, t, m, 0) is None && occurs(pre, t, m) {
                    assert forall|i: int|
                        #![trigger la@[i]]
                        0 <= i < la@.len() && i < lb@.len() && (la@[i].type_id.0 as nat) < rt && (lb@[i].type_id.0 as nat) < rn
                            implies subst_of(post, la@[i].type_id.0 as nat, lb@[i].type_id.0 as nat, m) by {
                        lemma_subst_of_stable(pre, post, la@[i].type_id.0 as nat, lb@[i].type_id.0 as nat, m);
                    }
                }
                if subst_of(post, t, n, m) && match_from(pre, t, m, 0) is None && occurs(pre, t, m) {
                    assert forall|i: int|
                        #![trigger la@[i]]
                        0 <= i < la@.len() && i < lb@.len() && (la@[i].type_id.0 as nat) < rt && (lb@[i].type_id.0 as nat) < rn
                            implies subst_of(pre, la@[i].type_id.0 as nat, lb@[i].type_id.0 as nat, m) by {
                        lemma_subst_of_stable(pre, post, la@[i].type_id.0 as nat, lb@[i].type_id.0 as nat, m);
                    }
                }
                assert(subst_of(post, t, n, m) == subst_of(pre, t, n, m));
            },
            (TypeInfo::Array(x, _), TypeInfo::Array(y, _)) => {
                if (x.0 as nat) < rt && (y.0 as nat) < rn {
                    lemma_subst_of_stable(pre, post, x.0 as nat, y.0 as nat, m);
                }
                assert(subst_of(post, t, n, m) == subst_of(pre, t, n, m));
            },
            _ => {},
        }
    }
}

pub proof fn lemma_match_from_in_range(types: Seq<TypeInfo>, t: nat, m: Seq<(TypeId, TypeId)>, i: nat)
    ensures
        match_from(types, t, m, i) matches Some(k) ==> i <= k < m.len() && type_eq(
            types,
            t,
            m[k as int].0.0 as nat,
        ),
        match_from(types, t, m, i) is None ==> forall|k: int|
            i <= k < m.len() ==> !type_eq(types, t, #[trigger] m[k].0.0 as nat),
    decreases m.len() - i,
{
    if i < m.len() {
        lemma_match_from_in_range(types, t, m, i + 1);
    }
}



impl TypeEngine {
    fn find_match(&self, t: TypeId, m: &TypeSubstMap) -> (r: Option<usize>)
        requires
            self.wf(),
            t.0 < self@.len(),
            m.valid_for(self@.len()),
        ensures
            r matches Some(i) ==> match_from(self@, t.0 as nat, m.mapping@, 0) == Some(i as nat),
            r matches Some(i) ==> i < m.mapping@.len(),
            r is None ==> match_from(self@, t.0 as nat, m.mapping@, 0) is None,
    {
        let mut i: usize = 0;
        while i < m.mapping.len()
            invariant
                self.wf(),
                t.0 < self@.len(),
                m.valid_for(self@.len()),
                i <= m.mapping@.len(),
                match_from(self@, t.0 as nat, m.mapping@, 0) == match_from(
                    self@,
                    t.0 as nat,
                    m.mapping@,
                    i as nat,
                ),
            decreases m.mapping@.len() - i,
        {
            if self.types_eq(t, m.mapping[i].0) {
                proof {
                    lemma_match_from_in_range(self@, t.0 as nat, m.mapping@, 0);
                }
                return Some(i);
            }
            i = i + 1;
        }
        None
    }

    /// Applies a substitution to the type behind `t`. Returns `None` when
    /// there is nothing to replace; otherwise the handle of the substituted
    /// type, which may be newly inserted. Shapes already stored never change.
    pub fn subst_type(&mut self, t: TypeId, m: &TypeSubstMap) -> (r: Option<TypeId>)
        requires
            old(self).wf(),
            t.0 < old(self)@.len(),
            m.valid_for(old(self)@.len()),
        ensures
            final(self).wf(),
            extends(final(self)@, old(self)@),
            r is None <==> !occurs(old(self)@, t.0 as nat, m.mapping@),
            r matches Some(n) ==> n.0 < final(self)@.len() && subst_of(
                final(self)@,
                t.0 as nat,
                n.0 as nat,
                m.mapping@,
            ),
        decreases t.0,
    {
        let ghost pre = self@;
        if let Some(i) = self.find_match(t, m) {
            let to = m.mapping[i].1;
            proof {
                lemma_match_from_in_range(pre, t.0 as nat, m.mapping@, 0);
                lemma_type_eq_refl(pre, to.0 as nat);
            }
            return Some(to);
        }
        let rt = self.look_up_type_id(t);
        proof {
            assert(shape_below(pre[rt.0 as int], rt.0 as nat));
        }
        let arr: Option<(TypeId, usize)> = match self.get(rt) {
            TypeInfo::Array(e, c) => Some((*e, *c)),
            _ => None,
        };
        if let Some((e, c)) = arr {
            match self.subst_type(e, m) {
                None => {
                    return None;
                },
                Some(ne) => {
                    let ghost mid = self@;
                    let n = self.insert(TypeInfo::Array(ne, c));
                    proof {
                        lemma_match_from_stable(pre, self@, t.0 as nat, m.mapping@, 0);
                        lemma_occurs_stable(pre, self@, t.0 as nat, m.mapping@);
                        lemma_resolve_stable(pre, self@, t.0 as nat);
                        lemma_subst_of_stable(mid, self@, e.0 as nat, ne.0 as nat, m.mapping@);
                        assert(self@[rt.0 as int] == pre[rt.0 as int]);
                    }
                    return Some(n);
                },
            }
        }
        let tup: Option<Vec<TypeArgument>> = match self.get(rt) {
            TypeInfo::Tuple(args) => Some(copy_args(args)),
            _ => None,
        };
        if let Some(args) = tup {
            let mut new_args: Vec<TypeArgument> = Vec::new();
            let mut changed = false;
            let mut i: usize = 0;
            while i < args.len()
                invariant
                    self.wf(),
                    extends(self@, pre),
                    pre[rt.0 as int] is Tuple,
                    tuple_args(pre[rt.0 as int]) == args@,
                    rt.0 <= t.0,
                    t.0 < pre.len(),
                    args_below(args@, rt.0 as nat),
                    m.valid_for(pre.len()),
                    new_args@.len() == i,
                    i <= args@.len(),
                    forall|j: int|
                        0 <= j < i ==> {
                            &&& (#[trigger] new_args@[j]).type_id.0 < self@.len()
                            &&& subst_of(
                                self@,
                                args@[j].type_id.0 as nat,
                                new_args@[j].type_id.0 as nat,
                                m.mapping@,
                            )
                            &&& new_args@[j].span == args@[j].span
                        },
                    changed <==> exists|j: int|
                        0 <= j < i && occurs(pre, #[trigger] args@[j].type_id.0 as nat, m.mapping@),
                decreases args@.len() - i,
            {
                let ghost before = self@;
                let x = args[i];
                match self.subst_type(x.type_id, m) {
                    Some(n) => {
                        new_args.push(TypeArgument { type_id: n, span: x.span });
                        changed = true;
                    },
                    None => {
                        proof {
                            lemma_occurs_stable(pre, before, x.type_id.0 as nat, m.mapping@);
                            lemma_match_from_stable(pre, self@, x.type_id.0 as nat, m.mapping@, 0);
                            lemma_occurs_stable(pre, self@, x.type_id.0 as nat, m.mapping@);
                        }
                        new_args.push(x);
                    },
                }
                proof {
                    assert forall|j: int| 0 <= j < i implies {
                        &&& (#[trigger] new_args@[j]).type_id.0 < self@.len()
                        &&& subst_of(
                            self@,
                            args@[j].type_id.0 as nat,
                            new_args@[j].type_id.0 as nat,
                            m.mapping@,
                        )
                    } by {
                        lemma_subst_of_stable(
                            before,
                            self@,
                            args@[j].type_id.0 as nat,
                            new_args@[j].type_id.0 as nat,
                            m.mapping@,
                        );
                    }
                    lemma_occurs_stable(pre, before, x.type_id.0 as nat, m.mapping@);
                }
                i = i + 1;
            }
            if !changed {
                return None;
            }
            let ghost mid = self@;
            let n = self.insert(TypeInfo::Tuple(new_args));
            proof {
                lemma_match_from_stable(pre, self@, t.0 as nat, m.mapping@, 0);
                lemma_occurs_stable(pre, self@, t.0 as nat, m.mapping@);
                lemma_resolve_stable(pre, self@, t.0 as nat);
                assert(self@[rt.0 as int] == pre[rt.0 as int]);
                assert forall|j: int| 0 <= j < args@.len() implies subst_of(
                    self@,
                    #[trigger] args@[j].type_id.0 as nat,
                    new_args@[j].type_id.0 as nat,
                    m.mapping@,
                ) by {
                    lemma_subst_of_stable(
                        mid,
                        self@,
                        args@[j].type_id.0 as nat,
                        new_args@[j].type_id.0 as nat,
                        m.mapping@,
                    );
                }
            }
            return Some(n);
        }
        let cust: Option<(Ident, Vec<TypeArgument>)> = match self.get(rt) {
            TypeInfo::Custom { name, type_arguments } => Some((name.duplicate(), copy_args(type_arguments))),
            _ => None,
        };
        if let Some((cname, args)) = cust {
            let mut new_args: Vec<TypeArgument> = Vec::new();
            let mut changed = false;
            let mut i: usize = 0;
            while i < args.len()
                invariant
                    self.wf(),
                    extends(self@, pre),
                    pre[rt.0 as int] is Custom,
                    custom_parts(pre[rt.0 as int]) == (cname, args@),
                    rt.0 <= t.0,
                    t.0 < pre.len(),
                    args_below(args@, rt.0 as nat),
                    m.valid_for(pre.len()),
                    new_args@.len() == i,
                    i <= args@.len(),
                    forall|j: int|
                        0 <= j < i ==> {
                            &&& (#[trigger] new_args@[j]).type_id.0 < self@.len()
                            &&& subst_of(
                                self@,
                                args@[j].type_id.0 as nat,
                                new_args@[j].type_id.0 as nat,
                                m.mapping@,
                            )
                            &&& new_args@[j].span == args@[j].span
                        },
                    changed <==> exists|j: int|
                        0 <= j < i && occurs(pre, #[trigger] args@[j].type_id.0 as nat, m.mapping@),
                decreases args@.len() - i,
            {
                let ghost before = self@;
                let x = args[i];
                match self.subst_type(x.type_id, m) {
                    Some(n) => {
                        new_args.push(TypeArgument { type_id: n, span: x.span });
                        changed = true;
                    },
                    None => {
                        proof {
                            lemma_occurs_stable(pre, before, x.type_id.0 as nat, m.mapping@);
                            lemma_match_from_stable(pre, self@, x.type_id.0 as nat, m.mapping@, 0);
                            lemma_occurs_stable(pre, self@, x.type_id.0 as nat, m.mapping@);
                        }
                        new_args.push(x);
                    },
                }
                proof {
                    assert forall|j: int| 0 <= j < i implies {
                        &&& (#[trigger] new_args@[j]).type_id.0 < self@.len()
                        &&& subst_of(
                            self@,
                            args@[j].type_id.0 as nat,
                            new_args@[j].type_id.0 as nat,
                            m.mapping@,
                        )
                    } by {
                        lemma_subst_of_stable(
                            before,
                            self@,
                            args@[j].type_id.0 as nat,
                            new_args@[j].type_id.0 as nat,
                            m.mapping@,
                        );
                    }
                    lemma_occurs_stable(pre, before, x.type_id.0 as nat, m.mapping@);
                }
                i = i + 1;
            }
            if !changed {
                return None;
            }
            let ghost mid = self@;
            let n = self.insert(TypeInfo::Custom { name: cname, type_arguments: new_args });
            proof {
                lemma_match_from_stable(pre, self@, t.0 as nat, m.mapping@, 0);
                lemma_occurs_stable(pre, self@, t.0 as nat, m.mapping@);
                lemma_resolve_stable(pre, self@, t.0 as nat);
                assert(self@[rt.0 as int] == pre[rt.0 as int]);
                assert forall|j: int| 0 <= j < args@.len() implies subst_of(
                    self@,
                    #[trigger] args@[j].type_id.0 as nat,
                    new_args@[j].type_id.0 as nat,
                    m.mapping@,
                ) by {
                    lemma_subst_of_stable(
                        mid,
                        self@,
                        args@[j].type_id.0 as nat,
                        new_args@[j].type_id.0 as nat,
                        m.mapping@,
                    );
                }
            }
            return Some(n);
        }
        let st: Option<(Ident, Vec<TyStructField>)> = match self.get(rt) {
            TypeInfo::Struct { name, fields } => Some((name.duplicate(), copy_fields(fields))),
            _ => None,
        };
        if let Some((sname, args)) = st {
            let mut new_args: Vec<TyStructField> = Vec::new();
            let mut changed = false;
            let mut i: usize = 0;
            while i < args.len()
                invariant
                    self.wf(),
                    extends(self@, pre),
                    pre[rt.0 as int] is Struct,
                    struct_parts(pre[rt.0 as int]) == (sname, args@),
                    rt.0 <= t.0,
                    t.0 < pre.len(),
                    fields_below(args@, rt.0 as nat),
                    m.valid_for(pre.len()),
                    new_args@.len() == i,
                    i <= args@.len(),
                    forall|j: int|
                        0 <= j < i ==> {
                            &&& (#[trigger] new_args@[j]).type_id.0 < self@.len()
                            &&& subst_of(
                                self@,
                                args@[j].type_id.0 as nat,
                                new_args@[j].type_id.0 as nat,
                                m.mapping@,
                            )
                            &&& new_args@[j].span == args@[j].span
                            &&& new_args@[j].name == args@[j].name
                        },
                    changed <==> exists|j: int|
                        0 <= j < i && occurs(pre, #[trigger] args@[j].type_id.0 as nat, m.mapping@),
                decreases args@.len() - i,
            {
                let ghost before = self@;
                let x = &args[i];
                match self.subst_type(x.type_id, m) {
                    Some(n) => {
                        new_args.push(TyStructField { name: x.name.duplicate(), type_id: n, span: x.span });
                        changed = true;
                    },
                    None => {
                        proof {
                            lemma_occurs_stable(pre, before, x.type_id.0 as nat, m.mapping@);
                            lemma_match_from_stable(pre, self@, x.type_id.0 as nat, m.mapping@, 0);
                            lemma_occurs_stable(pre, self@, x.type_id.0 as nat, m.mapping@);
                        }
                        new_args.push(TyStructField { name: x.name.duplicate(), type_id: x.type_id, span: x.span });
                    },
                }
                proof {
                    assert forall|j: int| 0 <= j < i implies {
                        &&& (#[trigger] new_args@[j]).type_id.0 < self@.len()
                        &&& subst_of(
                            self@,
                            args@[j].type_id.0 as nat,
                            new_args@[j].type_id.0 as nat,
                            m.mapping@,
                        )
                    } by {
                        lemma_subst_of_stable(
                            before,
                            self@,
                            args@[j].type_id.0 as nat,
                            new_args@[j].type_id.0 as nat,
                            m.mapping@,
                        );
                    }
                    lemma_occurs_stable(pre, before, x.type_id.0 as nat, m.mapping@);
                }
                i = i + 1;
            }
            if !changed {
                return None;
            }
            let ghost mid = self@;
            let n = self.insert(TypeInfo::Struct { name: sname, fields: new_args });
            proof {
                lemma_match_from_stable(pre, self@, t.0 as nat, m.mapping@, 0);
                lemma_occurs_stable(pre, self@, t.0 as nat, m.mapping@);
                lemma_resolve_stable(pre, self@, t.0 as nat);
                assert(self@[rt.0 as int] == pre[rt.0 as int]);
                assert forall|j: int| 0 <= j < args@.len() implies subst_of(
                    self@,
                    #[trigger] args@[j].type_id.0 as nat,
                    new_args@[j].type_id.0 as nat,
                    m.mapping@,
                ) by {
                    lemma_subst_of_stable(
                        mid,
                        self@,
                        args@[j].type_id.0 as nat,
                        new_args@[j].type_id.0 as nat,
                        m.mapping@,
                    );
                }
            }
            return Some(n);
        }
        let en: Option<(Ident, Vec<TyEnumVariant>)> = match self.get(rt) {
            TypeInfo::Enum { name, variant_types } => Some((name.duplicate(), copy_variants(variant_types))),
            _ => None,
        };
        if let Some((ename, args)) = en {
            let mut new_args: Vec<TyEnumVariant> = Vec::new();
            let mut changed = false;
            let mut i: usize = 0;
            while i < args.len()
                invariant
                    self.wf(),
                    extends(self@, pre),
                    pre[rt.0 as int] is Enum,
                    enum_parts(pre[rt.0 as int]) == (ename, args@),
                    rt.0 <= t.0,
                    t.0 < pre.len(),
                    variants_below(args@, rt.0 as nat),
                    m.valid_for(pre.len()),
                    new_args@.len() == i,
                    i <= args@.len(),
                    forall|j: int|
                        0 <= j < i ==> {
                            &&& (#[trigger] new_args@[j]).type_id.0 < self@.len()
                            &&& subst_of(
                                self@,
                                args@[j].type_id.0 as nat,
                                new_args@[j].type_id.0 as nat,
                                m.mapping@,
                            )
                            &&& new_args@[j].span == args@[j].span
                            &&& new_args@[j].name == args@[j].name
                            &&& new_args@[j].tag == args@[j].tag
                        },
                    changed <==> exists|j: int|
                        0 <= j < i && occurs(pre, #[trigger] args@[j].type_id.0 as nat, m.mapping@),
                decreases args@.len() - i,
            {
                let ghost before = self@;
                let x = &args[i];
                match self.subst_type(x.type_id, m) {
                    Some(n) => {
                        new_args.push(TyEnumVariant { name: x.name.duplicate(), type_id: n, tag: x.tag, span: x.span });
                        changed = true;
                    },
                    None => {
                        proof {
                            lemma_occurs_stable(pre, before, x.type_id.0 as nat, m.mapping@);
                            lemma_match_from_stable(pre, self@, x.type_id.0 as nat, m.mapping@, 0);
                            lemma_occurs_stable(pre, self@, x.type_id.0 as nat, m.mapping@);
                        }
                        new_args.push(TyEnumVariant { name: x.name.duplicate(), type_id: x.type_id, tag: x.tag, span: x.span });
                    },
                }
                proof {
                    assert forall|j: int| 0 <= j < i implies {
                        &&& (#[trigger] new_args@[j]).type_id.0 < self@.len()
                        &&& subst_of(
                            self@,
                            args@[j].type_id.0 as nat,
                            new_args@[j].type_id.0 as nat,
                            m.mapping@,
                        )
                    } by {
                        lemma_subst_of_stable(
                            before,
                            self@,
                            args@[j].type_id.0 as nat,
                            new_args@[j].type_id.0 as nat,
                            m.mapping@,
                        );
                    }
                    lemma_occurs_stable(pre, before, x.type_id.0 as nat, m.mapping@);
                }
                i = i + 1;
            }
            if !changed {
                return None;
            }
            let ghost mid = self@;
            let n = self.insert(TypeInfo::Enum { name: ename, variant_types: new_args });
            proof {
                lemma_match_from_stable(pre, self@, t.0 as nat, m.mapping@, 0);
                lemma_occurs_stable(pre, self@, t.0 as nat, m.mapping@);
                lemma_resolve_stable(pre, self@, t.0 as nat);
                assert(self@[rt.0 as int] == pre[rt.0 as int]);
                assert forall|j: int| 0 <= j < args@.len() implies subst_of(
                    self@,
                    #[trigger] args@[j].type_id.0 as nat,
                    new_args@[j].type_id.0 as nat,
                    m.mapping@,
                ) by {
                    lemma_subst_of_stable(
                        mid,
                        self@,
                        args@[j].type_id.0 as nat,
                        new_args@[j].type_id.0 as nat,
                        m.mapping@,
                    );
                }
            }
            return Some(n);
        }
        None
    }
}

pub open spec fn custom_parts(t: TypeInfo) -> (Ident, Seq<TypeArgument>) {
    match t {
        TypeInfo::Custom { name, type_arguments } => (name, type_arguments@),
        _ => arbitrary(),
    }
}

pub open spec fn struct_parts(t: TypeInfo) -> (Ident, Seq<TyStructField>) {
    match t {
        TypeInfo::Struct { name, fields } => (name, fields@),
        _ => arbitrary(),
    }
}

pub open spec fn enum_parts(t: TypeInfo) -> (Ident, Seq<TyEnumVariant>) {
    match t {
        TypeInfo::Enum { name, variant_types } => (name, variant_types@),
        _ => arbitrary(),
    }
}

pub open spec fn tuple_args(t: TypeInfo) -> Seq<TypeArgument> {
    match t {
        TypeInfo::Tuple(args) => args@,
        _ => Seq::empty(),
    }
}

pub fn copy_fields(v: &Vec<TyStructField>) -> (r: Vec<TyStructField>)
    ensures
        r@ == v@,
{
    let mut r: Vec<TyStructField> = Vec::new();
    let mut i: usize = 0;
    while i < v.len()
        invariant
            i <= v@.len(),
            r@ == v@.subrange(0, i as int),
        decreases v@.len() - i,
    {
        r.push(TyStructField { name: v[i].name.duplicate(), type_id: v[i].type_id, span: v[i].span });
        i = i + 1;
    }
    assert(v@.subrange(0, v@.len() as int) =~= v@);
    r
}

pub fn copy_variants(v: &Vec<TyEnumVariant>) -> (r: Vec<TyEnumVariant>)
    ensures
        r@ == v@,
{
    let mut r: Vec<TyEnumVariant> = Vec::new();
    let mut i: usize = 0;
    while i < v.len()
        invariant
            i <= v@.len(),
            r@ == v@.subrange(0, i as int),
        decreases v@.len() - i,
    {
        r.push(
            TyEnumVariant { name: v[i].name.duplicate(), type_id: v[i].type_id, tag: v[i].tag, span: v[i].span },
        );
        i = i + 1;
    }
    assert(v@.subrange(0, v@.len() as int) =~= v@);
    r
}

fn copy_args(args: &Vec<TypeArgument>) -> (r: Vec<TypeArgument>)
    ensures
        r@ == args@,
{
    let mut r: Vec<TypeArgument> = Vec::new();
    let mut i: usize = 0;
    while i < args.len()
        invariant
            i <= args@.len(),
            r@ == args@.subrange(0, i as int),
        decreases args@.len() - i,
    {
        r.push(args[i]);
        i = i + 1;
    }
    assert(args@.subrange(0, args@.len() as int) =~= args@);
    r
}


// ---------------------------------------------------------------------------
// Rendering types as they are written in ABI descriptions
// ---------------------------------------------------------------------------

pub open spec fn digit_char(d: nat) -> char {
    if d == 0 { '0' } else if d == 1 { '1' } else if d == 2 { '2' } else if d == 3 { '3' }
    else if d == 4 { '4' } else if d == 5 { '5' } else if d == 6 { '6' } else if d == 7 { '7' }
    else if d == 8 { '8' } else { '9' }
}

/// The decimal digits of `n`.
pub open spec fn decimal(n: nat) -> Seq<char>
    decreases n,
{
    if n < 10 {
        seq![digit_char(n)]
    } else {
        decimal(n / 10).push(digit_char(n % 10))
    }
}

pub open spec fn bits_str(b: IntegerBits) -> Seq<char> {
    match b {
        IntegerBits::Eight => "u8"@,
        IntegerBits::Sixteen => "u16"@,
        IntegerBits::ThirtyTwo => "u32"@,
        IntegerBits::SixtyFour => "u64"@,
    }
}

pub open spec fn call_path_str(cp: CallPath) -> Seq<char> {
    strings_joined(cp.prefixes@) + cp.suffix@
}

/// Each string followed by `::`.
pub open spec fn strings_joined(ss: Seq<String>) -> Seq<char>
    decreases ss.len(),
{
    if ss.len() == 0 {
        Seq::empty()
    } else {
        strings_joined(ss.drop_last()) + ss.last()@ + "::"@
    }
}

pub open spec fn abi_name_str(a: AbiName) -> Seq<char> {
    match a {
        AbiName::Deferred => "for unspecified ABI"@,
        AbiName::Known(cp) => call_path_str(cp),
    }
}

/// The type behind `id` as ABI descriptions write it.
pub open spec fn type_str(types: Seq<TypeInfo>, id: nat) -> Seq<char>
    decreases id + 1, 0nat,
{
    let r = resolve(types, id);
    if r < types.len() && r <= id {
        match types[r as int] {
            TypeInfo::Unknown => "unknown"@,
            TypeInfo::UnknownGeneric { name } => name.name@,
            TypeInfo::Str(n) => "str["@ + decimal(n as nat) + "]"@,
            TypeInfo::UnsignedInteger(b) => bits_str(b),
            TypeInfo::Enum { name, .. } => "enum "@ + name.name@,
            TypeInfo::Struct { name, .. } => "struct "@ + name.name@,
            TypeInfo::Boolean => "bool"@,
            TypeInfo::Ref(_) => "unknown"@,
            TypeInfo::Tuple(args) => "("@ + args_str(types, args@, r) + ")"@,
            TypeInfo::ContractCaller { abi_name, .. } => "contract caller "@ + abi_name_str(abi_name),
            TypeInfo::Custom { name, .. } => name.name@,
            TypeInfo::SelfType => "Self"@,
            TypeInfo::Byte => "byte"@,
            TypeInfo::B256 => "b256"@,
            TypeInfo::Numeric => "u64"@,
            TypeInfo::Contract => "contract"@,
            TypeInfo::ErrorRecovery => "unknown due to error"@,
            TypeInfo::Array(e, count) => "["@ + (if (e.0 as nat) < r {
                type_str(types, e.0 as nat)
            } else {
                Seq::empty()
            }) + "; "@ + decimal(count as nat) + "]"@,
            TypeInfo::Storage { .. } => "contract storage"@,
        }
    } else {
        Seq::empty()
    }
}

/// The element types of a tuple, separated by `, `.
pub open spec fn args_str(types: Seq<TypeInfo>, args: Seq<TypeArgument>, bound: nat) -> Seq<char>
    decreases bound, args.len(),
{
    if args.len() == 0 {
        Seq::empty()
    } else {
        let last = args.last().type_id.0 as nat;
        let last_str = if last < bound {
            type_str(types, last)
        } else {
            Seq::empty()
        };
        if args.len() == 1 {
            last_str
        } else {
            args_str(types, args.drop_last(), bound) + ", "@ + last_str
        }
    }
}

fn digit_str(d: u64) -> (r: &'static str)
    requires
        d < 10,
    ensures
        r@ == seq![digit_char(d as nat)],
{
    proof {
        reveal_strlit("0");
        reveal_strlit("1");
        reveal_strlit("2");
        reveal_strlit("3");
        reveal_strlit("4");
        reveal_strlit("5");
        reveal_strlit("6");
        reveal_strlit("7");
        reveal_strlit("8");
        reveal_strlit("9");
    }
    if d == 0 { "0" } else if d == 1 { "1" } else if d == 2 { "2" } else if d == 3 { "3" }
    else if d == 4 { "4" } else if d == 5 { "5" } else if d == 6 { "6" } else if d == 7 { "7" }
    else if d == 8 { "8" } else { "9" }
}

pub fn decimal_string(n: u64) -> (r: String)
    ensures
        r@ == decimal(n as nat),
    decreases n,
{
    if n < 10 {
        String::from_str(digit_str(n))
    } else {
        let mut s = decimal_string(n / 10);
        s.append(digit_str(n % 10));
        s
    }
}

fn joined_string(ss: &Vec<String>) -> (r: String)
    ensures
        r@ == strings_joined(ss@),
{
    let mut out = String::new();
    let mut i: usize = 0;
    while i < ss.len()
        invariant
            i <= ss@.len(),
            out@ == strings_joined(ss@.subrange(0, i as int)),
        decreases ss@.len() - i,
    {
        assert(ss@.subrange(0, i as int + 1).drop_last() =~= ss@.subrange(0, i as int));
        out.append(ss[i].as_str());
        out.append("::");
        i = i + 1;
    }
    assert(ss@.subrange(0, ss@.len() as int) =~= ss@);
    out
}

impl AbiName {
    /// The ABI name as diagnostics print it.
    pub fn to_display_string(&self) -> (r: String)
        ensures
            r@ == abi_name_str(*self),
    {
        match self {
            AbiName::Deferred => String::from_str("for unspecified ABI"),
            AbiName::Known(cp) => {
                let mut s = joined_string(&cp.prefixes);
                s.append(cp.suffix.as_str());
                s
            },
        }
    }
}

fn bits_string(b: IntegerBits) -> (r: &'static str)
    ensures
        r@ == bits_str(b),
{
    match b {
        IntegerBits::Eight => "u8",
        IntegerBits::Sixteen => "u16",
        IntegerBits::ThirtyTwo => "u32",
        IntegerBits::SixtyFour => "u64",
    }
}

impl TypeEngine {
    /// The type behind `id` as ABI descriptions write it.
    pub fn json_abi_str(&self, id: TypeId) -> (r: String)
        requires
            self.wf(),
            id.0 < self@.len(),
        ensures
            r@ == type_str(self@, id.0 as nat),
        decreases id.0,
    {
        let rt = self.look_up_type_id(id);
        proof {
            assert(shape_below(self@[rt.0 as int], rt.0 as nat));
        }
        match &self.types[rt.0] {
            TypeInfo::Unknown => String::from_str("unknown"),
            TypeInfo::UnknownGeneric { name } => name.name.clone(),
            TypeInfo::Str(n) => {
                let mut s = String::from_str("str[");
                let d = decimal_string(*n);
                s.append(d.as_str());
                s.append("]");
                s
            },
            TypeInfo::UnsignedInteger(b) => String::from_str(bits_string(*b)),
            TypeInfo::Enum { name, .. } => {
                let mut s = String::from_str("enum ");
                s.append(name.as_str());
                s
            },
            TypeInfo::Struct { name, .. } => {
                let mut s = String::from_str("struct ");
                s.append(name.as_str());
                s
            },
            TypeInfo::Boolean => String::from_str("bool"),
            TypeInfo::Ref(_) => String::from_str("unknown"),
            TypeInfo::Tuple(args) => {
                let mut s = String::from_str("(");
                let mut i: usize = 0;
                while i < args.len()
                    invariant
                        self.wf(),
                        rt.0 <= id.0,
                        rt.0 < self@.len(),
                        args_below(args@, rt.0 as nat),
                        i <= args@.len(),
                        s@ == "("@ + args_str(self@, args@.subrange(0, i as int), rt.0 as nat),
                    decreases args@.len() - i,
                {
                    let ghost prefix = args@.subrange(0, i as int + 1);
                    assert(prefix.drop_last() =~= args@.subrange(0, i as int));
                    assert(prefix.last() == args@[i as int]);
                    if i > 0 {
                        s.append(", ");
                    }
                    let e = self.json_abi_str(args[i].type_id);
                    s.append(e.as_str());
                    proof {
                        assert(s@ =~= "("@ + args_str(self@, prefix, rt.0 as nat));
                    }
                    i = i + 1;
                }
                assert(args@.subrange(0, args@.len() as int) =~= args@);
                s.append(")");
                s
            },
            TypeInfo::ContractCaller { abi_name, .. } => {
                let mut s = String::from_str("contract caller ");
                let a = abi_name.to_display_string();
                s.append(a.as_str());
                s
            },
            TypeInfo::Custom { name, .. } => name.name.clone(),
            TypeInfo::SelfType => String::from_str("Self"),
            TypeInfo::Byte => String::from_str("byte"),
            TypeInfo::B256 => String::from_str("b256"),
            TypeInfo::Numeric => String::from_str("u64"),
            TypeInfo::Contract => String::from_str("contract"),
            TypeInfo::ErrorRecovery => String::from_str("unknown due to error"),
            TypeInfo::Array(e, count) => {
                let mut s = String::from_str("[");
                let es = self.json_abi_str(*e);
                s.append(es.as_str());
                s.append("; ");
                let d = decimal_string(*count as u64);
                s.append(d.as_str());
                s.append("]");
                s
            },
            TypeInfo::Storage { .. } => String::from_str("contract storage"),
        }
    }
}

} // verus!
