//! The decisions behind the attribute that gives an enum with integer
//! discriminants a bit encoding: which discriminants it has, how many bits
//! encode them, and whether every bit pattern of that width names a variant
//! (then decoding cannot fail) or not (then it is fallible).
use vstd::prelude::*;
use vstd::arithmetic::power2::{
    lemma2_to64, lemma_pow2_strictly_increases, lemma_pow2_unfold, pow2,
};
use vstd::set_lib::{lemma_len_subset, lemma_subset_equality};
use std::collections::BTreeMap;
use crate::errors::MultipleErrors;
use crate::bits::lemma_shl_one_usize;
use crate::struct_macro::{is_core_width, IntPath};
use crate::syntax::{ident_eq, ident_is, Meta, MetaKind, MetaValue};

verus! {

broadcast use {vstd::std_specs::btree::group_btree_axioms, vstd::laws_cmp::group_laws_cmp};

/// The discriminant of a variant, as written.
#[derive(Debug, Clone, Copy, PartialEq, Eq, Structural)]
pub enum Discriminant {
    /// The variant has none.
    Missing,
    /// It is not an integer literal.
    NotInt,
    /// An integer literal: its value, or `None` where it does not parse as a `u128`.
    Int(Option<u128>),
}

/// Why a variant is refused. `variant` numbers the variants from 0.
#[derive(Debug, Clone, Copy, PartialEq, Eq, Structural)]
pub enum VariantError {
    /// The variant has no discriminant.
    Missing { variant: usize },
    /// Its discriminant is not an integer literal.
    NotInt { variant: usize },
    /// Its discriminant does not parse as a `u128`.
    BadInt { variant: usize },
    /// An earlier variant has the same discriminant.
    Duplicate { variant: usize, value: u128 },
}

/// What a variant's discriminant gives.
pub open spec fn spec_variant(d: Discriminant, variant: usize) -> Result<u128, VariantError> {
    match d {
        Discriminant::Missing => Err(VariantError::Missing { variant }),
        Discriminant::NotInt => Err(VariantError::NotInt { variant }),
        Discriminant::Int(None) => Err(VariantError::BadInt { variant }),
        Discriminant::Int(Some(value)) => Ok(value),
    }
}

/// Reads the discriminant of variant `variant`.
pub fn process_variant(d: &Discriminant, variant: usize) -> (r: Result<u128, VariantError>)
    ensures
        r == spec_variant(*d, variant),
{
    match d {
        Discriminant::Missing => Err(VariantError::Missing { variant }),
        Discriminant::NotInt => Err(VariantError::NotInt { variant }),
        Discriminant::Int(None) => Err(VariantError::BadInt { variant }),
        Discriminant::Int(Some(value)) => Ok(*value),
    }
}

/// Reading the first `n` variants: the discriminants met so far, each with
/// the variant that has it, and the errors met so far.
pub open spec fn spec_collect(variants: Seq<Discriminant>, n: nat) -> (
    Map<u128, usize>,
    Seq<VariantError>,
)
    decreases n,
{
    if n == 0 {
        (Map::empty(), Seq::empty())
    } else {
        let (m, errs) = spec_collect(variants, (n - 1) as nat);
        match spec_variant(variants[n - 1], (n - 1) as usize) {
            Err(e) => (m, errs.push(e)),
            Ok(value) => if m.contains_key(value) {
                (m, errs.push(VariantError::Duplicate { variant: (n - 1) as usize, value }))
            } else {
                (m.insert(value, (n - 1) as usize), errs)
            },
        }
    }
}

/// Reads every variant; refused with all the errors met where there are any.
pub fn collect_enum_discriminants(variants: &Vec<Discriminant>) -> (r: Result<
    BTreeMap<u128, usize>,
    Vec<VariantError>,
>)
    ensures
        ({
            let (m, errs) = spec_collect(variants@, variants@.len());
            &&& errs.len() == 0 ==> (r matches Ok(map) && map@ == m)
            &&& errs.len() > 0 ==> (r matches Err(e) && e@ == errs)
        }),
{
    let mut all_discriminats: BTreeMap<u128, usize> = BTreeMap::new();
    let mut errs: MultipleErrors<VariantError> = MultipleErrors::new();
    let mut i: usize = 0;
    while i < variants.len()
        invariant
            i <= variants@.len(),
            spec_collect(variants@, i as nat) == (all_discriminats@, errs@),
        decreases variants@.len() - i,
    {
        match process_variant(&variants[i], i) {
            Ok(value) => {
                if all_discriminats.contains_key(&value) {
                    errs.combine(VariantError::Duplicate { variant: i, value });
                } else {
                    all_discriminats.insert(value, i);
                }
            },
            Err(e) => {
                errs.combine(e);
            },
        }
        i = i + 1;
    }
    match errs.into_inner() {
        Some(e) => Err(e),
        None => Ok(all_discriminats),
    }
}

/// Reading variants without error maps each discriminant to the one variant
/// that has it: every variant's discriminant is there, with that variant, and
/// nothing else is.
pub proof fn lemma_collect_one_to_one(variants: Seq<Discriminant>, n: nat)
    requires
        n <= variants.len(),
        variants.len() <= usize::MAX,
        spec_collect(variants, n).1.len() == 0,
    ensures
        ({
            let m = spec_collect(variants, n).0;
            &&& m.dom().finite()
            &&& m.dom().len() == n
            &&& forall|i: int|
                0 <= i < n ==> (#[trigger] variants[i] matches Discriminant::Int(Some(v))
                    && m.contains_key(v) && m[v] == i)
            &&& forall|v: u128|
                #[trigger] m.contains_key(v) ==> 0 <= m[v] < n && variants[m[v] as int]
                    == Discriminant::Int(Some(v))
        }),
    decreases n,
{
    if n > 0 {
        let (m0, errs0) = spec_collect(variants, (n - 1) as nat);
        if errs0.len() > 0 {
            assert(spec_collect(variants, n).1.len() > 0);
        }
        lemma_collect_one_to_one(variants, (n - 1) as nat);
        let m = spec_collect(variants, n).0;
        assert(variants[n - 1] matches Discriminant::Int(Some(v)) && !m0.contains_key(v));
        if let Discriminant::Int(Some(v)) = variants[n - 1] {
            assert(m == m0.insert(v, (n - 1) as usize));
            assert(m.dom() =~= m0.dom().insert(v));
            assert forall|i: int| 0 <= i < n implies (#[trigger] variants[i] matches Discriminant::Int(
                Some(w),
            ) && m.contains_key(w) && m[w] == i) by {
                if i < n - 1 {
                    assert(variants[i] matches Discriminant::Int(Some(w)) && m0.contains_key(w)
                        && m0[w] == i);
                    if let Discriminant::Int(Some(w)) = variants[i] {
                        assert(w != v);
                        assert(m[w] == m0[w]);
                    }
                } else {
                    assert(m[v] == n - 1);
                }
            }
        }
    }
}

/// The variant that the bit pattern `b` names, if any: what the code made for
/// the enum decodes `b` to.
pub open spec fn decode(m: Map<u128, usize>, b: u128) -> Option<usize> {
    if m.contains_key(b) {
        Some(m[b])
    } else {
        None
    }
}

/// Encoding and decoding are inverse: each variant's discriminant decodes to
/// that variant, and a pattern that decodes to a variant is that variant's
/// discriminant; every other pattern decodes to nothing (it is refused).
pub proof fn lemma_encoding_round_trip(variants: Seq<Discriminant>)
    requires
        variants.len() <= usize::MAX,
        spec_collect(variants, variants.len()).1.len() == 0,
    ensures
        forall|i: int|
            0 <= i < variants.len() ==> (#[trigger] variants[i] matches Discriminant::Int(Some(d))
                && decode(spec_collect(variants, variants.len()).0, d) == Some(i as usize)),
        forall|b: u128|
            #[trigger] decode(spec_collect(variants, variants.len()).0, b) matches Some(i) ==> i
                < variants.len() && variants[i as int] == Discriminant::Int(Some(b)),
        forall|b: u128|
            #[trigger] decode(spec_collect(variants, variants.len()).0, b) is None <==> !spec_collect(
                variants,
                variants.len(),
            ).0.contains_key(b),
{
    lemma_collect_one_to_one(variants, variants.len());
}

/// The number of bits needed to write `v`: none for 0.
pub open spec fn bit_len(v: nat) -> nat
    decreases v,
{
    if v == 0 {
        0
    } else {
        1 + bit_len(v / 2)
    }
}

/// `v` is below `2^bit_len(v)`, and at least `2^(bit_len(v) - 1)` where not 0.
pub proof fn lemma_bit_len(v: nat)
    ensures
        v < pow2(bit_len(v)),
        v > 0 ==> pow2((bit_len(v) - 1) as nat) <= v,
        bit_len(v) <= 128 || v >= pow2(128),
    decreases v,
{
    if v == 0 {
        lemma2_to64();
    } else {
        lemma_bit_len(v / 2);
        lemma_pow2_unfold(bit_len(v));
        if v / 2 > 0 {
            lemma_pow2_unfold((bit_len(v) - 1) as nat);
        } else {
            lemma2_to64();
        }
        if bit_len(v) > 128 {
            lemma_pow2_unfold(128);
            if bit_len(v / 2) > 128 {
            } else {
                assert(bit_len(v / 2) == 128);
            }
        }
    }
}

/// Counts the bits needed to write `v`.
fn bits_needed(v: u128) -> (r: u32)
    ensures
        r == bit_len(v as nat),
        r <= 128,
{
    let mut x = v;
    let mut n: u32 = 0;
    proof {
        lemma_bit_len(v as nat);
        vstd::arithmetic::power2::lemma_pow2(128);
        lemma_u128_max_is_pow2();
    }
    while x != 0
        invariant
            n + bit_len(x as nat) == bit_len(v as nat),
            bit_len(v as nat) <= 128,
        decreases x,
    {
        x = x / 2;
        n = n + 1;
    }
    n
}

proof fn lemma_u128_max_is_pow2()
    ensures
        pow2(128) == u128::MAX + 1,
{
    lemma2_to64();
    vstd::arithmetic::power2::lemma_pow2_adds(64, 64);
}

/// The values below `n`.
pub open spec fn values_below(n: nat) -> Set<u128> {
    Set::new(|v: u128| (v as nat) < n)
}

proof fn lemma_values_below_len(n: nat)
    requires
        n <= pow2(128),
    ensures
        values_below(n).finite(),
        values_below(n).len() == n,
    decreases n,
{
    lemma_u128_max_is_pow2();
    if n == 0 {
        assert(values_below(0) =~= Set::empty());
    } else {
        lemma_values_below_len((n - 1) as nat);
        assert(values_below(n) =~= values_below((n - 1) as nat).insert((n - 1) as u128));
    }
}

/// Where every discriminant fits in `bits` bits, every bit pattern of that
/// width is a discriminant exactly when there are `2^bits` of them: decoding
/// cannot fail for a complete enum, and can for any other.
pub proof fn lemma_decoding_total_iff_complete(m: Map<u128, usize>, bits: nat)
    requires
        bits <= 128,
        m.dom().finite(),
        forall|k: u128| #[trigger] m.contains_key(k) ==> (k as nat) < pow2(bits),
    ensures
        (forall|v: u128| (v as nat) < pow2(bits) ==> #[trigger] m.contains_key(v)) <==> m.dom().len()
            == pow2(bits),
{
    if bits < 128 {
        lemma_pow2_strictly_increases(bits, 128);
    }
    lemma_values_below_len(pow2(bits));
    let below = values_below(pow2(bits));
    assert(m.dom().subset_of(below));
    lemma_len_subset(m.dom(), below);
    if m.dom().len() == pow2(bits) {
        lemma_subset_equality(m.dom(), below);
        assert forall|v: u128| (v as nat) < pow2(bits) implies #[trigger] m.contains_key(v) by {
            assert(below.contains(v));
        }
    }
    if forall|v: u128| (v as nat) < pow2(bits) ==> #[trigger] m.contains_key(v) {
        assert(m.dom() =~= below);
    }
}

/// Why the attribute refuses an enum. `arg` numbers the attribute's arguments from 0.
#[derive(Debug, Clone, PartialEq, Eq)]
pub enum EnumError {
    /// Some variants are refused; all their errors, in order.
    Variants(Vec<VariantError>),
    /// The enum has no variant.
    NoVariants,
    /// The attribute's arguments are not a list of meta items.
    ArgsUnparsable,
    /// `bits` is not written `bits = N`.
    BitsNotNameValue { arg: usize },
    /// The value of `bits` is not an integer literal.
    BitsNotInt { arg: usize },
    /// The value of `bits` does not parse as a `u32`.
    BadBits { arg: usize },
    /// The explicit width is narrower than the greatest discriminant needs.
    TooFewBits { explicit: u32, inferred: u32 },
    /// No primitive type of at most 128 bits holds the width.
    Unsupported,
}

/// Reading argument `arg` of the attribute on the enum: only `bits = N` is read.
pub open spec fn spec_enum_arg(st: Option<u32>, m: Meta, arg: usize) -> Result<Option<u32>, EnumError> {
    if ident_is(m.ident, "bits"@) {
        match m.kind {
            MetaKind::NameValue(MetaValue::Int(Some(bits))) => Ok(Some(bits)),
            MetaKind::NameValue(MetaValue::Int(None)) => Err(EnumError::BadBits { arg }),
            MetaKind::NameValue(_) => Err(EnumError::BitsNotInt { arg }),
            _ => Err(EnumError::BitsNotNameValue { arg }),
        }
    } else {
        Ok(st)
    }
}

/// Reading the first `n` arguments of the attribute on the enum; the last `bits` counts.
pub open spec fn spec_enum_args(metas: Seq<Meta>, n: nat) -> Result<Option<u32>, EnumError>
    decreases n,
{
    if n == 0 {
        Ok(None)
    } else {
        match spec_enum_args(metas, (n - 1) as nat) {
            Ok(st) => spec_enum_arg(st, metas[n - 1], (n - 1) as usize),
            Err(e) => Err(e),
        }
    }
}

/// The width of the primitive type that holds a value of `bits` bits.
pub open spec fn repr_width_for(bits: u32) -> Option<u32> {
    if bits <= 8 {
        Some(8)
    } else if bits <= 16 {
        Some(16)
    } else if bits <= 32 {
        Some(32)
    } else if bits <= 64 {
        Some(64)
    } else if bits <= 128 {
        Some(128)
    } else {
        None
    }
}

/// An enum as written: the arguments of the attribute on it, and the
/// discriminant of each variant.
#[derive(Debug, Clone)]
pub struct EnumInput {
    pub args: Option<Vec<Meta>>,
    pub variants: Vec<Discriminant>,
}

/// What the code made for an enum is built from.
#[derive(Debug, Clone)]
pub struct EnumPlan {
    /// Each discriminant, with the position of the variant that has it.
    pub discriminants: BTreeMap<u128, usize>,
    /// The width of the enum's bit pattern.
    pub bits: u32,
    /// Every bit pattern of that width is a discriminant: decoding cannot fail.
    pub complete: bool,
    /// The type of the enum's bit pattern: `u{bits}`.
    pub to_bits_type: IntPath,
    /// The width of the primitive type in which the bit pattern is matched.
    pub repr_width: u32,
}

/// `mx` is the greatest discriminant.
pub open spec fn is_max_key(m: Map<u128, usize>, mx: u128) -> bool {
    m.contains_key(mx) && forall|k: u128| #[trigger] m.contains_key(k) ==> k <= mx
}

/// What the attribute gives once it has the discriminants `m` (at least one,
/// the greatest `mx`) and the explicit width: the refusal of a narrower
/// explicit width, the refusal of a width above 128, else the plan, which is
/// complete exactly when there are `2^width` discriminants.
pub open spec fn enum_plan_post(
    m: Map<u128, usize>,
    mx: u128,
    explicit: Option<u32>,
    r: Result<EnumPlan, EnumError>,
) -> bool {
    let inferred = bit_len(mx as nat);
    let required: nat = match explicit {
        Some(b) => b as nat,
        None => inferred,
    };
    if explicit is Some && explicit->0 < inferred {
        r == Err::<EnumPlan, EnumError>(
            EnumError::TooFewBits { explicit: explicit->0, inferred: inferred as u32 },
        )
    } else if required > 128 {
        r == Err::<EnumPlan, EnumError>(EnumError::Unsupported)
    } else {
        r matches Ok(plan) && {
            &&& plan.discriminants@ == m
            &&& plan.bits == required
            &&& plan.complete == (m.dom().len() == pow2(required))
            &&& plan.to_bits_type == (IntPath { core: is_core_width(plan.bits), width: plan.bits })
            &&& repr_width_for(plan.bits) == Some(plan.repr_width)
            &&& forall|k: u128| #[trigger] m.contains_key(k) ==> (k as nat) < pow2(required)
        }
    }
}

fn enum_arg(st: Option<u32>, m: &Meta, arg: usize) -> (r: Result<Option<u32>, EnumError>)
    ensures
        r == spec_enum_arg(st, *m, arg),
{
    if ident_eq(&m.ident, "bits") {
        let value = match &m.kind {
            MetaKind::NameValue(value) => value,
            _ => {
                return Err(EnumError::BitsNotNameValue { arg });
            },
        };
        match value {
            MetaValue::Int(Some(bits)) => Ok(Some(*bits)),
            MetaValue::Int(None) => Err(EnumError::BadBits { arg }),
            _ => Err(EnumError::BitsNotInt { arg }),
        }
    } else {
        Ok(st)
    }
}

proof fn lemma_enum_args_stop(metas: Seq<Meta>, n: nat)
    requires
        n <= metas.len(),
        spec_enum_args(metas, n) is Err,
    ensures
        spec_enum_args(metas, metas.len()) == spec_enum_args(metas, n),
    decreases metas.len() - n,
{
    if n < metas.len() {
        lemma_enum_args_stop(metas, n + 1);
    }
}

/// Reads the explicit width among the attribute's arguments.
fn explicit_bits(metas: &Vec<Meta>) -> (r: Result<Option<u32>, EnumError>)
    ensures
        r == spec_enum_args(metas@, metas@.len()),
{
    let mut explicit: Option<u32> = None;
    let mut i: usize = 0;
    while i < metas.len()
        invariant
            i <= metas@.len(),
            spec_enum_args(metas@, i as nat) == Ok::<Option<u32>, EnumError>(explicit),
        decreases metas@.len() - i,
    {
        match enum_arg(explicit, &metas[i], i) {
            Ok(next) => {
                explicit = next;
            },
            Err(e) => {
                proof {
                    lemma_enum_args_stop(metas@, (i + 1) as nat);
                }
                return Err(e);
            },
        }
        i = i + 1;
    }
    Ok(explicit)
}

/// Reads an enum and plans the code made for it: the variants first (all
/// their errors together), then the attribute's arguments, then the width.
pub fn process(input: &EnumInput) -> (r: Result<EnumPlan, EnumError>)
    ensures
        ({
            let (m, errs) = spec_collect(input.variants@, input.variants@.len());
            &&& errs.len() > 0 ==> (r matches Err(EnumError::Variants(e)) && e@ == errs)
            &&& errs.len() == 0 && m.dom().len() == 0 ==> r == Err::<EnumPlan, EnumError>(
                EnumError::NoVariants,
            )
            &&& errs.len() == 0 && m.dom().len() > 0 ==> match input.args {
                None => r == Err::<EnumPlan, EnumError>(EnumError::ArgsUnparsable),
                Some(metas) => match spec_enum_args(metas@, metas@.len()) {
                    Err(e) => r == Err::<EnumPlan, EnumError>(e),
                    Ok(explicit) => forall|mx: u128|
                        #[trigger] is_max_key(m, mx) ==> enum_plan_post(m, mx, explicit, r),
                },
            }
        }),
{
    let all_discriminats = match collect_enum_discriminants(&input.variants) {
        Ok(map) => map,
        Err(e) => {
            return Err(EnumError::Variants(e));
        },
    };
    let n_variants = input.variants.len();
    proof {
        lemma_collect_one_to_one(input.variants@, input.variants@.len());
    }
    let ghost m = all_discriminats@;
    if n_variants == 0 {
        return Err(EnumError::NoVariants);
    }
    let mut max: u128 = 0;
    let mut i: usize = 0;
    while i < input.variants.len()
        invariant
            0 < input.variants@.len(),
            i <= input.variants@.len(),
            m == all_discriminats@,
            m == spec_collect(input.variants@, input.variants@.len()).0,
            forall|j: int|
                0 <= j < input.variants@.len() ==> (#[trigger] input.variants@[j] matches Discriminant::Int(
                    Some(v),
                ) && m.contains_key(v) && m[v] == j),
            forall|v: u128|
                #[trigger] m.contains_key(v) ==> 0 <= m[v] < input.variants@.len()
                    && input.variants@[m[v] as int] == Discriminant::Int(Some(v)),
            i > 0 ==> m.contains_key(max),
            forall|j: int|
                0 <= j < i ==> (#[trigger] input.variants@[j] matches Discriminant::Int(Some(v)) && v
                    <= max),
        decreases input.variants@.len() - i,
    {
        match input.variants[i] {
            Discriminant::Int(Some(v)) => {
                if i == 0 || v > max {
                    max = v;
                }
            },
            _ => {},
        }
        i = i + 1;
    }
    assert(is_max_key(m, max)) by {
        assert forall|k: u128| #[trigger] m.contains_key(k) implies k <= max by {
            assert(input.variants@[m[k] as int] == Discriminant::Int(Some(k)));
        }
    }
    assert forall|mx: u128| #[trigger] is_max_key(m, mx) implies mx == max by {
        assert(m.contains_key(max));
        assert(m.contains_key(mx));
    }
    let metas = match &input.args {
        Some(metas) => metas,
        None => {
            return Err(EnumError::ArgsUnparsable);
        },
    };
    let explicit = match explicit_bits(metas) {
        Ok(explicit) => explicit,
        Err(e) => {
            return Err(e);
        },
    };
    let inferred_bits = bits_needed(max);
    if let Some(explicit) = explicit {
        if explicit < inferred_bits {
            return Err(EnumError::TooFewBits { explicit, inferred: inferred_bits });
        }
    }
    let required_bits = match explicit {
        Some(b) => b,
        None => inferred_bits,
    };
    proof {
        lemma_bit_len(max as nat);
        if bit_len(max as nat) < required_bits {
            lemma_pow2_strictly_increases(bit_len(max as nat), required_bits as nat);
        }
        assert forall|k: u128| #[trigger] m.contains_key(k) implies (k as nat) < pow2(
            required_bits as nat,
        ) by {
            assert(k <= max);
        }
    }
    let n = all_discriminats.len();
    let is_complete = if required_bits < usize::BITS {
        proof {
            lemma_shl_one_usize(required_bits);
        }
        n == 1usize << required_bits
    } else {
        proof {
            lemma2_to64();
            if required_bits > usize::BITS {
                lemma_pow2_strictly_increases(usize::BITS as nat, required_bits as nat);
            }
            assert(pow2(usize::BITS as nat) == usize::MAX + 1);
        }
        false
    };
    let is_core_type = required_bits == 8 || required_bits == 16 || required_bits == 32
        || required_bits == 64 || required_bits == 128;
    let repr_width: u32 = if required_bits <= 8 {
        8
    } else if required_bits <= 16 {
        16
    } else if required_bits <= 32 {
        32
    } else if required_bits <= 64 {
        64
    } else if required_bits <= 128 {
        128
    } else {
        return Err(EnumError::Unsupported);
    };
    Ok(
        EnumPlan {
            discriminants: all_discriminats,
            bits: required_bits,
            complete: is_complete,
            to_bits_type: IntPath { core: is_core_type, width: required_bits },
            repr_width,
        },
    )
}

} // verus!
