//! The decisions behind the attribute that turns a struct with named fields
//! into a bit-packed word: where each field sits, which integer type holds the
//! word, which type each field is read through, and every error and panic of
//! the attribute.
use vstd::prelude::*;
use vstd::arithmetic::power2::pow2;
use vstd::std_specs::convert::FromSpecImpl;
use core::ops::Range;
use crate::bits::lemma_shl_one_u128;
use crate::layout::mask_of;
use crate::syntax::{
    ident_eq, ident_is, parse_u32, parse_u32_spec, str_eq, Attribute, Meta, MetaKind, MetaValue,
    RangeEnd,
};
use vstd::string::StrSliceExecFns;

verus! {

/// The bits a field occupies: one bit, or the bits `start` up to (not
/// including) `end_exclusive`.
#[derive(Debug, Clone, Copy, PartialEq, Eq, Structural)]
pub enum BitsAttrVal {
    Bit(u32),
    Bits { start: u32, end_exclusive: u32 },
}

impl BitsAttrVal {
    /// The first bit of the field.
    pub open spec fn spec_start(self) -> u32 {
        match self {
            BitsAttrVal::Bit(bit) => bit,
            BitsAttrVal::Bits { start, .. } => start,
        }
    }

    /// The bit after the last one of the field.
    pub open spec fn spec_end(self) -> int {
        match self {
            BitsAttrVal::Bit(bit) => bit + 1,
            BitsAttrVal::Bits { end_exclusive, .. } => end_exclusive as int,
        }
    }

    /// The end of the field can be formed as a `u32`.
    pub open spec fn range_ok(self) -> bool {
        self.spec_end() <= u32::MAX
    }

    /// The bits of the field as a range.
    pub fn range(&self) -> (r: Range<u32>)
        requires
            self.range_ok(),
        ensures
            r.start == self.spec_start(),
            r.end == self.spec_end(),
    {
        match self {
            BitsAttrVal::Bit(bit) => *bit..*bit + 1,
            BitsAttrVal::Bits { start, end_exclusive } => *start..*end_exclusive,
        }
    }
}

/// How the arithmetic of the attribute would fail; each stops the macro with a panic.
#[derive(Debug, Clone, Copy, PartialEq, Eq, Structural)]
pub enum Panic {
    /// An addition overflows.
    AddOverflow,
    /// A subtraction underflows.
    SubOverflow,
    /// A shift left overflows.
    ShlOverflow,
    /// No integer type of at most 128 bits holds the requested width.
    InvalidCoreType,
}

/// Which part of a field's `bitstuff` attribute an integer literal stands in.
#[derive(Debug, Clone, Copy, PartialEq, Eq, Structural)]
pub enum IntPlace {
    /// The value of `bit = N`.
    Value,
    /// The start of `bits = N..M`.
    Start,
    /// The end of `bits = N..M`.
    End,
}

/// Why a field's attributes are refused. `attr` numbers the field's attributes
/// and `meta` the items of one attribute's argument list, both from 0.
#[derive(Debug, Clone, Copy, PartialEq, Eq, Structural)]
pub enum FieldError {
    /// The field has no name.
    Unnamed,
    /// The arguments of a `bitstuff` attribute are not a list of meta items.
    AttrUnparsable { attr: usize },
    /// An item is not keyed by an identifier.
    NotIdent { attr: usize, meta: usize },
    /// A second `bit` or `bits` item.
    DuplicateBits { attr: usize, meta: usize },
    /// An integer literal that does not parse as a `u32`.
    BadInt { attr: usize, meta: usize, place: IntPlace },
    /// A `bits` range open on one side.
    OpenRange { attr: usize, meta: usize },
    /// A `bits` range whose start is not an integer literal.
    StartNotInt { attr: usize, meta: usize },
    /// A `bits` range whose end is not an integer literal.
    EndNotInt { attr: usize, meta: usize },
    /// A `bits` range whose end is not greater than its start.
    EmptyRange { attr: usize, meta: usize },
    /// An item other than `bit`, `bits` and `falliable`.
    Unknown { attr: usize, meta: usize },
    /// No `bit` or `bits` item on the field.
    MissingBits,
    /// The arithmetic fails.
    Panic(Panic),
}

/// Why the attribute refuses a struct. `arg` numbers the attribute's own
/// arguments and `field` the struct's fields, both from 0.
#[derive(Debug, Clone, Copy, PartialEq, Eq, Structural)]
pub enum StructError {
    /// The attribute's arguments are not a list of meta items.
    ArgsUnparsable,
    /// An argument is not keyed by an identifier.
    ArgNotIdent { arg: usize },
    /// `bits` is not written `bits = N`.
    BitsNotNameValue { arg: usize },
    /// The value of `bits` is not an integer literal.
    BitsNotInt { arg: usize },
    /// The value of `bits` does not parse as a `u32`.
    BadInt { arg: usize },
    /// A second `bits = N` or `uN` argument.
    DuplicateBits,
    /// `repr` is not written `repr = uN`.
    ReprNotNameValue { arg: usize },
    /// The value of `repr` is not a path.
    ReprNotPath { arg: usize },
    /// The value of `repr` names none of `u8`, `u16`, `u32`, `u64`, `u128`.
    ReprUnknown { arg: usize },
    /// A second `repr = uN` or `uN` argument.
    DuplicateRepr,
    /// An argument `u...` whose rest is not a number.
    ShorthandNotInt { arg: usize },
    /// An argument `uN` where `N` is none of 8, 16, 32, 64, 128.
    ShorthandNotCore { arg: usize },
    /// Any other argument.
    UnknownArg { arg: usize },
    /// The struct's fields are not named.
    UnnamedFields,
    /// A field's attributes are refused.
    Field { field: usize, error: FieldError },
    /// The explicit integer type is narrower than the highest field end.
    ReprTooSmall { explicit: u32, required: u32 },
    /// The arithmetic fails.
    Panic(Panic),
}

/// What the attribute reads of a field: its bits, whether it is read through
/// `TryFromBits`, and which of its attributes are kept on the accessors.
#[derive(Debug, Clone)]
pub struct FieldAttr {
    pub bits: BitsAttrVal,
    pub falliable: bool,
    /// The positions, among the field's attributes, of those that are not `bitstuff`.
    pub other: Vec<usize>,
}

/// A field of the struct.
#[derive(Debug, Clone)]
pub struct Field {
    pub attr: FieldAttr,
}

impl Field {
    /// The bits of the field as a range.
    pub fn bits(&self) -> (r: Range<u32>)
        requires
            self.attr.bits.range_ok(),
        ensures
            r.start == self.attr.bits.spec_start(),
            r.end == self.attr.bits.spec_end(),
    {
        self.attr.bits.range()
    }
}

/// The primitive unsigned integer types.
#[derive(Debug, Clone, Copy, PartialEq, Eq, Structural)]
pub enum CoreBits {
    U8,
    U16,
    U32,
    U64,
    U128,
}

/// A width that one of the primitive unsigned integer types has.
pub open spec fn is_core_width(width: u32) -> bool {
    width == 8 || width == 16 || width == 32 || width == 64 || width == 128
}

/// A path to an unsigned integer type of `width` bits: the primitive
/// `::core::primitive::u{width}` where `core`, else the bounded
/// `::bitstuff::ints::u{width}`.
#[derive(Debug, Clone, Copy, PartialEq, Eq, Structural)]
pub struct IntPath {
    pub core: bool,
    pub width: u32,
}

impl CoreBits {
    /// The width of the type.
    pub open spec fn width(self) -> u32 {
        match self {
            CoreBits::U8 => 8,
            CoreBits::U16 => 16,
            CoreBits::U32 => 32,
            CoreBits::U64 => 64,
            CoreBits::U128 => 128,
        }
    }

    /// The primitive type picked for a field end of `bits`: the narrowest one
    /// whose width is greater than `bits`.
    pub open spec fn spec_from(bits: u32) -> CoreBits {
        if bits < 8 {
            CoreBits::U8
        } else if bits < 16 {
            CoreBits::U16
        } else if bits < 32 {
            CoreBits::U32
        } else if bits < 64 {
            CoreBits::U64
        } else {
            CoreBits::U128
        }
    }

    /// The narrowest primitive type wider than `bits`; there is none from 128 on.
    pub fn from(bits: u32) -> (r: CoreBits)
        requires
            bits < 128,
        ensures
            r == Self::spec_from(bits),
    {
        if bits < 8 {
            CoreBits::U8
        } else if bits < 16 {
            CoreBits::U16
        } else if bits < 32 {
            CoreBits::U32
        } else if bits < 64 {
            CoreBits::U64
        } else {
            CoreBits::U128
        }
    }

    /// The path of the type, under `::core::primitive`.
    pub fn to_path(&self) -> (r: IntPath)
        ensures
            r == (IntPath { core: true, width: self.width() }),
    {
        IntPath { core: true, width: u32::from(*self) }
    }
}

/// The type picked for `bits` is wider than `bits`, and no primitive type
/// narrower than it is.
pub proof fn lemma_core_bits_from(bits: u32, other: CoreBits)
    requires
        bits < 128,
    ensures
        bits < CoreBits::spec_from(bits).width(),
        bits < other.width() ==> CoreBits::spec_from(bits).width() <= other.width(),
{
}

impl From<CoreBits> for u32 {
    fn from(bits: CoreBits) -> (r: u32)
        ensures
            r == bits.width(),
    {
        match bits {
            CoreBits::U8 => 8,
            CoreBits::U16 => 16,
            CoreBits::U32 => 32,
            CoreBits::U64 => 64,
            CoreBits::U128 => 128,
        }
    }
}

impl FromSpecImpl<CoreBits> for u32 {
    open spec fn obeys_from_spec() -> bool {
        true
    }

    open spec fn from_spec(v: CoreBits) -> u32 {
        v.width()
    }
}

/// The path of the type that a field of `width` bits is read through.
pub fn bitwidth_to_type(width: u32) -> (r: IntPath)
    ensures
        r == (IntPath { core: is_core_width(width), width }),
{
    let is_core_type = width == 8 || width == 16 || width == 32 || width == 64 || width == 128;
    IntPath { core: is_core_type, width }
}

/// The arguments of the attribute on the struct: its width (`bits = N`) and
/// the primitive type that holds it (`repr = uN`).
#[derive(Debug, Clone, Copy, PartialEq, Eq, Structural)]
pub struct StructAttr {
    pub bits: Option<u32>,
    pub repr_bits: Option<CoreBits>,
}

impl StructAttr {
    /// The holding type asked for: `repr` where given, else the type picked for `bits`.
    pub open spec fn spec_repr_bits(self) -> Option<CoreBits> {
        match self.repr_bits {
            Some(c) => Some(c),
            None => match self.bits {
                Some(b) => Some(CoreBits::spec_from(b)),
                None => None,
            },
        }
    }

    /// The holding type can be worked out: a given width is below 128 (it is
    /// converted even where `repr` is given).
    pub open spec fn repr_bits_ok(self) -> bool {
        self.bits matches Some(b) ==> b < 128
    }

    /// The holding type asked for, if any.
    pub fn repr_bits(&self) -> (r: Option<CoreBits>)
        requires
            self.repr_bits_ok(),
        ensures
            r == self.spec_repr_bits(),
    {
        let from_bits = match self.bits {
            Some(b) => Some(CoreBits::from(b)),
            None => None,
        };
        match self.repr_bits {
            Some(c) => Some(c),
            None => from_bits,
        }
    }

    /// Records the width; refused where one was recorded already.
    pub fn try_set_bits(&mut self, bits: u32) -> (r: Result<(), StructError>)
        ensures
            old(self).bits is Some ==> r == Err::<(), StructError>(StructError::DuplicateBits)
                && *final(self) == *old(self),
            old(self).bits is None ==> r is Ok && *final(self) == (StructAttr {
                bits: Some(bits),
                ..*old(self)
            }),
    {
        if self.bits.is_some() {
            return Err(StructError::DuplicateBits);
        } else {
            self.bits = Some(bits);
            Ok(())
        }
    }

    /// Records the holding type; refused where one was recorded already.
    pub fn try_set_repr_bits(&mut self, repr_bits: CoreBits) -> (r: Result<(), StructError>)
        ensures
            old(self).repr_bits is Some ==> r == Err::<(), StructError>(StructError::DuplicateRepr)
                && *final(self) == *old(self),
            old(self).repr_bits is None ==> r is Ok && *final(self) == (StructAttr {
                repr_bits: Some(repr_bits),
                ..*old(self)
            }),
    {
        if self.repr_bits.is_some() {
            return Err(StructError::DuplicateRepr);
        } else {
            self.repr_bits = Some(repr_bits);
            Ok(())
        }
    }
}


/// What the attribute has read of a struct.
#[derive(Debug, Clone)]
pub struct ParsedInput {
    pub top_level: StructAttr,
    pub fields: Vec<Field>,
}

/// Every field's end can be formed as a `u32`.
pub open spec fn ends_ok(fields: Seq<Field>) -> bool {
    forall|i: int| 0 <= i < fields.len() ==> (#[trigger] fields[i]).attr.bits.range_ok()
}

/// The highest field end; 0 without fields.
pub open spec fn max_end(fields: Seq<Field>) -> int
    decreases fields.len(),
{
    if fields.len() == 0 {
        0
    } else {
        let rest = max_end(fields.drop_last());
        let end = fields.last().attr.bits.spec_end();
        if end > rest {
            end
        } else {
            rest
        }
    }
}

/// The highest field end is at least the end of every field and is the end of
/// one of them (or 0).
pub proof fn lemma_max_end_bounds(fields: Seq<Field>)
    ensures
        forall|i: int| 0 <= i < fields.len() ==> (#[trigger] fields[i]).attr.bits.spec_end()
            <= max_end(fields),
        max_end(fields) == 0 || exists|i: int|
            0 <= i < fields.len() && (#[trigger] fields[i]).attr.bits.spec_end() == max_end(fields),
        0 <= max_end(fields),
    decreases fields.len(),
{
    if fields.len() > 0 {
        let init = fields.drop_last();
        lemma_max_end_bounds(init);
        assert forall|i: int| 0 <= i < fields.len() implies (#[trigger] fields[i]).attr.bits.spec_end()
            <= max_end(fields) by {
            if i < fields.len() - 1 {
                assert(fields[i] == init[i]);
            }
        }
        if max_end(fields) != 0 {
            if max_end(fields) == max_end(init) {
                let j = choose|j: int|
                    0 <= j < init.len() && (#[trigger] init[j]).attr.bits.spec_end() == max_end(
                        init,
                    );
                assert(fields[j] == init[j]);
            } else {
                assert(fields[fields.len() - 1].attr.bits.spec_end() == max_end(fields));
            }
        }
    }
}

impl ParsedInput {
    /// The highest bit used by a field, plus one.
    pub fn required_repr_bits(&self) -> (r: u32)
        requires
            ends_ok(self.fields@),
        ensures
            r == max_end(self.fields@),
    {
        let mut max: u32 = 0;
        let mut i: usize = 0;
        while i < self.fields.len()
            invariant
                i <= self.fields@.len(),
                ends_ok(self.fields@),
                max == max_end(self.fields@.subrange(0, i as int)),
            decreases self.fields@.len() - i,
        {
            assert(self.fields@.subrange(0, i + 1).drop_last() =~= self.fields@.subrange(
                0,
                i as int,
            ));
            assert(self.fields@[i as int].attr.bits.range_ok());
            let end = self.fields[i].bits().end;
            if end > max {
                max = end;
            }
            i = i + 1;
        }
        assert(self.fields@.subrange(0, i as int) =~= self.fields@);
        max
    }

    /// The width of the struct's bit pattern: `bits = N` where given, else the
    /// highest bit used plus one.
    pub fn min_bits(&self) -> (r: u32)
        requires
            ends_ok(self.fields@),
        ensures
            r == (match self.top_level.bits {
                Some(b) => b as int,
                None => max_end(self.fields@),
            }),
    {
        let required = self.required_repr_bits();
        match self.top_level.bits {
            Some(b) => b,
            None => required,
        }
    }

    /// Working out the holding type does not panic.
    pub open spec fn repr_bits_ok(self) -> bool {
        &&& ends_ok(self.fields@)
        &&& self.top_level.repr_bits_ok()
        &&& self.top_level.spec_repr_bits() is None ==> max_end(self.fields@) < 128
    }

    /// The holding type: the one asked for, refused where it is narrower than
    /// the highest field end; else the narrowest primitive type wider than it.
    pub open spec fn spec_repr_bits(self) -> Result<CoreBits, StructError> {
        let required = max_end(self.fields@);
        match self.top_level.spec_repr_bits() {
            Some(explicit) => if required > explicit.width() {
                Err(
                    StructError::ReprTooSmall {
                        explicit: explicit.width(),
                        required: required as u32,
                    },
                )
            } else {
                Ok(explicit)
            },
            None => Ok(CoreBits::spec_from(required as u32)),
        }
    }

    /// The primitive type that holds the packed word.
    pub fn repr_bits(&self) -> (r: Result<CoreBits, StructError>)
        requires
            self.repr_bits_ok(),
        ensures
            r == self.spec_repr_bits(),
    {
        let required = self.required_repr_bits();
        if let Some(explicit_bits) = self.top_level.repr_bits() {
            let explicit_bits_val = u32::from(explicit_bits);
            if required > explicit_bits_val {
                return Err(
                    StructError::ReprTooSmall { explicit: explicit_bits_val, required: required },
                );
            }
            Ok(explicit_bits)
        } else {
            Ok(CoreBits::from(required))
        }
    }
}

/// What the accessors of one field are made from: the field's bits, their
/// mask, the type they are read through, and whether that reading may fail.
#[derive(Debug, Clone, Copy, PartialEq, Eq, Structural)]
pub struct FieldPlan {
    pub start: u32,
    pub end: u32,
    pub width: u32,
    /// The low `width` bits set.
    pub mask: u128,
    /// The type the bits are read through: `u{width}`.
    pub field_type: IntPath,
    /// The bits are read as a primitive integer (else through a bounded one).
    pub is_core: bool,
    /// The field is read with `TryFromBits` (else with `FromBits`).
    pub falliable: bool,
}

/// The accessors of a field can be planned without the arithmetic failing.
pub open spec fn field_plan_ok(attr: FieldAttr) -> bool {
    &&& attr.bits.range_ok()
    &&& attr.bits.spec_start() <= attr.bits.spec_end()
    &&& attr.bits.spec_end() - attr.bits.spec_start() < 128
}

/// The plan of a field's accessors.
pub open spec fn spec_field_plan(attr: FieldAttr) -> FieldPlan {
    let start = attr.bits.spec_start();
    let end = attr.bits.spec_end() as u32;
    let width = (end - start) as u32;
    FieldPlan {
        start,
        end,
        width,
        mask: mask_of(width),
        field_type: IntPath { core: is_core_width(width), width },
        is_core: is_core_width(width),
        falliable: attr.falliable,
    }
}

impl Field {
    /// Plans the accessors of the field.
    pub fn codegen_with_repr(&self) -> (r: FieldPlan)
        requires
            field_plan_ok(self.attr),
        ensures
            r == spec_field_plan(self.attr),
            r.mask as nat == pow2(r.width as nat) - 1,
    {
        let range = self.attr.bits.range();
        let start = range.start;
        let end = range.end;
        let n_bits = end - start;
        proof {
            lemma_shl_one_u128(n_bits as u128);
        }
        let mask_val: u128 = (1u128 << (n_bits as u128)) - 1;
        let field_type = bitwidth_to_type(n_bits);
        let is_core = n_bits == 8 || n_bits == 16 || n_bits == 32 || n_bits == 64 || n_bits == 128;
        FieldPlan {
            start,
            end,
            width: n_bits,
            mask: mask_val,
            field_type,
            is_core,
            falliable: self.attr.falliable,
        }
    }
}

/// What the code made for a struct is built from.
#[derive(Debug, Clone)]
pub struct StructPlan {
    /// The primitive type that holds the packed word.
    pub repr: CoreBits,
    /// The width of the struct's bit pattern.
    pub min_bits: u32,
    /// The type of the struct's bit pattern: `u{min_bits}`.
    pub min_type: IntPath,
    /// The accessors of each field, in the order of the fields.
    pub fields: Vec<FieldPlan>,
}

/// How planning a field fails: its end cannot be formed, its end is before
/// its start, or its mask cannot be formed.
pub open spec fn field_plan_panic(attr: FieldAttr) -> Panic {
    if !attr.bits.range_ok() {
        Panic::AddOverflow
    } else if attr.bits.spec_end() < attr.bits.spec_start() {
        Panic::SubOverflow
    } else {
        Panic::ShlOverflow
    }
}

/// `i` is the first field whose accessors cannot be planned.
pub open spec fn is_first_bad_field(fields: Seq<Field>, i: int) -> bool {
    &&& 0 <= i < fields.len()
    &&& !field_plan_ok(fields[i].attr)
    &&& forall|j: int| 0 <= j < i ==> field_plan_ok((#[trigger] fields[j]).attr)
}

/// The accessors of every field can be planned.
pub open spec fn all_field_plans_ok(fields: Seq<Field>) -> bool {
    forall|i: int| 0 <= i < fields.len() ==> field_plan_ok((#[trigger] fields[i]).attr)
}

/// The plan made for the struct, once its holding type `repr` is known.
pub open spec fn plan_matches(plan: StructPlan, input: ParsedInput, repr: CoreBits) -> bool {
    let min_bits = match input.top_level.bits {
        Some(b) => b as int,
        None => max_end(input.fields@),
    };
    &&& plan.repr == repr
    &&& plan.min_bits == min_bits
    &&& plan.min_type == (IntPath { core: is_core_width(plan.min_bits), width: plan.min_bits })
    &&& plan.fields@.len() == input.fields@.len()
    &&& forall|i: int|
        0 <= i < input.fields@.len() ==> plan.fields@[i] == spec_field_plan(
            (#[trigger] input.fields@[i]).attr,
        )
}

/// What `codegen` gives for `input`: a panic where the field ends cannot be
/// formed or the holding type cannot be worked out; the refusal of the
/// holding type; a panic for the first field whose accessors cannot be
/// planned; else the plan.
pub open spec fn codegen_post(input: ParsedInput, r: Result<StructPlan, StructError>) -> bool {
    &&& !ends_ok(input.fields@) ==> r == Err::<StructPlan, StructError>(
        StructError::Panic(Panic::AddOverflow),
    )
    &&& ends_ok(input.fields@) && !input.repr_bits_ok() ==> r == Err::<StructPlan, StructError>(
        StructError::Panic(Panic::InvalidCoreType),
    )
    &&& input.repr_bits_ok() ==> match input.spec_repr_bits() {
        Err(e) => r == Err::<StructPlan, StructError>(e),
        Ok(repr) => {
            &&& forall|i: int|
                is_first_bad_field(input.fields@, i) ==> r == Err::<StructPlan, StructError>(
                    StructError::Panic(field_plan_panic(input.fields@[i].attr)),
                )
            &&& all_field_plans_ok(input.fields@) ==> (r matches Ok(plan) && plan_matches(
                plan,
                input,
                repr,
            ))
        },
    }
}

impl BitsAttrVal {
    fn end_fits(&self) -> (r: bool)
        ensures
            r == self.range_ok(),
    {
        match self {
            BitsAttrVal::Bit(bit) => *bit < u32::MAX,
            BitsAttrVal::Bits { .. } => true,
        }
    }
}

fn field_plan_check(attr: &FieldAttr) -> (r: Option<Panic>)
    ensures
        r == (if field_plan_ok(*attr) {
            None
        } else {
            Some(field_plan_panic(*attr))
        }),
{
    if !attr.bits.end_fits() {
        return Some(Panic::AddOverflow);
    }
    let range = attr.bits.range();
    if range.end < range.start {
        return Some(Panic::SubOverflow);
    }
    if range.end - range.start >= 128 {
        return Some(Panic::ShlOverflow);
    }
    None
}

impl ParsedInput {
    /// Plans the code made for the struct: its holding type, the type of its
    /// bit pattern and the accessors of each field. Where the arithmetic of
    /// the attribute would fail, says how.
    pub fn codegen(&self) -> (r: Result<StructPlan, StructError>)
        ensures
            codegen_post(*self, r),
    {
        let mut k: usize = 0;
        while k < self.fields.len()
            invariant
                k <= self.fields@.len(),
                forall|j: int| 0 <= j < k ==> (#[trigger] self.fields@[j]).attr.bits.range_ok(),
            decreases self.fields@.len() - k,
        {
            if !self.fields[k].attr.bits.end_fits() {
                return Err(StructError::Panic(Panic::AddOverflow));
            }
            k = k + 1;
        }
        if let Some(b) = self.top_level.bits {
            if b >= 128 {
                return Err(StructError::Panic(Panic::InvalidCoreType));
            }
        }
        if self.top_level.repr_bits.is_none() && self.top_level.bits.is_none() {
            if self.required_repr_bits() >= 128 {
                return Err(StructError::Panic(Panic::InvalidCoreType));
            }
        }
        let repr_type = match self.repr_bits() {
            Ok(c) => c,
            Err(e) => {
                return Err(e);
            },
        };
        let min_bits = self.min_bits();
        let min_type = bitwidth_to_type(min_bits);
        let mut functions: Vec<FieldPlan> = Vec::new();
        let mut i: usize = 0;
        while i < self.fields.len()
            invariant
                i <= self.fields@.len(),
                functions@.len() == i,
                ends_ok(self.fields@),
                self.repr_bits_ok(),
                self.spec_repr_bits() == Ok::<CoreBits, StructError>(repr_type),
                forall|j: int| 0 <= j < i ==> field_plan_ok((#[trigger] self.fields@[j]).attr),
                forall|j: int|
                    0 <= j < i ==> functions@[j] == spec_field_plan((#[trigger] self.fields@[j]).attr),
            decreases self.fields@.len() - i,
        {
            match field_plan_check(&self.fields[i].attr) {
                Some(p) => {
                    assert(is_first_bad_field(self.fields@, i as int));
                    assert forall|m: int| is_first_bad_field(self.fields@, m) implies m == i by {
                        if m < i {
                            assert(field_plan_ok(self.fields@[m].attr));
                        }
                        if m > i {
                            assert(field_plan_ok(self.fields@[i as int].attr));
                        }
                    }
                    return Err(StructError::Panic(p));
                },
                None => {},
            }
            let plan = self.fields[i].codegen_with_repr();
            functions.push(plan);
            i = i + 1;
        }
        assert forall|m: int| !is_first_bad_field(self.fields@, m) by {
            if 0 <= m < self.fields@.len() {
                assert(field_plan_ok(self.fields@[m].attr));
            }
        }
        Ok(StructPlan { repr: repr_type, min_bits, min_type, fields: functions })
    }
}

/// What has been read of a field's attributes so far: its bits and whether it
/// is read through `TryFromBits`.
pub type FieldScan = (Option<BitsAttrVal>, bool);

/// The bits that `bits = start..end` (or `start..=end` where `closed`) gives,
/// or why it is refused.
pub open spec fn spec_range_bits(
    start: RangeEnd,
    end: RangeEnd,
    closed: bool,
    attr: usize,
    meta: usize,
) -> Result<BitsAttrVal, FieldError> {
    if start is Missing || end is Missing {
        Err(FieldError::OpenRange { attr, meta })
    } else if start is Other {
        Err(FieldError::StartNotInt { attr, meta })
    } else if end is Other {
        Err(FieldError::EndNotInt { attr, meta })
    } else {
        match (start, end) {
            (RangeEnd::Int(Some(a)), RangeEnd::Int(Some(b))) => if a >= b {
                Err(FieldError::EmptyRange { attr, meta })
            } else if closed {
                if b == u32::MAX {
                    Err(FieldError::Panic(Panic::AddOverflow))
                } else {
                    Ok(BitsAttrVal::Bits { start: a, end_exclusive: (b + 1) as u32 })
                }
            } else {
                Ok(BitsAttrVal::Bits { start: a, end_exclusive: b })
            },
            (RangeEnd::Int(None), _) => Err(FieldError::BadInt { attr, meta, place: IntPlace::Start }),
            _ => Err(FieldError::BadInt { attr, meta, place: IntPlace::End }),
        }
    }
}

/// Reading item `meta` of the field's attribute `attr`.
pub open spec fn spec_field_meta(st: FieldScan, m: Meta, attr: usize, meta: usize) -> Result<
    FieldScan,
    FieldError,
> {
    if m.ident is None {
        Err(FieldError::NotIdent { attr, meta })
    } else if ident_is(m.ident, "bit"@) {
        if st.0 is Some {
            Err(FieldError::DuplicateBits { attr, meta })
        } else {
            match m.kind {
                MetaKind::NameValue(MetaValue::Int(Some(bit))) => Ok(
                    (Some(BitsAttrVal::Bit(bit)), st.1),
                ),
                MetaKind::NameValue(MetaValue::Int(None)) => Err(
                    FieldError::BadInt { attr, meta, place: IntPlace::Value },
                ),
                _ => Ok(st),
            }
        }
    } else if ident_is(m.ident, "bits"@) {
        if st.0 is Some {
            Err(FieldError::DuplicateBits { attr, meta })
        } else {
            match m.kind {
                MetaKind::NameValue(MetaValue::Range { start, end, closed }) => match spec_range_bits(
                    start,
                    end,
                    closed,
                    attr,
                    meta,
                ) {
                    Ok(bits) => Ok((Some(bits), st.1)),
                    Err(e) => Err(e),
                },
                _ => Ok(st),
            }
        }
    } else if ident_is(m.ident, "falliable"@) {
        Ok((st.0, true))
    } else {
        Err(FieldError::Unknown { attr, meta })
    }
}

/// Reading the first `n` items of the field's attribute `attr`.
pub open spec fn spec_field_metas(st: FieldScan, metas: Seq<Meta>, attr: usize, n: nat) -> Result<
    FieldScan,
    FieldError,
>
    decreases n,
{
    if n == 0 {
        Ok(st)
    } else {
        match spec_field_metas(st, metas, attr, (n - 1) as nat) {
            Ok(st2) => spec_field_meta(st2, metas[n - 1], attr, (n - 1) as usize),
            Err(e) => Err(e),
        }
    }
}

/// Reading the first `n` attributes of a field: a `bitstuff` attribute is
/// read item by item, any other is kept aside.
pub open spec fn spec_field_attrs(attrs: Seq<Attribute>, n: nat) -> Result<
    (FieldScan, Seq<usize>),
    FieldError,
>
    decreases n,
{
    if n == 0 {
        Ok(((None, false), Seq::empty()))
    } else {
        match spec_field_attrs(attrs, (n - 1) as nat) {
            Ok((st, other)) => {
                let a = attrs[n - 1];
                if !ident_is(a.ident, "bitstuff"@) {
                    Ok((st, other.push((n - 1) as usize)))
                } else {
                    match a.args {
                        None => Err(FieldError::AttrUnparsable { attr: (n - 1) as usize }),
                        Some(metas) => match spec_field_metas(
                            st,
                            metas@,
                            (n - 1) as usize,
                            metas@.len(),
                        ) {
                            Ok(st2) => Ok((st2, other)),
                            Err(e) => Err(e),
                        },
                    }
                }
            },
            Err(e) => Err(e),
        }
    }
}

/// What a field's attributes give: its bits, whether it is read through
/// `TryFromBits` and its other attributes; refused without `bit` or `bits`.
pub open spec fn spec_field_attr(attrs: Seq<Attribute>) -> Result<
    (BitsAttrVal, bool, Seq<usize>),
    FieldError,
> {
    match spec_field_attrs(attrs, attrs.len()) {
        Ok(((Some(bits), falliable), other)) => Ok((bits, falliable, other)),
        Ok(((None, _), _)) => Err(FieldError::MissingBits),
        Err(e) => Err(e),
    }
}

/// Some item among the first `n` of a list is `falliable`.
pub open spec fn has_falliable_item(metas: Seq<Meta>, n: int) -> bool {
    exists|j: int| 0 <= j < n && ident_is((#[trigger] metas[j]).ident, "falliable"@)
}

/// Some `bitstuff` attribute among the first `n` has a `falliable` item.
pub open spec fn has_falliable(attrs: Seq<Attribute>, n: int) -> bool {
    exists|i: int|
        0 <= i < n && ident_is((#[trigger] attrs[i]).ident, "bitstuff"@) && (attrs[i].args matches Some(
            ms,
        ) && has_falliable_item(ms@, ms@.len() as int))
}

/// The bits a field's attributes give start before they end.
pub open spec fn bits_nonempty(bits: Option<BitsAttrVal>) -> bool {
    bits matches Some(b) ==> b.spec_start() < b.spec_end()
}

/// `other` lists, in increasing order, exactly the positions below `n` of
/// the attributes that are not `bitstuff`.
pub open spec fn other_positions(attrs: Seq<Attribute>, n: int, other: Seq<usize>) -> bool {
    &&& forall|k: int|
        0 <= k < other.len() ==> (#[trigger] other[k]) < n && !ident_is(
            attrs[other[k] as int].ident,
            "bitstuff"@,
        )
    &&& forall|k1: int, k2: int| 0 <= k1 < k2 < other.len() ==> other[k1] < other[k2]
    &&& forall|i: int|
        0 <= i < n && !ident_is((#[trigger] attrs[i]).ident, "bitstuff"@) ==> other.contains(
            i as usize,
        )
}

proof fn lemma_field_metas_facts(st: FieldScan, metas: Seq<Meta>, attr: usize, n: nat)
    requires
        n <= metas.len(),
        spec_field_metas(st, metas, attr, n) is Ok,
        bits_nonempty(st.0),
    ensures
        bits_nonempty(spec_field_metas(st, metas, attr, n)->Ok_0.0),
        spec_field_metas(st, metas, attr, n)->Ok_0.1 <==> (st.1 || has_falliable_item(
            metas,
            n as int,
        )),
    decreases n,
{
    reveal_strlit("bit");
    reveal_strlit("bits");
    reveal_strlit("falliable");
    assert("bit"@.len() == 3 && "bits"@.len() == 4 && "falliable"@.len() == 9);
    assert("bit"@ != "falliable"@);
    assert("bits"@ != "falliable"@);
    if n > 0 {
        let prev = spec_field_metas(st, metas, attr, (n - 1) as nat);
        lemma_field_metas_facts(st, metas, attr, (n - 1) as nat);
        let m = metas[n - 1];
        let next = spec_field_metas(st, metas, attr, n)->Ok_0;
        assert(next == spec_field_meta(prev->Ok_0, m, attr, (n - 1) as usize)->Ok_0);
        if !ident_is(m.ident, "falliable"@) {
            assert(next.1 == prev->Ok_0.1);
        }
        if ident_is(m.ident, "falliable"@) {
            assert(has_falliable_item(metas, n as int));
        } else {
            if has_falliable_item(metas, n as int) {
                let j = choose|j: int| 0 <= j < n && ident_is((#[trigger] metas[j]).ident, "falliable"@);
                assert(j < n - 1);
                assert(has_falliable_item(metas, n - 1));
            }
            if has_falliable_item(metas, n - 1) {
                let j = choose|j: int| 0 <= j < n - 1 && ident_is((#[trigger] metas[j]).ident, "falliable"@);
                assert(has_falliable_item(metas, n as int));
            }
        }
    }
}

proof fn lemma_field_attrs_facts(attrs: Seq<Attribute>, n: nat)
    requires
        n <= attrs.len(),
        attrs.len() <= usize::MAX,
        spec_field_attrs(attrs, n) is Ok,
    ensures
        bits_nonempty(spec_field_attrs(attrs, n)->Ok_0.0.0),
        spec_field_attrs(attrs, n)->Ok_0.0.1 <==> has_falliable(attrs, n as int),
        other_positions(attrs, n as int, spec_field_attrs(attrs, n)->Ok_0.1),
    decreases n,
{
    if n > 0 {
        lemma_field_attrs_facts(attrs, (n - 1) as nat);
        let (st, other) = spec_field_attrs(attrs, (n - 1) as nat)->Ok_0;
        let a = attrs[n - 1];
        let (st2, other2) = spec_field_attrs(attrs, n)->Ok_0;
        if !ident_is(a.ident, "bitstuff"@) {
            assert(other2 == other.push((n - 1) as usize));
            assert(st2 == st);
            assert forall|i: int|
                0 <= i < n && !ident_is((#[trigger] attrs[i]).ident, "bitstuff"@) implies other2.contains(
                i as usize,
            ) by {
                if i < n - 1 {
                    assert(other.contains(i as usize));
                    let k = choose|k: int| 0 <= k < other.len() && other[k] == i as usize;
                    assert(other2[k] == i as usize);
                } else {
                    assert(other2[other.len() as int] == i as usize);
                }
            }
            if has_falliable(attrs, n as int) {
                let i = choose|i: int|
                    0 <= i < n && ident_is((#[trigger] attrs[i]).ident, "bitstuff"@) && (
                    attrs[i].args matches Some(ms) && has_falliable_item(ms@, ms@.len() as int));
                assert(i < n - 1);
                assert(has_falliable(attrs, n - 1));
            }
            if has_falliable(attrs, n - 1) {
                let i = choose|i: int|
                    0 <= i < n - 1 && ident_is((#[trigger] attrs[i]).ident, "bitstuff"@) && (
                    attrs[i].args matches Some(ms) && has_falliable_item(ms@, ms@.len() as int));
                assert(has_falliable(attrs, n as int));
            }
        } else {
            let metas = a.args->Some_0;
            lemma_field_metas_facts(st, metas@, (n - 1) as usize, metas@.len());
            assert(other2 == other);
            assert forall|i: int|
                0 <= i < n && !ident_is((#[trigger] attrs[i]).ident, "bitstuff"@) implies other2.contains(
                i as usize,
            ) by {
                assert(i < n - 1);
            }
            if has_falliable_item(metas@, metas@.len() as int) {
                assert(has_falliable(attrs, n as int));
            }
            if has_falliable(attrs, n as int) && !has_falliable_item(metas@, metas@.len() as int) {
                let i = choose|i: int|
                    0 <= i < n && ident_is((#[trigger] attrs[i]).ident, "bitstuff"@) && (
                    attrs[i].args matches Some(ms) && has_falliable_item(ms@, ms@.len() as int));
                assert(i < n - 1);
                assert(has_falliable(attrs, n - 1));
            }
            if has_falliable(attrs, n - 1) {
                let i = choose|i: int|
                    0 <= i < n - 1 && ident_is((#[trigger] attrs[i]).ident, "bitstuff"@) && (
                    attrs[i].args matches Some(ms) && has_falliable_item(ms@, ms@.len() as int));
                assert(has_falliable(attrs, n as int));
            }
        }
    }
}

/// What a field's attributes give, when they are read without error: bits that
/// start before they end; a field read through `TryFromBits` exactly when some
/// `bitstuff` attribute has a `falliable` item; and, in their order, exactly the
/// positions of the attributes that are not `bitstuff`.
pub proof fn lemma_field_attr_facts(attrs: Seq<Attribute>)
    requires
        attrs.len() <= usize::MAX,
        spec_field_attr(attrs) is Ok,
    ensures
        spec_field_attr(attrs)->Ok_0.0.spec_start() < spec_field_attr(attrs)->Ok_0.0.spec_end(),
        spec_field_attr(attrs)->Ok_0.1 <==> has_falliable(attrs, attrs.len() as int),
        other_positions(attrs, attrs.len() as int, spec_field_attr(attrs)->Ok_0.2),
{
    lemma_field_attrs_facts(attrs, attrs.len());
}

/// A field as written: whether it has a name, and its attributes.
#[derive(Debug, Clone)]
pub struct FieldInput {
    pub named: bool,
    pub attrs: Vec<Attribute>,
}

/// `attr` is what `spec` describes.
pub open spec fn field_attr_is(attr: FieldAttr, spec: (BitsAttrVal, bool, Seq<usize>)) -> bool {
    attr.bits == spec.0 && attr.falliable == spec.1 && attr.other@ == spec.2
}

fn range_bits(start: RangeEnd, end: RangeEnd, closed: bool, attr: usize, meta: usize) -> (r: Result<
    BitsAttrVal,
    FieldError,
>)
    ensures
        r == spec_range_bits(start, end, closed, attr, meta),
{
    if matches!(start, RangeEnd::Missing) || matches!(end, RangeEnd::Missing) {
        return Err(FieldError::OpenRange { attr, meta });
    }
    let a = match start {
        RangeEnd::Int(a) => a,
        _ => {
            return Err(FieldError::StartNotInt { attr, meta });
        },
    };
    let b = match end {
        RangeEnd::Int(b) => b,
        _ => {
            return Err(FieldError::EndNotInt { attr, meta });
        },
    };
    let start = match a {
        Some(a) => a,
        None => {
            return Err(FieldError::BadInt { attr, meta, place: IntPlace::Start });
        },
    };
    let mut end = match b {
        Some(b) => b,
        None => {
            return Err(FieldError::BadInt { attr, meta, place: IntPlace::End });
        },
    };
    if start >= end {
        return Err(FieldError::EmptyRange { attr, meta });
    }
    if closed {
        if end == u32::MAX {
            return Err(FieldError::Panic(Panic::AddOverflow));
        }
        end += 1;
    }
    Ok(BitsAttrVal::Bits { start, end_exclusive: end })
}

fn field_meta(st: FieldScan, m: &Meta, attr: usize, meta: usize) -> (r: Result<FieldScan, FieldError>)
    ensures
        r == spec_field_meta(st, *m, attr, meta),
{
    if m.ident.is_none() {
        return Err(FieldError::NotIdent { attr, meta });
    }
    if ident_eq(&m.ident, "bit") {
        if st.0.is_some() {
            return Err(FieldError::DuplicateBits { attr, meta });
        }
        match &m.kind {
            MetaKind::NameValue(MetaValue::Int(Some(bit))) => Ok((Some(BitsAttrVal::Bit(*bit)), st.1)),
            MetaKind::NameValue(MetaValue::Int(None)) => Err(
                FieldError::BadInt { attr, meta, place: IntPlace::Value },
            ),
            _ => Ok(st),
        }
    } else if ident_eq(&m.ident, "bits") {
        if st.0.is_some() {
            return Err(FieldError::DuplicateBits { attr, meta });
        }
        match &m.kind {
            MetaKind::NameValue(MetaValue::Range { start, end, closed }) => match range_bits(
                *start,
                *end,
                *closed,
                attr,
                meta,
            ) {
                Ok(bits) => Ok((Some(bits), st.1)),
                Err(e) => Err(e),
            },
            _ => Ok(st),
        }
    } else if ident_eq(&m.ident, "falliable") {
        Ok((st.0, true))
    } else {
        Err(FieldError::Unknown { attr, meta })
    }
}

/// Reads a field's attributes.
pub fn parse_field_macro_args(field: &FieldInput) -> (r: Result<FieldAttr, FieldError>)
    ensures
        match spec_field_attr(field.attrs@) {
            Ok(spec) => r matches Ok(attr) && field_attr_is(attr, spec),
            Err(e) => r == Err::<FieldAttr, FieldError>(e),
        },
{
    let mut st: FieldScan = (None, false);
    let mut other_attrs: Vec<usize> = Vec::new();
    let mut i: usize = 0;
    while i < field.attrs.len()
        invariant
            i <= field.attrs@.len(),
            spec_field_attrs(field.attrs@, i as nat) == Ok::<(FieldScan, Seq<usize>), FieldError>(
                (st, other_attrs@),
            ),
        decreases field.attrs@.len() - i,
    {
        let attr = &field.attrs[i];
        if !ident_eq(&attr.ident, "bitstuff") {
            other_attrs.push(i);
        } else {
            match &attr.args {
                None => {
                    proof {
                        lemma_field_attrs_stop(field.attrs@, (i + 1) as nat);
                    }
                    return Err(FieldError::AttrUnparsable { attr: i });
                },
                Some(metas) => {
                    let ghost st0 = st;
                    let mut j: usize = 0;
                    while j < metas.len()
                        invariant
                            j <= metas@.len(),
                            i < field.attrs@.len(),
                            spec_field_attrs(field.attrs@, i as nat) == Ok::<
                                (FieldScan, Seq<usize>),
                                FieldError,
                            >((st0, other_attrs@)),
                            ident_is(field.attrs@[i as int].ident, "bitstuff"@),
                            field.attrs@[i as int].args == Some(*metas),
                            spec_field_metas(st0, metas@, i, j as nat) == Ok::<
                                FieldScan,
                                FieldError,
                            >(st),
                        decreases metas@.len() - j,
                    {
                        match field_meta(st, &metas[j], i, j) {
                            Ok(next) => {
                                st = next;
                            },
                            Err(e) => {
                                assert(spec_field_metas(st0, metas@, i, metas@.len()) == Err::<
                                    FieldScan,
                                    FieldError,
                                >(e)) by {
                                    lemma_field_metas_stop(st0, metas@, i, (j + 1) as nat);
                                }
                                proof {
                                    lemma_field_attrs_stop(field.attrs@, (i + 1) as nat);
                                }
                                return Err(e);
                            },
                        }
                        j = j + 1;
                    }
                },
            }
        }
        i = i + 1;
    }
    match st.0 {
        Some(bits) => Ok(FieldAttr { bits, falliable: st.1, other: other_attrs }),
        None => Err(FieldError::MissingBits),
    }
}

/// Once reading a field's attributes fails, reading more of them fails the same way.
proof fn lemma_field_attrs_stop(attrs: Seq<Attribute>, n: nat)
    requires
        n <= attrs.len(),
        spec_field_attrs(attrs, n) is Err,
    ensures
        spec_field_attrs(attrs, attrs.len()) == spec_field_attrs(attrs, n),
    decreases attrs.len() - n,
{
    if n < attrs.len() {
        lemma_field_attrs_stop(attrs, n + 1);
    }
}

/// Once reading a field's items fails, reading more of them fails the same way.
proof fn lemma_field_metas_stop(st: FieldScan, metas: Seq<Meta>, attr: usize, n: nat)
    requires
        n <= metas.len(),
        spec_field_metas(st, metas, attr, n) is Err,
    ensures
        spec_field_metas(st, metas, attr, metas.len()) == spec_field_metas(st, metas, attr, n),
    decreases metas.len() - n,
{
    if n < metas.len() {
        lemma_field_metas_stop(st, metas, attr, n + 1);
    }
}

/// Recording the width `bits`.
pub open spec fn spec_set_bits(st: StructAttr, bits: u32) -> Result<StructAttr, StructError> {
    if st.bits is Some {
        Err(StructError::DuplicateBits)
    } else {
        Ok(StructAttr { bits: Some(bits), ..st })
    }
}

/// Recording the holding type `repr`.
pub open spec fn spec_set_repr(st: StructAttr, repr: CoreBits) -> Result<StructAttr, StructError> {
    if st.repr_bits is Some {
        Err(StructError::DuplicateRepr)
    } else {
        Ok(StructAttr { repr_bits: Some(repr), ..st })
    }
}

/// The primitive type named `name`.
pub open spec fn core_of_name(name: Seq<char>) -> Option<CoreBits> {
    if name == "u8"@ {
        Some(CoreBits::U8)
    } else if name == "u16"@ {
        Some(CoreBits::U16)
    } else if name == "u32"@ {
        Some(CoreBits::U32)
    } else if name == "u64"@ {
        Some(CoreBits::U64)
    } else if name == "u128"@ {
        Some(CoreBits::U128)
    } else {
        None
    }
}

/// The primitive type of exactly `width` bits.
pub open spec fn core_of_width(width: u32) -> Option<CoreBits> {
    if width == 8 {
        Some(CoreBits::U8)
    } else if width == 16 {
        Some(CoreBits::U16)
    } else if width == 32 {
        Some(CoreBits::U32)
    } else if width == 64 {
        Some(CoreBits::U64)
    } else if width == 128 {
        Some(CoreBits::U128)
    } else {
        None
    }
}

/// Reading argument `arg` of the attribute on the struct.
pub open spec fn spec_struct_arg(st: StructAttr, m: Meta, arg: usize) -> Result<
    StructAttr,
    StructError,
> {
    match m.ident {
        None => Err(StructError::ArgNotIdent { arg }),
        Some(id) => if id@ == "bits"@ {
            match m.kind {
                MetaKind::NameValue(MetaValue::Int(Some(bits))) => spec_set_bits(st, bits),
                MetaKind::NameValue(MetaValue::Int(None)) => Err(StructError::BadInt { arg }),
                MetaKind::NameValue(_) => Err(StructError::BitsNotInt { arg }),
                _ => Err(StructError::BitsNotNameValue { arg }),
            }
        } else if id@ == "repr"@ {
            match m.kind {
                MetaKind::NameValue(MetaValue::Path(Some(name))) => match core_of_name(name@) {
                    Some(repr) => spec_set_repr(st, repr),
                    None => Err(StructError::ReprUnknown { arg }),
                },
                MetaKind::NameValue(_) => Err(StructError::ReprNotPath { arg }),
                _ => Err(StructError::ReprNotNameValue { arg }),
            }
        } else if id@.len() > 0 && id@[0] == 'u' {
            match parse_u32_spec(id@.drop_first()) {
                None => Err(StructError::ShorthandNotInt { arg }),
                Some(bits) => match spec_set_bits(st, bits) {
                    Err(e) => Err(e),
                    Ok(st2) => match core_of_width(bits) {
                        Some(repr) => spec_set_repr(st2, repr),
                        None => Err(StructError::ShorthandNotCore { arg }),
                    },
                },
            }
        } else {
            Err(StructError::UnknownArg { arg })
        },
    }
}

/// Reading the first `n` arguments of the attribute on the struct.
pub open spec fn spec_struct_args(metas: Seq<Meta>, n: nat) -> Result<StructAttr, StructError>
    decreases n,
{
    if n == 0 {
        Ok(StructAttr { bits: None, repr_bits: None })
    } else {
        match spec_struct_args(metas, (n - 1) as nat) {
            Ok(st) => spec_struct_arg(st, metas[n - 1], (n - 1) as usize),
            Err(e) => Err(e),
        }
    }
}

/// What the attribute's arguments give; refused where they are not a list of meta items.
pub open spec fn spec_struct_macro_args(args: Option<Vec<Meta>>) -> Result<StructAttr, StructError> {
    match args {
        None => Err(StructError::ArgsUnparsable),
        Some(metas) => spec_struct_args(metas@, metas@.len()),
    }
}

fn core_named(name: &str) -> (r: Option<CoreBits>)
    ensures
        r == core_of_name(name@),
{
    if str_eq(name, "u8") {
        Some(CoreBits::U8)
    } else if str_eq(name, "u16") {
        Some(CoreBits::U16)
    } else if str_eq(name, "u32") {
        Some(CoreBits::U32)
    } else if str_eq(name, "u64") {
        Some(CoreBits::U64)
    } else if str_eq(name, "u128") {
        Some(CoreBits::U128)
    } else {
        None
    }
}

fn struct_arg(st: StructAttr, m: &Meta, arg: usize) -> (r: Result<StructAttr, StructError>)
    ensures
        r == spec_struct_arg(st, *m, arg),
{
    let mut struct_attr = st;
    let ident = match &m.ident {
        Some(ident) => ident.as_str(),
        None => {
            return Err(StructError::ArgNotIdent { arg });
        },
    };
    if str_eq(ident, "bits") {
        let value = match &m.kind {
            MetaKind::NameValue(value) => value,
            _ => {
                return Err(StructError::BitsNotNameValue { arg });
            },
        };
        let bits = match value {
            MetaValue::Int(Some(bits)) => *bits,
            MetaValue::Int(None) => {
                return Err(StructError::BadInt { arg });
            },
            _ => {
                return Err(StructError::BitsNotInt { arg });
            },
        };
        match struct_attr.try_set_bits(bits) {
            Ok(()) => Ok(struct_attr),
            Err(e) => Err(e),
        }
    } else if str_eq(ident, "repr") {
        let value = match &m.kind {
            MetaKind::NameValue(value) => value,
            _ => {
                return Err(StructError::ReprNotNameValue { arg });
            },
        };
        let name = match value {
            MetaValue::Path(Some(name)) => name.as_str(),
            _ => {
                return Err(StructError::ReprNotPath { arg });
            },
        };
        let repr = match core_named(name) {
            Some(repr) => repr,
            None => {
                return Err(StructError::ReprUnknown { arg });
            },
        };
        match struct_attr.try_set_repr_bits(repr) {
            Ok(()) => Ok(struct_attr),
            Err(e) => Err(e),
        }
    } else if ident.unicode_len() > 0 && ident.get_char(0) == 'u' {
        let bits = match parse_u32(ident, 1) {
            Some(bits) => bits,
            None => {
                assert(ident@.subrange(1, ident@.len() as int) =~= ident@.drop_first());
                return Err(StructError::ShorthandNotInt { arg });
            },
        };
        assert(ident@.subrange(1, ident@.len() as int) =~= ident@.drop_first());
        match struct_attr.try_set_bits(bits) {
            Ok(()) => {},
            Err(e) => {
                return Err(e);
            },
        }
        let repr = if bits == 8 {
            CoreBits::U8
        } else if bits == 16 {
            CoreBits::U16
        } else if bits == 32 {
            CoreBits::U32
        } else if bits == 64 {
            CoreBits::U64
        } else if bits == 128 {
            CoreBits::U128
        } else {
            return Err(StructError::ShorthandNotCore { arg });
        };
        match struct_attr.try_set_repr_bits(repr) {
            Ok(()) => Ok(struct_attr),
            Err(e) => Err(e),
        }
    } else {
        Err(StructError::UnknownArg { arg })
    }
}

/// Once reading the struct's arguments fails, reading more of them fails the same way.
proof fn lemma_struct_args_stop(metas: Seq<Meta>, n: nat)
    requires
        n <= metas.len(),
        spec_struct_args(metas, n) is Err,
    ensures
        spec_struct_args(metas, metas.len()) == spec_struct_args(metas, n),
    decreases metas.len() - n,
{
    if n < metas.len() {
        lemma_struct_args_stop(metas, n + 1);
    }
}

/// Reads the arguments of the attribute on the struct.
pub fn parse_struct_macro_args(args: &Option<Vec<Meta>>) -> (r: Result<StructAttr, StructError>)
    ensures
        r == spec_struct_macro_args(*args),
{
    let metas = match args {
        Some(metas) => metas,
        None => {
            return Err(StructError::ArgsUnparsable);
        },
    };
    let mut struct_attr = StructAttr { bits: None, repr_bits: None };
    let mut i: usize = 0;
    while i < metas.len()
        invariant
            i <= metas@.len(),
            spec_struct_args(metas@, i as nat) == Ok::<StructAttr, StructError>(struct_attr),
            *args == Some(*metas),
        decreases metas@.len() - i,
    {
        match struct_arg(struct_attr, &metas[i], i) {
            Ok(next) => {
                struct_attr = next;
            },
            Err(e) => {
                proof {
                    lemma_struct_args_stop(metas@, (i + 1) as nat);
                }
                return Err(e);
            },
        }
        i = i + 1;
    }
    Ok(struct_attr)
}

/// Where the struct is planned, every field ends inside the holding type, and
/// its accessors read and write inside a 128-bit word.
pub proof fn lemma_planned_fields_fit(input: ParsedInput, plan: StructPlan, repr: CoreBits)
    requires
        input.repr_bits_ok(),
        input.spec_repr_bits() == Ok::<CoreBits, StructError>(repr),
        all_field_plans_ok(input.fields@),
        plan_matches(plan, input, repr),
    ensures
        forall|i: int|
            0 <= i < plan.fields@.len() ==> {
                &&& (#[trigger] plan.fields@[i]).end <= repr.width()
                &&& plan.fields@[i].start + plan.fields@[i].width == plan.fields@[i].end
                &&& plan.fields@[i].width < 128
                &&& plan.fields@[i].mask == crate::layout::mask_of(plan.fields@[i].width)
            },
{
    lemma_max_end_bounds(input.fields@);
    assert forall|i: int| 0 <= i < plan.fields@.len() implies {
        &&& (#[trigger] plan.fields@[i]).end <= repr.width()
        &&& plan.fields@[i].start + plan.fields@[i].width == plan.fields@[i].end
        &&& plan.fields@[i].width < 128
        &&& plan.fields@[i].mask == crate::layout::mask_of(plan.fields@[i].width)
    } by {
        assert(plan.fields@[i] == spec_field_plan(input.fields@[i].attr));
        assert(field_plan_ok(input.fields@[i].attr));
        assert(input.fields@[i].attr.bits.spec_end() <= max_end(input.fields@));
    }
}

/// Some primitive unsigned integer type has exactly `width` bits.
pub open spec fn is_primitive_width(width: u32) -> bool {
    exists|c: CoreBits| #[trigger] c.width() == width
}

proof fn lemma_primitive_widths(width: u32)
    ensures
        is_primitive_width(width) <==> (width == 8 || width == 16 || width == 32 || width == 64
            || width == 128),
{
    if width == 8 {
        assert(CoreBits::U8.width() == width);
    } else if width == 16 {
        assert(CoreBits::U16.width() == width);
    } else if width == 32 {
        assert(CoreBits::U32.width() == width);
    } else if width == 64 {
        assert(CoreBits::U64.width() == width);
    } else if width == 128 {
        assert(CoreBits::U128.width() == width);
    } else if is_primitive_width(width) {
        let c = choose|c: CoreBits| #[trigger] c.width() == width;
        match c {
            CoreBits::U8 => {},
            CoreBits::U16 => {},
            CoreBits::U32 => {},
            CoreBits::U64 => {},
            CoreBits::U128 => {},
        }
    }
}

/// A width is read through a primitive type exactly when some primitive
/// unsigned integer type has that width; the type picked for it is then the
/// bounded integer of that width otherwise.
pub proof fn lemma_core_width_is_primitive(width: u32)
    ensures
        is_core_width(width) <==> is_primitive_width(width),
        bitwidth_to_type_spec(width).core <==> is_primitive_width(width),
        bitwidth_to_type_spec(width).width == width,
{
    lemma_primitive_widths(width);
}

/// The path `bitwidth_to_type` gives for `width`.
pub open spec fn bitwidth_to_type_spec(width: u32) -> IntPath {
    IntPath { core: is_core_width(width), width }
}

/// A field is read through a primitive type exactly when its read type is
/// primitive, which is exactly when a primitive type has the field's width;
/// the read type has the field's width, and the mask sets the field's bits.
pub proof fn lemma_field_plan_read_type(attr: FieldAttr)
    requires
        field_plan_ok(attr),
    ensures
        spec_field_plan(attr).is_core == spec_field_plan(attr).field_type.core,
        spec_field_plan(attr).is_core <==> is_primitive_width(spec_field_plan(attr).width),
        spec_field_plan(attr).field_type.width == spec_field_plan(attr).width,
        spec_field_plan(attr).start + spec_field_plan(attr).width == spec_field_plan(attr).end,
        spec_field_plan(attr).start == attr.bits.spec_start(),
        spec_field_plan(attr).end == attr.bits.spec_end(),
        spec_field_plan(attr).falliable == attr.falliable,
{
    lemma_primitive_widths(spec_field_plan(attr).width);
}

/// The primitive type picked for a width has that width, and there is one
/// exactly when a primitive type has that width.
pub proof fn lemma_core_of_width(width: u32)
    ensures
        core_of_width(width) matches Some(c) ==> c.width() == width,
        core_of_width(width) is Some <==> is_primitive_width(width),
{
    lemma_primitive_widths(width);
}

/// The primitive type named `u{N}` has `N` bits: a name gives a type only
/// when it is `u` followed by the type's width, and each of `u8`, `u16`,
/// `u32`, `u64`, `u128` gives one.
pub proof fn lemma_core_of_name(name: Seq<char>)
    ensures
        core_of_name(name) matches Some(c) ==> name.len() > 0 && name[0] == 'u'
            && parse_u32_spec(name.drop_first()) == Some(c.width()),
        core_of_name("u8"@) is Some,
        core_of_name("u16"@) is Some,
        core_of_name("u32"@) is Some,
        core_of_name("u64"@) is Some,
        core_of_name("u128"@) is Some,
{
    reveal_strlit("u8");
    reveal_strlit("u16");
    reveal_strlit("u32");
    reveal_strlit("u64");
    reveal_strlit("u128");
    reveal_with_fuel(crate::syntax::decimal_value, 4);
    let d8 = "u8"@.drop_first();
    let d16 = "u16"@.drop_first();
    let d32 = "u32"@.drop_first();
    let d64 = "u64"@.drop_first();
    let d128 = "u128"@.drop_first();
    assert(d8 =~= seq!['8']);
    assert(d16 =~= seq!['1', '6']);
    assert(d32 =~= seq!['3', '2']);
    assert(d64 =~= seq!['6', '4']);
    assert(d128 =~= seq!['1', '2', '8']);
    assert(seq!['1', '6'].drop_last() =~= seq!['1']);
    assert(seq!['3', '2'].drop_last() =~= seq!['3']);
    assert(seq!['6', '4'].drop_last() =~= seq!['6']);
    assert(seq!['1', '2', '8'].drop_last() =~= seq!['1', '2']);
    assert(seq!['1', '2'].drop_last() =~= seq!['1']);
    assert(seq!['8'].drop_last() =~= Seq::<char>::empty());
    assert(seq!['1'].drop_last() =~= Seq::<char>::empty());
    assert(seq!['3'].drop_last() =~= Seq::<char>::empty());
    assert(seq!['6'].drop_last() =~= Seq::<char>::empty());
    assert(parse_u32_spec(d8) == Some(8u32));
    assert(parse_u32_spec(d16) == Some(16u32));
    assert(parse_u32_spec(d32) == Some(32u32));
    assert(parse_u32_spec(d64) == Some(64u32));
    assert(parse_u32_spec(d128) == Some(128u32));
}

/// The `uN` shorthand records the width `N` and a holding type of exactly `N`
/// bits, where it is accepted.
pub proof fn lemma_shorthand_sets_width(st: StructAttr, m: Meta, arg: usize)
    requires
        m.ident matches Some(id) && id@.len() > 0 && id@[0] == 'u' && id@ != "bits"@ && id@
            != "repr"@,
        spec_struct_arg(st, m, arg) is Ok,
    ensures
        ({
            let n = parse_u32_spec(m.ident->Some_0@.drop_first());
            let st2 = spec_struct_arg(st, m, arg)->Ok_0;
            &&& n is Some
            &&& st2.bits == Some(n->Some_0)
            &&& st2.repr_bits matches Some(c) && c.width() == n->Some_0
        }),
{
    let n = parse_u32_spec(m.ident->Some_0@.drop_first());
    if let Some(w) = n {
        lemma_core_of_width(w);
    }
}

/// An explicit holding type is accepted exactly when it is at least as wide as
/// the highest field end; without one, the type picked is wider than every
/// field end. Every field then ends inside the holding type.
pub proof fn lemma_repr_bits_fits(input: ParsedInput)
    requires
        input.repr_bits_ok(),
    ensures
        input.top_level.spec_repr_bits() matches Some(c) ==> (input.spec_repr_bits() is Err
            <==> max_end(input.fields@) > c.width()),
        input.top_level.spec_repr_bits() matches Some(c) ==> (max_end(input.fields@) <= c.width()
            ==> input.spec_repr_bits() == Ok::<CoreBits, StructError>(c)),
        input.spec_repr_bits() matches Ok(c) ==> forall|i: int|
            0 <= i < input.fields@.len() ==> (#[trigger] input.fields@[i]).attr.bits.spec_end()
                <= c.width(),
        input.top_level.spec_repr_bits() is None ==> (input.spec_repr_bits() matches Ok(c)
            && max_end(input.fields@) < c.width()),
{
    lemma_max_end_bounds(input.fields@);
    if input.top_level.spec_repr_bits() is None {
        lemma_core_bits_from(max_end(input.fields@) as u32, CoreBits::U8);
    }
}

/// A struct as written: the arguments of the attribute on it, and its fields
/// (`None` where they are not named).
#[derive(Debug, Clone)]
pub struct StructInput {
    pub args: Option<Vec<Meta>>,
    pub fields: Option<Vec<FieldInput>>,
}

/// What a field gives: refused without a name, else what its attributes give.
pub open spec fn spec_field(field: FieldInput) -> Result<(BitsAttrVal, bool, Seq<usize>), FieldError> {
    if !field.named {
        Err(FieldError::Unnamed)
    } else {
        spec_field_attr(field.attrs@)
    }
}

/// Reading the first `n` fields; the first refused field refuses the struct.
pub open spec fn spec_fields(fields: Seq<FieldInput>, n: nat) -> Result<
    Seq<(BitsAttrVal, bool, Seq<usize>)>,
    StructError,
>
    decreases n,
{
    if n == 0 {
        Ok(Seq::empty())
    } else {
        match spec_fields(fields, (n - 1) as nat) {
            Ok(read) => match spec_field(fields[n - 1]) {
                Ok(f) => Ok(read.push(f)),
                Err(error) => Err(StructError::Field { field: (n - 1) as usize, error }),
            },
            Err(e) => Err(e),
        }
    }
}

/// What a struct gives: its arguments, then (for named fields) its fields.
pub open spec fn spec_parse_struct(input: StructInput) -> Result<
    (StructAttr, Seq<(BitsAttrVal, bool, Seq<usize>)>),
    StructError,
> {
    match spec_struct_macro_args(input.args) {
        Err(e) => Err(e),
        Ok(top) => match input.fields {
            None => Err(StructError::UnnamedFields),
            Some(fields) => match spec_fields(fields@, fields@.len()) {
                Ok(read) => Ok((top, read)),
                Err(e) => Err(e),
            },
        },
    }
}

/// `parsed` is what `spec` describes.
pub open spec fn parsed_is(
    parsed: ParsedInput,
    spec: (StructAttr, Seq<(BitsAttrVal, bool, Seq<usize>)>),
) -> bool {
    &&& parsed.top_level == spec.0
    &&& parsed.fields@.len() == spec.1.len()
    &&& forall|i: int|
        0 <= i < spec.1.len() ==> field_attr_is((#[trigger] parsed.fields@[i]).attr, spec.1[i])
}

/// Reads a field.
pub fn parse_field(field: &FieldInput) -> (r: Result<Field, FieldError>)
    ensures
        match spec_field(*field) {
            Ok(spec) => r matches Ok(f) && field_attr_is(f.attr, spec),
            Err(e) => r == Err::<Field, FieldError>(e),
        },
{
    if !field.named {
        return Err(FieldError::Unnamed);
    }
    let attr = match parse_field_macro_args(field) {
        Ok(attr) => attr,
        Err(e) => {
            return Err(e);
        },
    };
    Ok(Field { attr })
}

/// Once reading the fields fails, reading more of them fails the same way.
proof fn lemma_fields_stop(fields: Seq<FieldInput>, n: nat)
    requires
        n <= fields.len(),
        spec_fields(fields, n) is Err,
    ensures
        spec_fields(fields, fields.len()) == spec_fields(fields, n),
    decreases fields.len() - n,
{
    if n < fields.len() {
        lemma_fields_stop(fields, n + 1);
    }
}

/// Reads a struct: the arguments of the attribute on it, then its fields.
pub fn parse_struct(input: &StructInput) -> (r: Result<ParsedInput, StructError>)
    ensures
        match spec_parse_struct(*input) {
            Ok(spec) => r matches Ok(p) && parsed_is(p, spec),
            Err(e) => r == Err::<ParsedInput, StructError>(e),
        },
{
    let struct_attr = match parse_struct_macro_args(&input.args) {
        Ok(a) => a,
        Err(e) => {
            return Err(e);
        },
    };
    let fields_named = match &input.fields {
        Some(fields) => fields,
        None => {
            return Err(StructError::UnnamedFields);
        },
    };
    let mut fields: Vec<Field> = Vec::new();
    let ghost mut read: Seq<(BitsAttrVal, bool, Seq<usize>)> = Seq::empty();
    let mut i: usize = 0;
    while i < fields_named.len()
        invariant
            i <= fields_named@.len(),
            spec_fields(fields_named@, i as nat) == Ok::<
                Seq<(BitsAttrVal, bool, Seq<usize>)>,
                StructError,
            >(read),
            fields@.len() == read.len(),
            forall|j: int|
                0 <= j < read.len() ==> field_attr_is((#[trigger] fields@[j]).attr, read[j]),
            input.fields == Some(*fields_named),
            spec_struct_macro_args(input.args) == Ok::<StructAttr, StructError>(struct_attr),
        decreases fields_named@.len() - i,
    {
        match parse_field(&fields_named[i]) {
            Ok(f) => {
                proof {
                    let spec = spec_field(fields_named@[i as int])->Ok_0;
                    read = read.push(spec);
                }
                fields.push(f);
            },
            Err(error) => {
                proof {
                    lemma_fields_stop(fields_named@, (i + 1) as nat);
                }
                return Err(StructError::Field { field: i, error });
            },
        }
        i = i + 1;
    }
    Ok(ParsedInput { top_level: struct_attr, fields })
}

/// Reads a struct and plans the code made for it.
pub fn process(input: &StructInput) -> (r: Result<(ParsedInput, StructPlan), StructError>)
    ensures
        match spec_parse_struct(*input) {
            Err(e) => r == Err::<(ParsedInput, StructPlan), StructError>(e),
            Ok(spec) => match r {
                Ok((p, plan)) => parsed_is(p, spec) && codegen_post(p, Ok(plan)),
                Err(e) => forall|p: ParsedInput|
                    parsed_is(p, spec) ==> #[trigger] codegen_post(p, Err(e)),
            },
        },
{
    match parse_struct(input) {
        Ok(parsed) => match parsed.codegen() {
            Ok(plan) => Ok((parsed, plan)),
            Err(e) => {
                proof {
                    assert forall|p: ParsedInput| parsed_is(p, spec_parse_struct(*input)->Ok_0) implies #[trigger] codegen_post(p, Err(e)) by {
                        lemma_codegen_post_depends_on_reading(parsed, p, spec_parse_struct(*input)->Ok_0, Err(e));
                    }
                }
                Err(e)
            },
        },
        Err(e) => Err(e),
    }
}

/// Two readings of the same struct are planned alike.
proof fn lemma_codegen_post_depends_on_reading(
    a: ParsedInput,
    b: ParsedInput,
    spec: (StructAttr, Seq<(BitsAttrVal, bool, Seq<usize>)>),
    r: Result<StructPlan, StructError>,
)
    requires
        parsed_is(a, spec),
        parsed_is(b, spec),
        codegen_post(a, r),
    ensures
        codegen_post(b, r),
{
    assert forall|i: int| 0 <= i < a.fields@.len() implies #[trigger] a.fields@[i].attr.bits == b.fields@[i].attr.bits
        && a.fields@[i].attr.falliable == b.fields@[i].attr.falliable by {
        assert(field_attr_is(a.fields@[i].attr, spec.1[i]));
        assert(field_attr_is(b.fields@[i].attr, spec.1[i]));
    }
    assert(max_end(a.fields@) == max_end(b.fields@)) by {
        lemma_max_end_same_bits(a.fields@, b.fields@);
    }
    assert(ends_ok(a.fields@) == ends_ok(b.fields@)) by {
        if ends_ok(a.fields@) {
            assert forall|i: int| 0 <= i < b.fields@.len() implies (#[trigger] b.fields@[i]).attr.bits.range_ok() by {
                assert(a.fields@[i].attr.bits.range_ok());
            }
        }
        if ends_ok(b.fields@) {
            assert forall|i: int| 0 <= i < a.fields@.len() implies (#[trigger] a.fields@[i]).attr.bits.range_ok() by {
                assert(b.fields@[i].attr.bits.range_ok());
            }
        }
    }
    assert forall|i: int| 0 <= i < a.fields@.len() implies field_plan_ok((#[trigger] a.fields@[i]).attr) == field_plan_ok(b.fields@[i].attr)
        && spec_field_plan(a.fields@[i].attr) == spec_field_plan(b.fields@[i].attr)
        && field_plan_panic(a.fields@[i].attr) == field_plan_panic(b.fields@[i].attr) by {
        assert(a.fields@[i].attr.bits == b.fields@[i].attr.bits);
    }
    assert forall|i: int| is_first_bad_field(a.fields@, i) == is_first_bad_field(b.fields@, i) by {
        if is_first_bad_field(a.fields@, i) {
            assert forall|j: int| 0 <= j < i implies field_plan_ok((#[trigger] b.fields@[j]).attr) by {
                assert(field_plan_ok(a.fields@[j].attr));
            }
        }
        if is_first_bad_field(b.fields@, i) {
            assert forall|j: int| 0 <= j < i implies field_plan_ok((#[trigger] a.fields@[j]).attr) by {
                assert(field_plan_ok(b.fields@[j].attr));
            }
        }
    }
    assert(all_field_plans_ok(a.fields@) == all_field_plans_ok(b.fields@)) by {
        if all_field_plans_ok(a.fields@) {
            assert forall|i: int| 0 <= i < b.fields@.len() implies field_plan_ok((#[trigger] b.fields@[i]).attr) by {
                assert(field_plan_ok(a.fields@[i].attr));
            }
        }
        if all_field_plans_ok(b.fields@) {
            assert forall|i: int| 0 <= i < a.fields@.len() implies field_plan_ok((#[trigger] a.fields@[i]).attr) by {
                assert(field_plan_ok(b.fields@[i].attr));
            }
        }
    }
    if let Ok(plan) = r {
        if a.repr_bits_ok() && a.spec_repr_bits() is Ok && all_field_plans_ok(a.fields@) {
            assert forall|i: int| 0 <= i < b.fields@.len() implies plan.fields@[i] == spec_field_plan(
                (#[trigger] b.fields@[i]).attr) by {
                assert(plan.fields@[i] == spec_field_plan(a.fields@[i].attr));
            }
        }
    }
}

/// The highest field end depends on the fields' bits alone.
proof fn lemma_max_end_same_bits(a: Seq<Field>, b: Seq<Field>)
    requires
        a.len() == b.len(),
        forall|i: int| 0 <= i < a.len() ==> (#[trigger] a[i]).attr.bits == b[i].attr.bits,
    ensures
        max_end(a) == max_end(b),
    decreases a.len(),
{
    if a.len() > 0 {
        lemma_max_end_same_bits(a.drop_last(), b.drop_last());
        assert(a.last().attr.bits == b.last().attr.bits);
    }
}

} // verus!
