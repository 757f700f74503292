use bitstuff::layout::{read_field, write_field};
use bitstuff::struct_macro::{
    bitwidth_to_type, parse_field, parse_struct_macro_args, process, BitsAttrVal, CoreBits,
    Field, FieldAttr, FieldError, FieldInput, IntPath, IntPlace, Panic, ParsedInput, StructAttr,
    StructError, StructInput,
};
use bitstuff::syntax::{Attribute, Meta, MetaKind, MetaValue, RangeEnd};

fn nv(name: &str, value: MetaValue) -> Meta {
    Meta { ident: Some(name.to_string()), kind: MetaKind::NameValue(value) }
}

fn word(name: &str) -> Meta {
    Meta { ident: Some(name.to_string()), kind: MetaKind::Path }
}

fn lit(v: u32) -> MetaValue {
    MetaValue::Int(Some(v))
}

fn range(start: u32, end: u32, closed: bool) -> MetaValue {
    MetaValue::Range { start: RangeEnd::Int(Some(start)), end: RangeEnd::Int(Some(end)), closed }
}

fn bitstuff(metas: Vec<Meta>) -> Attribute {
    Attribute { ident: Some("bitstuff".to_string()), args: Some(metas) }
}

fn doc() -> Attribute {
    Attribute { ident: Some("doc".to_string()), args: None }
}

fn field(attrs: Vec<Attribute>) -> FieldInput {
    FieldInput { named: true, attrs }
}

fn args(metas: Vec<Meta>) -> Result<StructAttr, StructError> {
    parse_struct_macro_args(&Some(metas))
}

fn attr_of(f: FieldInput) -> Result<FieldAttr, FieldError> {
    parse_field(&f).map(|f| f.attr)
}

fn parsed(top_level: StructAttr, bits: Vec<BitsAttrVal>) -> ParsedInput {
    ParsedInput {
        top_level,
        fields: bits
            .into_iter()
            .map(|bits| Field { attr: FieldAttr { bits, falliable: false, other: Vec::new() } })
            .collect(),
    }
}

fn no_args() -> StructAttr {
    StructAttr { bits: None, repr_bits: None }
}

#[test]
fn shorthand_sets_width_and_holding_type() {
    assert_eq!(args(vec![word("u32")]), Ok(StructAttr { bits: Some(32), repr_bits: Some(CoreBits::U32) }));
    assert_eq!(args(vec![word("u8")]), Ok(StructAttr { bits: Some(8), repr_bits: Some(CoreBits::U8) }));
    assert_eq!(args(vec![word("u128")]), Ok(StructAttr { bits: Some(128), repr_bits: Some(CoreBits::U128) }));
}

#[test]
fn bits_and_repr_arguments() {
    assert_eq!(args(vec![nv("bits", lit(26))]), Ok(StructAttr { bits: Some(26), repr_bits: None }));
    assert_eq!(
        args(vec![nv("repr", MetaValue::Path(Some("u16".to_string())))]),
        Ok(StructAttr { bits: None, repr_bits: Some(CoreBits::U16) })
    );
    assert_eq!(
        args(vec![nv("bits", lit(12)), nv("repr", MetaValue::Path(Some("u64".to_string())))]),
        Ok(StructAttr { bits: Some(12), repr_bits: Some(CoreBits::U64) })
    );
    assert_eq!(args(vec![]), Ok(no_args()));
}

#[test]
fn struct_argument_errors() {
    assert_eq!(parse_struct_macro_args(&None), Err(StructError::ArgsUnparsable));
    assert_eq!(args(vec![Meta { ident: None, kind: MetaKind::Path }]), Err(StructError::ArgNotIdent { arg: 0 }));
    assert_eq!(args(vec![word("bits")]), Err(StructError::BitsNotNameValue { arg: 0 }));
    assert_eq!(args(vec![nv("bits", MetaValue::Other)]), Err(StructError::BitsNotInt { arg: 0 }));
    assert_eq!(args(vec![nv("bits", MetaValue::Int(None))]), Err(StructError::BadInt { arg: 0 }));
    assert_eq!(args(vec![nv("bits", lit(3)), word("u8")]), Err(StructError::DuplicateBits));
    assert_eq!(args(vec![word("repr")]), Err(StructError::ReprNotNameValue { arg: 0 }));
    assert_eq!(args(vec![nv("repr", lit(5))]), Err(StructError::ReprNotPath { arg: 0 }));
    assert_eq!(args(vec![nv("repr", MetaValue::Path(None))]), Err(StructError::ReprNotPath { arg: 0 }));
    assert_eq!(
        args(vec![nv("repr", MetaValue::Path(Some("i32".to_string())))]),
        Err(StructError::ReprUnknown { arg: 0 })
    );
    assert_eq!(
        args(vec![
            nv("repr", MetaValue::Path(Some("u16".to_string()))),
            nv("repr", MetaValue::Path(Some("u8".to_string())))
        ]),
        Err(StructError::DuplicateRepr)
    );
    assert_eq!(
        args(vec![nv("repr", MetaValue::Path(Some("u16".to_string()))), word("u32")]),
        Err(StructError::DuplicateRepr)
    );
    assert_eq!(args(vec![word("u7")]), Err(StructError::ShorthandNotCore { arg: 0 }));
    assert_eq!(args(vec![word("unknown")]), Err(StructError::ShorthandNotInt { arg: 0 }));
    assert_eq!(args(vec![word("u8"), word("packed")]), Err(StructError::UnknownArg { arg: 1 }));
}

#[test]
fn field_attributes_are_read() {
    assert_eq!(
        attr_of(field(vec![doc(), bitstuff(vec![nv("bit", lit(11))])])).map(|a| (a.bits, a.falliable, a.other)),
        Ok((BitsAttrVal::Bit(11), false, vec![0]))
    );
    assert_eq!(
        attr_of(field(vec![bitstuff(vec![nv("bits", range(0, 8, false))])])).map(|a| a.bits),
        Ok(BitsAttrVal::Bits { start: 0, end_exclusive: 8 })
    );
    assert_eq!(
        attr_of(field(vec![doc(), bitstuff(vec![nv("bits", range(3, 5, true)), word("falliable")]), doc()]))
            .map(|a| (a.bits, a.falliable, a.other)),
        Ok((BitsAttrVal::Bits { start: 3, end_exclusive: 6 }, true, vec![0, 2]))
    );
    assert_eq!(
        attr_of(field(vec![bitstuff(vec![word("falliable")]), bitstuff(vec![nv("bit", lit(2))])]))
            .map(|a| (a.bits, a.falliable)),
        Ok((BitsAttrVal::Bit(2), true))
    );
}

#[test]
fn field_attribute_errors() {
    let e = |metas: Vec<Meta>| attr_of(field(vec![doc(), bitstuff(metas)])).map(|a| a.bits);
    assert_eq!(
        attr_of(field(vec![Attribute { ident: Some("bitstuff".to_string()), args: None }])).map(|a| a.bits),
        Err(FieldError::AttrUnparsable { attr: 0 })
    );
    assert_eq!(e(vec![Meta { ident: None, kind: MetaKind::Path }]), Err(FieldError::NotIdent { attr: 1, meta: 0 }));
    assert_eq!(
        e(vec![nv("bit", lit(1)), nv("bits", range(0, 2, false))]),
        Err(FieldError::DuplicateBits { attr: 1, meta: 1 })
    );
    assert_eq!(
        e(vec![nv("bit", MetaValue::Int(None))]),
        Err(FieldError::BadInt { attr: 1, meta: 0, place: IntPlace::Value })
    );
    assert_eq!(
        e(vec![nv("bits", MetaValue::Range { start: RangeEnd::Missing, end: RangeEnd::Int(Some(4)), closed: false })]),
        Err(FieldError::OpenRange { attr: 1, meta: 0 })
    );
    assert_eq!(
        e(vec![nv("bits", MetaValue::Range { start: RangeEnd::Int(Some(1)), end: RangeEnd::Missing, closed: false })]),
        Err(FieldError::OpenRange { attr: 1, meta: 0 })
    );
    assert_eq!(
        e(vec![nv("bits", MetaValue::Range { start: RangeEnd::Other, end: RangeEnd::Other, closed: false })]),
        Err(FieldError::StartNotInt { attr: 1, meta: 0 })
    );
    assert_eq!(
        e(vec![nv("bits", MetaValue::Range { start: RangeEnd::Int(None), end: RangeEnd::Other, closed: false })]),
        Err(FieldError::EndNotInt { attr: 1, meta: 0 })
    );
    assert_eq!(
        e(vec![nv("bits", MetaValue::Range { start: RangeEnd::Int(None), end: RangeEnd::Int(None), closed: false })]),
        Err(FieldError::BadInt { attr: 1, meta: 0, place: IntPlace::Start })
    );
    assert_eq!(
        e(vec![nv("bits", MetaValue::Range { start: RangeEnd::Int(Some(1)), end: RangeEnd::Int(None), closed: false })]),
        Err(FieldError::BadInt { attr: 1, meta: 0, place: IntPlace::End })
    );
    assert_eq!(e(vec![nv("bits", range(5, 5, false))]), Err(FieldError::EmptyRange { attr: 1, meta: 0 }));
    assert_eq!(e(vec![nv("bits", range(6, 3, true))]), Err(FieldError::EmptyRange { attr: 1, meta: 0 }));
    assert_eq!(e(vec![word("packed")]), Err(FieldError::Unknown { attr: 1, meta: 0 }));
    assert_eq!(e(vec![word("falliable")]), Err(FieldError::MissingBits));
    assert_eq!(e(vec![nv("bit", MetaValue::Other)]), Err(FieldError::MissingBits));
    assert_eq!(e(vec![nv("bits", lit(3))]), Err(FieldError::MissingBits));
    assert_eq!(
        e(vec![nv("bits", range(0, u32::MAX, true))]),
        Err(FieldError::Panic(Panic::AddOverflow))
    );
    assert_eq!(
        e(vec![nv("bits", range(0, u32::MAX, false))]),
        Ok(BitsAttrVal::Bits { start: 0, end_exclusive: u32::MAX })
    );
    assert_eq!(
        attr_of(FieldInput { named: false, attrs: vec![bitstuff(vec![nv("bit", lit(1))])] }).map(|a| a.bits),
        Err(FieldError::Unnamed)
    );
}

#[test]
fn the_ranges_of_field_bits() {
    assert_eq!(BitsAttrVal::Bit(4).range(), 4..5);
    assert_eq!(BitsAttrVal::Bits { start: 3, end_exclusive: 9 }.range(), 3..9);
}

#[test]
fn core_types_for_a_width() {
    assert_eq!(CoreBits::from(0), CoreBits::U8);
    assert_eq!(CoreBits::from(6), CoreBits::U8);
    assert_eq!(CoreBits::from(8), CoreBits::U16);
    assert_eq!(CoreBits::from(25), CoreBits::U32);
    assert_eq!(CoreBits::from(32), CoreBits::U64);
    assert_eq!(CoreBits::from(127), CoreBits::U128);
    assert_eq!(u32::from(CoreBits::U64), 64);
    assert_eq!(CoreBits::U16.to_path(), IntPath { core: true, width: 16 });
    assert_eq!(bitwidth_to_type(8), IntPath { core: true, width: 8 });
    assert_eq!(bitwidth_to_type(6), IntPath { core: false, width: 6 });
    assert_eq!(bitwidth_to_type(128), IntPath { core: true, width: 128 });
}

#[test]
fn the_holding_type_of_a_struct() {
    let p = parsed(no_args(), vec![BitsAttrVal::Bits { start: 0, end_exclusive: 6 }]);
    assert_eq!(p.required_repr_bits(), 6);
    assert_eq!(p.min_bits(), 6);
    assert_eq!(p.repr_bits(), Ok(CoreBits::U8));
    let p = parsed(no_args(), vec![BitsAttrVal::Bits { start: 0, end_exclusive: 8 }]);
    assert_eq!(p.repr_bits(), Ok(CoreBits::U16));
    let p = parsed(no_args(), vec![BitsAttrVal::Bit(25), BitsAttrVal::Bits { start: 0, end_exclusive: 6 }]);
    assert_eq!(p.required_repr_bits(), 26);
    assert_eq!(p.repr_bits(), Ok(CoreBits::U32));
    let p = parsed(StructAttr { bits: Some(12), repr_bits: None }, vec![BitsAttrVal::Bit(3)]);
    assert_eq!(p.min_bits(), 12);
    assert_eq!(p.repr_bits(), Ok(CoreBits::U16));
    let p = parsed(StructAttr { bits: Some(32), repr_bits: Some(CoreBits::U32) }, vec![]);
    assert_eq!(p.required_repr_bits(), 0);
    assert_eq!(p.repr_bits(), Ok(CoreBits::U32));
    let p = parsed(
        StructAttr { bits: None, repr_bits: Some(CoreBits::U8) },
        vec![BitsAttrVal::Bits { start: 4, end_exclusive: 12 }],
    );
    assert_eq!(p.repr_bits(), Err(StructError::ReprTooSmall { explicit: 8, required: 12 }));
}

#[test]
fn setting_width_and_holding_type_once() {
    let mut a = no_args();
    assert_eq!(a.try_set_bits(5), Ok(()));
    assert_eq!(a.try_set_bits(6), Err(StructError::DuplicateBits));
    assert_eq!(a.bits, Some(5));
    assert_eq!(a.try_set_repr_bits(CoreBits::U64), Ok(()));
    assert_eq!(a.try_set_repr_bits(CoreBits::U8), Err(StructError::DuplicateRepr));
    assert_eq!(a.repr_bits(), Some(CoreBits::U64));
    assert_eq!(StructAttr { bits: Some(20), repr_bits: None }.repr_bits(), Some(CoreBits::U32));
    assert_eq!(no_args().repr_bits(), None);
}

fn data_register() -> StructInput {
    StructInput {
        args: Some(vec![word("u32")]),
        fields: Some(vec![
            field(vec![doc(), bitstuff(vec![nv("bit", lit(11))])]),
            field(vec![doc(), bitstuff(vec![nv("bit", lit(10))])]),
            field(vec![doc(), bitstuff(vec![nv("bit", lit(9))])]),
            field(vec![doc(), bitstuff(vec![nv("bit", lit(8))])]),
            field(vec![doc(), bitstuff(vec![nv("bits", range(0, 8, false))])]),
        ]),
    }
}

#[test]
fn plans_a_data_register() {
    let (parsed, plan) = process(&data_register()).unwrap();
    assert_eq!(parsed.fields.len(), 5);
    assert_eq!(plan.repr, CoreBits::U32);
    assert_eq!(plan.min_bits, 32);
    assert_eq!(plan.min_type, IntPath { core: true, width: 32 });
    let overrun = plan.fields[0];
    assert_eq!((overrun.start, overrun.end, overrun.width, overrun.mask), (11, 12, 1, 1));
    assert_eq!(overrun.field_type, IntPath { core: false, width: 1 });
    assert!(!overrun.is_core);
    let data = plan.fields[4];
    assert_eq!((data.start, data.end, data.width, data.mask), (0, 8, 8, 0xFF));
    assert_eq!(data.field_type, IntPath { core: true, width: 8 });
    assert!(data.is_core);
    assert!(!data.falliable);
}

#[test]
fn a_data_register_is_written_and_read_field_by_field() {
    let (_, plan) = process(&data_register()).unwrap();
    let [overrun, brk, parity, framing, data] = [plan.fields[0], plan.fields[1], plan.fields[2], plan.fields[3], plan.fields[4]];
    let mut w: u128 = 0;
    w = write_field(w, data.start, data.width, 0xaf);
    w = write_field(w, framing.start, framing.width, 1);
    w = write_field(w, parity.start, parity.width, 1);
    w = write_field(w, overrun.start, overrun.width, 0);
    w = write_field(w, brk.start, brk.width, 1);
    assert_eq!(w, 0x7af);
    assert_eq!(read_field(w, data.start, data.width), 0xaf);
    assert_eq!(read_field(w, brk.start, brk.width), 1);
    assert_eq!(read_field(w, overrun.start, overrun.width), 0);
}

#[test]
fn plans_a_level_select_register() {
    let input = StructInput {
        args: Some(vec![]),
        fields: Some(vec![
            field(vec![doc(), bitstuff(vec![nv("bits", range(3, 5, true)), word("falliable")])]),
            field(vec![doc(), bitstuff(vec![nv("bits", range(0, 2, true)), word("falliable")])]),
        ]),
    };
    let (_, plan) = process(&input).unwrap();
    assert_eq!(plan.repr, CoreBits::U8);
    assert_eq!(plan.min_bits, 6);
    assert_eq!(plan.min_type, IntPath { core: false, width: 6 });
    assert_eq!((plan.fields[0].start, plan.fields[0].width, plan.fields[0].mask), (3, 3, 7));
    assert!(plan.fields[0].falliable);
    assert_eq!(plan.fields[1].field_type, IntPath { core: false, width: 3 });
}

#[test]
fn struct_errors_from_processing() {
    let mut input = data_register();
    input.fields = None;
    assert_eq!(process(&input).map(|_| ()), Err(StructError::UnnamedFields));
    let mut input = data_register();
    input.args = Some(vec![word("u32"), word("u16")]);
    assert_eq!(process(&input).map(|_| ()), Err(StructError::DuplicateBits));
    let input = StructInput {
        args: Some(vec![word("u8")]),
        fields: Some(vec![field(vec![bitstuff(vec![nv("bit", lit(1))])]), field(vec![doc()])]),
    };
    assert_eq!(process(&input).map(|_| ()), Err(StructError::Field { field: 1, error: FieldError::MissingBits }));
    let input = StructInput {
        args: Some(vec![word("u8")]),
        fields: Some(vec![field(vec![bitstuff(vec![nv("bits", range(4, 12, false))])])]),
    };
    assert_eq!(process(&input).map(|_| ()), Err(StructError::ReprTooSmall { explicit: 8, required: 12 }));
}

#[test]
fn struct_panics_from_processing() {
    let one = |bits: Vec<Meta>, args_: Vec<Meta>| {
        process(&StructInput { args: Some(args_), fields: Some(vec![field(vec![bitstuff(bits)])]) }).map(|_| ())
    };
    assert_eq!(one(vec![nv("bit", lit(1))], vec![nv("bits", lit(200))]), Err(StructError::Panic(Panic::InvalidCoreType)));
    assert_eq!(
        one(vec![nv("bit", lit(1))], vec![nv("bits", lit(200)), nv("repr", MetaValue::Path(Some("u8".to_string())))]),
        Err(StructError::Panic(Panic::InvalidCoreType))
    );
    assert_eq!(one(vec![nv("bits", range(120, 130, false))], vec![]), Err(StructError::Panic(Panic::InvalidCoreType)));
    assert_eq!(
        one(vec![nv("bits", range(0, 128, false))], vec![nv("repr", MetaValue::Path(Some("u128".to_string())))]),
        Err(StructError::Panic(Panic::ShlOverflow))
    );
    assert_eq!(one(vec![nv("bit", lit(1))], vec![word("u128")]), Err(StructError::Panic(Panic::InvalidCoreType)));
    assert_eq!(one(vec![nv("bit", lit(u32::MAX))], vec![]), Err(StructError::Panic(Panic::AddOverflow)));
    let p = parsed(
        StructAttr { bits: None, repr_bits: Some(CoreBits::U32) },
        vec![BitsAttrVal::Bits { start: 9, end_exclusive: 4 }],
    );
    assert_eq!(p.codegen().map(|_| ()), Err(StructError::Panic(Panic::SubOverflow)));
}

#[test]
fn a_nested_register_is_26_bits_in_a_u32() {
    let input = StructInput {
        args: Some(vec![]),
        fields: Some(vec![
            field(vec![bitstuff(vec![nv("bits", range(0, 6, false))])]),
            field(vec![bitstuff(vec![nv("bits", range(11, 17, false))])]),
            field(vec![bitstuff(vec![nv("bits", range(17, 25, false))])]),
            field(vec![bitstuff(vec![nv("bit", lit(25))])]),
        ]),
    };
    let (_, plan) = process(&input).unwrap();
    assert_eq!(plan.min_bits, 26);
    assert_eq!(plan.min_type, IntPath { core: false, width: 26 });
    assert_eq!(plan.repr, CoreBits::U32);
    assert_eq!(plan.fields[2].field_type, IntPath { core: true, width: 8 });
    for f in &plan.fields {
        assert!(f.end <= u32::from(plan.repr));
        assert_eq!(f.start + f.width, f.end);
        assert_eq!(f.mask, (1u128 << f.width) - 1);
    }
}

#[test]
fn a_level_select_register_holds_both_levels() {
    let input = StructInput {
        args: Some(vec![]),
        fields: Some(vec![
            field(vec![bitstuff(vec![nv("bits", range(3, 5, true)), word("falliable")])]),
            field(vec![bitstuff(vec![nv("bits", range(0, 2, true)), word("falliable")])]),
        ]),
    };
    let (_, plan) = process(&input).unwrap();
    let (receive, transmit) = (plan.fields[0], plan.fields[1]);
    let w = write_field(write_field(0, receive.start, receive.width, 2), transmit.start, transmit.width, 1);
    assert_eq!(w, 0x11);
    assert_eq!(read_field(w, receive.start, receive.width), 2);
    assert_eq!(read_field(w, transmit.start, transmit.width), 1);
}
