use bitstuff::enum_macro::{
    collect_enum_discriminants, process, process_variant, Discriminant, EnumError, EnumInput,
    VariantError,
};
use bitstuff::errors::MultipleErrors;
use bitstuff::struct_macro::IntPath;
use bitstuff::syntax::{Meta, MetaKind, MetaValue};

fn values(vs: &[u128]) -> Vec<Discriminant> {
    vs.iter().map(|v| Discriminant::Int(Some(*v))).collect()
}

fn bits_arg(v: MetaValue) -> Meta {
    Meta { ident: Some("bits".to_string()), kind: MetaKind::NameValue(v) }
}

fn u32_arg() -> Meta {
    Meta { ident: Some("u32".to_string()), kind: MetaKind::Path }
}

#[test]
fn reads_discriminants() {
    assert_eq!(process_variant(&Discriminant::Int(Some(4)), 0), Ok(4));
    assert_eq!(process_variant(&Discriminant::Missing, 2), Err(VariantError::Missing { variant: 2 }));
    assert_eq!(process_variant(&Discriminant::NotInt, 1), Err(VariantError::NotInt { variant: 1 }));
    assert_eq!(process_variant(&Discriminant::Int(None), 3), Err(VariantError::BadInt { variant: 3 }));
}

#[test]
fn collects_each_discriminant_with_its_variant() {
    let map = collect_enum_discriminants(&values(&[4, 0, 2])).unwrap();
    assert_eq!(map.len(), 3);
    assert_eq!(map.get(&4), Some(&0));
    assert_eq!(map.get(&0), Some(&1));
    assert_eq!(map.get(&2), Some(&2));
}

#[test]
fn gathers_every_variant_error_in_order() {
    let variants = vec![
        Discriminant::Int(Some(1)),
        Discriminant::Missing,
        Discriminant::Int(Some(1)),
        Discriminant::NotInt,
        Discriminant::Int(None),
    ];
    assert_eq!(
        collect_enum_discriminants(&variants),
        Err(vec![
            VariantError::Missing { variant: 1 },
            VariantError::Duplicate { variant: 2, value: 1 },
            VariantError::NotInt { variant: 3 },
            VariantError::BadInt { variant: 4 },
        ])
    );
}

#[test]
fn gathers_errors() {
    let mut errs: MultipleErrors<u32> = MultipleErrors::new();
    assert!(errs.is_empty());
    errs.combine(3);
    errs.combine(1);
    assert!(!errs.is_empty());
    assert_eq!(errs.into_inner(), Some(vec![3, 1]));
    assert_eq!(MultipleErrors::<u32>::new().into_inner(), None);
}

#[test]
fn a_level_enum_with_reserved_patterns_is_fallible() {
    let plan = process(&EnumInput {
        args: Some(vec![u32_arg(), bits_arg(MetaValue::Int(Some(3)))]),
        variants: values(&[0, 1, 2, 3, 4]),
    })
    .unwrap();
    assert_eq!(plan.bits, 3);
    assert!(!plan.complete);
    assert_eq!(plan.to_bits_type, IntPath { core: false, width: 3 });
    assert_eq!(plan.repr_width, 8);
    for v in 5u128..8 {
        assert!(!plan.discriminants.contains_key(&v));
    }
}

#[test]
fn a_two_variant_enum_is_one_complete_bit() {
    let plan = process(&EnumInput { args: Some(vec![]), variants: values(&[0, 1]) }).unwrap();
    assert_eq!(plan.bits, 1);
    assert!(plan.complete);
    assert_eq!(plan.to_bits_type, IntPath { core: false, width: 1 });
    assert_eq!(plan.repr_width, 8);
}

#[test]
fn a_byte_enum_with_every_value_is_complete() {
    let all: Vec<u128> = (0u128..256).rev().collect();
    let plan = process(&EnumInput { args: Some(vec![]), variants: values(&all) }).unwrap();
    assert_eq!(plan.bits, 8);
    assert!(plan.complete);
    assert_eq!(plan.to_bits_type, IntPath { core: true, width: 8 });
    assert_eq!(plan.repr_width, 8);
    for v in 0u128..256 {
        assert_eq!(plan.discriminants.get(&v), Some(&(255 - v as usize)));
    }
}

#[test]
fn a_wider_explicit_width_makes_an_enum_incomplete() {
    let plan = process(&EnumInput { args: Some(vec![bits_arg(MetaValue::Int(Some(2)))]), variants: values(&[0, 1]) })
        .unwrap();
    assert_eq!(plan.bits, 2);
    assert!(!plan.complete);
    let plan = process(&EnumInput { args: Some(vec![bits_arg(MetaValue::Int(Some(9)))]), variants: values(&[300]) })
        .unwrap();
    assert_eq!(plan.repr_width, 16);
    let plan = process(&EnumInput { args: Some(vec![]), variants: values(&[1 << 40]) }).unwrap();
    assert_eq!(plan.bits, 41);
    assert_eq!(plan.repr_width, 64);
}

#[test]
fn enum_errors() {
    let run = |args: Option<Vec<Meta>>, vs: Vec<Discriminant>| process(&EnumInput { args, variants: vs }).map(|p| p.bits);
    assert_eq!(run(Some(vec![]), vec![]), Err(EnumError::NoVariants));
    match run(Some(vec![]), vec![Discriminant::Missing]) {
        Err(EnumError::Variants(errs)) => assert_eq!(errs, vec![VariantError::Missing { variant: 0 }]),
        other => panic!("unexpected {other:?}"),
    }
    assert!(matches!(run(None, values(&[0])), Err(EnumError::ArgsUnparsable)));
    assert!(matches!(
        run(Some(vec![Meta { ident: Some("bits".to_string()), kind: MetaKind::Path }]), values(&[0])),
        Err(EnumError::BitsNotNameValue { arg: 0 })
    ));
    assert!(matches!(run(Some(vec![u32_arg(), bits_arg(MetaValue::Other)]), values(&[0])), Err(EnumError::BitsNotInt { arg: 1 })));
    assert!(matches!(run(Some(vec![bits_arg(MetaValue::Int(None))]), values(&[0])), Err(EnumError::BadBits { arg: 0 })));
    assert!(matches!(
        run(Some(vec![bits_arg(MetaValue::Int(Some(2)))]), values(&[0, 4])),
        Err(EnumError::TooFewBits { explicit: 2, inferred: 3 })
    ));
}

#[test]
fn wide_enums_are_planned_up_to_128_bits() {
    let run = |args: Vec<Meta>, vs: Vec<Discriminant>| process(&EnumInput { args: Some(args), variants: vs });
    let plan = run(vec![bits_arg(MetaValue::Int(Some(64)))], values(&[0, 1])).unwrap();
    assert_eq!(plan.bits, 64);
    assert!(!plan.complete);
    assert_eq!(plan.to_bits_type, IntPath { core: true, width: 64 });
    assert_eq!(plan.repr_width, 64);
    let plan = run(vec![], values(&[1 << 70])).unwrap();
    assert_eq!(plan.bits, 71);
    assert!(!plan.complete);
    assert_eq!(plan.repr_width, 128);
    let plan = run(vec![bits_arg(MetaValue::Int(Some(128)))], values(&[u128::MAX])).unwrap();
    assert_eq!(plan.to_bits_type, IntPath { core: true, width: 128 });
    assert!(matches!(run(vec![bits_arg(MetaValue::Int(Some(63)))], values(&[1])), Ok(p) if p.bits == 63));
    assert!(matches!(run(vec![bits_arg(MetaValue::Int(Some(129)))], values(&[1])), Err(EnumError::Unsupported)));
    assert!(matches!(run(vec![bits_arg(MetaValue::Int(Some(200)))], values(&[0, 1])), Err(EnumError::Unsupported)));
}
