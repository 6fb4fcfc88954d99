use bytes::BytesMut;
use classfile::attribute::annotation::{
    decode_annotation, decode_element_value, decode_pair_table, encode_annotation,
    encode_element_value, encode_pair_table, Annotation, Element, ElementValue,
    ParameterAnnotation,
};
use classfile::attribute::decode::{
    decode_attribute, decode_attribute_table, decode_code, decode_payload,
};
use classfile::attribute::encode::{
    encode_attribute, encode_attribute_table, encode_body, encode_code,
};
use classfile::attribute::kind::AttributeKind;
use classfile::attribute::records::{
    BootstrapMethod, Exception, InnerClass, LineNumber, LocalVar, LocalVariable,
    LocalVariableType, MethodParameter,
};
use classfile::attribute::stack_map::{StackMap, StackMapFrame, VerificationTypeInfo};
use classfile::attribute::type_annotation::{
    decode_target_info, encode_target_info, TargetInfo, TypeAnnotation, TypePath,
};
use classfile::attribute::{Attribute, AttributeType, CodeAttribute};
use classfile::codec::{
    read_seq, read_table16, read_table8, write_seq, write_table16, write_table8, Wire,
};
use classfile::constant::Constant;
use classfile::error::Error;
use classfile::{TryFromCp, TryInto};
use std::sync::Arc;

fn buf(bytes: &[u8]) -> BytesMut {
    BytesMut::from(bytes)
}

const NAMES: [&str; 23] = [
    "ConstantValue",
    "Code",
    "StackMapTable",
    "Exceptions",
    "InnerClasses",
    "EnclosingMethod",
    "Synthetic",
    "Signature",
    "SourceFile",
    "SourceDebugExtension",
    "LineNumberTable",
    "LocalVariableTable",
    "LocalVariableTypeTable",
    "Deprecated",
    "RuntimeVisibleAnnotations",
    "RuntimeInvisibleAnnotations",
    "RuntimeVisibleParameterAnnotations",
    "RuntimeInvisibleParameterAnnotations",
    "RuntimeVisibleTypeAnnotations",
    "RuntimeInvisibleTypeAnnotations",
    "AnnotationDefault",
    "BootstrapMethods",
    "MethodParameters",
];

/// A pool that holds each attribute name, the name of the n-th kind at index n + 1,
/// then a class constant at index 24 and a name that no attribute has at index 25.
fn pool() -> Vec<Constant> {
    let mut pool: Vec<Constant> = NAMES.iter().map(|n| Constant::Utf8(String::from(*n))).collect();
    pool.push(Constant::Class { name_index: 1 });
    pool.push(Constant::Utf8(String::from("Unheard")));
    pool
}

fn name_index(name: &str) -> u16 {
    NAMES.iter().position(|n| *n == name).unwrap() as u16 + 1
}

fn round_trip<T: Wire + PartialEq + std::fmt::Debug>(value: T, bytes: &[u8]) {
    let mut out = vec![0x55];
    assert_eq!(value.encode(&mut out), Ok(bytes.len()), "{:?}", value);
    assert_eq!(&out[1..], bytes, "{:?}", value);
    let mut with_tail = bytes.to_vec();
    with_tail.push(0x77);
    let mut b = buf(&with_tail);
    assert_eq!(T::decode(&mut b).as_ref(), Ok(&value));
    assert_eq!(&b[..], &[0x77]);
    for cut in 0..bytes.len() {
        assert_eq!(T::decode(&mut buf(&bytes[..cut])), Err(Error::InvalidLength), "cut {}", cut);
    }
}

#[test]
fn records_have_their_exact_bytes() {
    round_trip(
        Exception { start_pc: 1, end_pc: 2, handler_pc: 3, catch_type: 0 },
        &[0, 1, 0, 2, 0, 3, 0, 0],
    );
    round_trip(
        InnerClass {
            inner_class_info_index: 0x0102,
            outer_class_info_index: 0x0304,
            inner_name_index: 0x0506,
            inner_class_access_flags: 0x0708,
        },
        &[1, 2, 3, 4, 5, 6, 7, 8],
    );
    round_trip(LineNumber { start_pc: 0, line_number: 0x1234 }, &[0, 0, 0x12, 0x34]);
    round_trip(
        LocalVariable { start_pc: 1, length: 2, name_index: 3, descriptor_index: 4, index: 5 },
        &[0, 1, 0, 2, 0, 3, 0, 4, 0, 5],
    );
    round_trip(
        LocalVariableType { start_pc: 1, length: 2, name_index: 3, signature_index: 4, index: 5 },
        &[0, 1, 0, 2, 0, 3, 0, 4, 0, 5],
    );
    round_trip(LocalVar { start_pc: 1, length: 2, index: 3 }, &[0, 1, 0, 2, 0, 3]);
    round_trip(MethodParameter { name_index: 9, access_flags: 0x8010 }, &[0, 9, 0x80, 0x10]);
    round_trip(
        BootstrapMethod { bootstrap_method_ref: 7, bootstrap_arguments: vec![1, 0x0203] },
        &[0, 7, 0, 2, 0, 1, 2, 3],
    );
    round_trip(BootstrapMethod { bootstrap_method_ref: 7, bootstrap_arguments: vec![] }, &[0, 7, 0, 0]);
    round_trip(TypePath { path: vec![(0, 0), (3, 1)] }, &[2, 0, 0, 3, 1]);
    round_trip(TypePath { path: vec![] }, &[0]);
    round_trip(5u8, &[5]);
    round_trip(0x0506u16, &[5, 6]);
    round_trip((1u8, 2u8), &[1, 2]);
}

#[test]
fn tables_carry_their_count() {
    let rows = vec![LineNumber { start_pc: 0, line_number: 1 }, LineNumber { start_pc: 4, line_number: 2 }];
    let mut out = Vec::new();
    assert_eq!(write_table16(&rows, &mut out), Ok(10));
    assert_eq!(out, vec![0, 2, 0, 0, 0, 1, 0, 4, 0, 2]);
    assert_eq!(read_table16::<LineNumber>(&mut buf(&out)), Ok(rows));
    let mut out = Vec::new();
    assert_eq!(write_table8(&vec![7u16, 8], &mut out), Ok(5));
    assert_eq!(out, vec![2, 0, 7, 0, 8]);
    assert_eq!(read_table8::<u16>(&mut buf(&out)), Ok(vec![7, 8]));
    let mut out = Vec::new();
    assert_eq!(write_seq(&vec![7u16, 8], &mut out), Ok(4));
    assert_eq!(out, vec![0, 7, 0, 8]);
    assert_eq!(read_seq::<u16>(&mut buf(&out), 2), Ok(vec![7, 8]));
    assert_eq!(read_seq::<u16>(&mut buf(&out), 3), Err(Error::InvalidLength));
    assert_eq!(read_table16::<u16>(&mut buf(&[0, 2, 0, 7])), Err(Error::InvalidLength));
}

#[test]
fn a_table_too_long_for_its_count_is_refused() {
    let mut out = Vec::new();
    assert_eq!(write_table8(&vec![0u8; 256], &mut out), Err(Error::InvalidLength));
    assert_eq!(write_table8(&vec![0u8; 255], &mut out), Ok(256));
    let mut out = Vec::new();
    assert_eq!(write_table16(&vec![0u8; 65536], &mut out), Err(Error::InvalidLength));
    assert_eq!(write_table16(&vec![0u8; 65535], &mut out), Ok(65537));
}

#[test]
fn verification_types_have_their_tags() {
    round_trip(VerificationTypeInfo::Top, &[0]);
    round_trip(VerificationTypeInfo::Integer, &[1]);
    round_trip(VerificationTypeInfo::Float, &[2]);
    round_trip(VerificationTypeInfo::Double, &[3]);
    round_trip(VerificationTypeInfo::Long, &[4]);
    round_trip(VerificationTypeInfo::Null, &[5]);
    round_trip(VerificationTypeInfo::UninitializedThis, &[6]);
    round_trip(VerificationTypeInfo::Object { cpool_index: 0x0102 }, &[7, 1, 2]);
    round_trip(VerificationTypeInfo::Uninitialized { offset: 0x0304 }, &[8, 3, 4]);
    assert_eq!(
        VerificationTypeInfo::decode(&mut buf(&[9, 0, 0])),
        Err(Error::InvalidVerificationTypeInfo)
    );
    assert_eq!(
        VerificationTypeInfo::decode(&mut buf(&[255])),
        Err(Error::InvalidVerificationTypeInfo)
    );
}

#[test]
fn frame_types_at_their_boundaries() {
    let decode = |bytes: &[u8]| StackMap::decode(&mut buf(bytes));
    assert_eq!(decode(&[0]), Ok(StackMap { frame_type: 0, frame: StackMapFrame::SameFrame }));
    assert_eq!(decode(&[63]), Ok(StackMap { frame_type: 63, frame: StackMapFrame::SameFrame }));
    assert_eq!(
        decode(&[64, 1]),
        Ok(StackMap {
            frame_type: 64,
            frame: StackMapFrame::SameLocals1StackItemFrame { stack: VerificationTypeInfo::Integer },
        })
    );
    assert_eq!(
        decode(&[127, 7, 0, 9]),
        Ok(StackMap {
            frame_type: 127,
            frame: StackMapFrame::SameLocals1StackItemFrame {
                stack: VerificationTypeInfo::Object { cpool_index: 9 },
            },
        })
    );
    assert_eq!(decode(&[128, 0, 0, 0]), Err(Error::InvalidFrameType));
    assert_eq!(decode(&[246, 0, 0, 0]), Err(Error::InvalidFrameType));
    assert_eq!(
        decode(&[247, 0, 5, 2]),
        Ok(StackMap {
            frame_type: 247,
            frame: StackMapFrame::SameLocals1StackItemFrameExtended {
                offset_delta: 5,
                stack: VerificationTypeInfo::Float,
            },
        })
    );
    for frame_type in [248u8, 249, 250] {
        assert_eq!(
            decode(&[frame_type, 1, 0]),
            Ok(StackMap { frame_type, frame: StackMapFrame::ChopFrame { offset_delta: 256 } })
        );
    }
    assert_eq!(
        decode(&[251, 0, 3]),
        Ok(StackMap { frame_type: 251, frame: StackMapFrame::SameFrameExtended { offset_delta: 3 } })
    );
    assert_eq!(
        decode(&[252, 0, 3, 1]),
        Ok(StackMap {
            frame_type: 252,
            frame: StackMapFrame::AppendFrame {
                offset_delta: 3,
                locals: vec![VerificationTypeInfo::Integer],
            },
        })
    );
    assert_eq!(
        decode(&[254, 0, 3, 1, 2, 4]),
        Ok(StackMap {
            frame_type: 254,
            frame: StackMapFrame::AppendFrame {
                offset_delta: 3,
                locals: vec![
                    VerificationTypeInfo::Integer,
                    VerificationTypeInfo::Float,
                    VerificationTypeInfo::Long,
                ],
            },
        })
    );
    assert_eq!(
        decode(&[255, 0, 3, 0, 2, 1, 7, 0, 4, 0, 1, 5]),
        Ok(StackMap {
            frame_type: 255,
            frame: StackMapFrame::FullFrame {
                offset_delta: 3,
                locals: vec![
                    VerificationTypeInfo::Integer,
                    VerificationTypeInfo::Object { cpool_index: 4 },
                ],
                stack: vec![VerificationTypeInfo::Null],
            },
        })
    );
}

#[test]
fn every_frame_kind_round_trips() {
    round_trip(StackMap { frame_type: 10, frame: StackMapFrame::SameFrame }, &[10]);
    round_trip(
        StackMap {
            frame_type: 70,
            frame: StackMapFrame::SameLocals1StackItemFrame {
                stack: VerificationTypeInfo::Uninitialized { offset: 2 },
            },
        },
        &[70, 8, 0, 2],
    );
    round_trip(
        StackMap {
            frame_type: 247,
            frame: StackMapFrame::SameLocals1StackItemFrameExtended {
                offset_delta: 0x0102,
                stack: VerificationTypeInfo::Top,
            },
        },
        &[247, 1, 2, 0],
    );
    round_trip(
        StackMap { frame_type: 249, frame: StackMapFrame::ChopFrame { offset_delta: 7 } },
        &[249, 0, 7],
    );
    round_trip(
        StackMap { frame_type: 251, frame: StackMapFrame::SameFrameExtended { offset_delta: 8 } },
        &[251, 0, 8],
    );
    round_trip(
        StackMap {
            frame_type: 253,
            frame: StackMapFrame::AppendFrame {
                offset_delta: 9,
                locals: vec![VerificationTypeInfo::Double, VerificationTypeInfo::Null],
            },
        },
        &[253, 0, 9, 3, 5],
    );
    round_trip(
        StackMap {
            frame_type: 255,
            frame: StackMapFrame::FullFrame { offset_delta: 1, locals: vec![], stack: vec![] },
        },
        &[255, 0, 1, 0, 0, 0, 0],
    );
}

#[test]
fn a_frame_of_the_wrong_shape_has_no_bytes() {
    let encode = |frame_type: u8, frame: StackMapFrame| {
        let mut out = Vec::new();
        StackMap { frame_type, frame }.encode(&mut out)
    };
    assert_eq!(encode(200, StackMapFrame::SameFrame), Err(Error::InvalidFrameType));
    assert_eq!(encode(128, StackMapFrame::ChopFrame { offset_delta: 0 }), Err(Error::InvalidFrameType));
    assert_eq!(encode(246, StackMapFrame::SameFrame), Err(Error::InvalidFrameType));
    assert_eq!(encode(64, StackMapFrame::SameFrame), Err(Error::MismatchFrameType(64)));
    assert_eq!(
        encode(10, StackMapFrame::ChopFrame { offset_delta: 0 }),
        Err(Error::MismatchFrameType(10))
    );
    assert_eq!(
        encode(63, StackMapFrame::SameLocals1StackItemFrame { stack: VerificationTypeInfo::Top }),
        Err(Error::MismatchFrameType(63))
    );
    assert_eq!(
        encode(
            248,
            StackMapFrame::SameLocals1StackItemFrameExtended {
                offset_delta: 0,
                stack: VerificationTypeInfo::Top
            }
        ),
        Err(Error::MismatchFrameType(248))
    );
    assert_eq!(
        encode(251, StackMapFrame::ChopFrame { offset_delta: 0 }),
        Err(Error::MismatchFrameType(251))
    );
    assert_eq!(
        encode(250, StackMapFrame::SameFrameExtended { offset_delta: 0 }),
        Err(Error::MismatchFrameType(250))
    );
    assert_eq!(
        encode(
            252,
            StackMapFrame::AppendFrame {
                offset_delta: 0,
                locals: vec![VerificationTypeInfo::Top, VerificationTypeInfo::Top]
            }
        ),
        Err(Error::MismatchFrameType(252))
    );
    assert_eq!(
        encode(254, StackMapFrame::FullFrame { offset_delta: 0, locals: vec![], stack: vec![] }),
        Err(Error::MismatchFrameType(254))
    );
}

fn const_value(tag: u8, index: u16) -> ElementValue {
    ElementValue { tag, value: Element::ConstValueIndex(index) }
}

#[test]
fn every_element_value_tag_round_trips() {
    for tag in *b"BCDFIJSZs" {
        round_trip(const_value(tag, 0x0102), &[tag, 1, 2]);
    }
    round_trip(
        ElementValue {
            tag: b'e',
            value: Element::EnumConstValue { type_name_index: 1, const_name_index: 2 },
        },
        &[b'e', 0, 1, 0, 2],
    );
    round_trip(ElementValue { tag: b'c', value: Element::ClassInfoIndex(3) }, &[b'c', 0, 3]);
    round_trip(
        ElementValue {
            tag: b'@',
            value: Element::AnnotationValue(Annotation {
                type_index: 4,
                element_value_pairs: vec![(5, const_value(b'I', 6))],
            }),
        },
        &[b'@', 0, 4, 0, 1, 0, 5, b'I', 0, 6],
    );
    round_trip(
        ElementValue {
            tag: b'[',
            value: Element::ArrayValue(vec![
                const_value(b's', 7),
                ElementValue { tag: b'[', value: Element::ArrayValue(vec![]) },
                ElementValue {
                    tag: b'@',
                    value: Element::AnnotationValue(Annotation {
                        type_index: 8,
                        element_value_pairs: vec![],
                    }),
                },
            ]),
        },
        &[b'[', 0, 3, b's', 0, 7, b'[', 0, 0, b'@', 0, 8, 0, 0],
    );
}

#[test]
fn an_element_value_nests_deeply() {
    let mut value = const_value(b'Z', 1);
    for _ in 0..200 {
        value = ElementValue { tag: b'[', value: Element::ArrayValue(vec![value]) };
    }
    let mut out = Vec::new();
    let n = encode_element_value(&value, &mut out).unwrap();
    assert_eq!(n, 200 * 3 + 3);
    assert_eq!(decode_element_value(&mut buf(&out)), Ok(value));
}

#[test]
fn an_unknown_element_value_tag_is_refused() {
    assert_eq!(
        decode_element_value(&mut buf(&[b'x', 0, 1])),
        Err(Error::InvalidElementValueTag('x'))
    );
    assert_eq!(
        decode_element_value(&mut buf(&[0xE9, 0, 1])),
        Err(Error::InvalidElementValueTag('\u{e9}'))
    );
    let mut out = Vec::new();
    assert_eq!(
        encode_element_value(&const_value(b'x', 1), &mut out),
        Err(Error::InvalidElementValueTag('x'))
    );
    assert_eq!(
        decode_element_value(&mut buf(&[b'[', 0, 2, b'I', 0, 1, b'?', 0])),
        Err(Error::InvalidElementValueTag('?'))
    );
}

#[test]
fn an_element_value_of_the_wrong_shape_has_no_bytes() {
    let wrong = vec![
        ElementValue { tag: b'I', value: Element::ClassInfoIndex(1) },
        ElementValue { tag: b'e', value: Element::ConstValueIndex(1) },
        ElementValue { tag: b'c', value: Element::ConstValueIndex(1) },
        ElementValue { tag: b'@', value: Element::ArrayValue(vec![]) },
        ElementValue { tag: b'[', value: Element::ConstValueIndex(1) },
        ElementValue {
            tag: b'[',
            value: Element::ArrayValue(vec![ElementValue {
                tag: b's',
                value: Element::ClassInfoIndex(1),
            }]),
        },
    ];
    for value in wrong {
        let mut out = Vec::new();
        assert_eq!(encode_element_value(&value, &mut out), Err(Error::InvalidElementValue));
    }
}

#[test]
fn annotations_and_pair_tables() {
    let annotation = Annotation {
        type_index: 1,
        element_value_pairs: vec![(2, const_value(b'J', 3)), (4, const_value(b'B', 5))],
    };
    let bytes = [0, 1, 0, 2, 0, 2, b'J', 0, 3, 0, 4, b'B', 0, 5];
    let mut out = Vec::new();
    assert_eq!(encode_annotation(&annotation, &mut out), Ok(14));
    assert_eq!(out, bytes);
    assert_eq!(decode_annotation(&mut buf(&bytes)).as_ref(), Ok(&annotation));
    let mut out = Vec::new();
    assert_eq!(encode_pair_table(&annotation.element_value_pairs, &mut out), Ok(12));
    assert_eq!(out, bytes[2..]);
    assert_eq!(
        decode_pair_table(&mut buf(&bytes[2..])).as_ref(),
        Ok(&annotation.element_value_pairs)
    );
    round_trip(annotation, &bytes);
    round_trip(
        ParameterAnnotation {
            annotations: vec![Annotation { type_index: 9, element_value_pairs: vec![] }],
        },
        &[0, 1, 0, 9, 0, 0],
    );
}

fn type_annotation(target_type: u8, target_info: TargetInfo) -> TypeAnnotation {
    TypeAnnotation {
        target_type,
        target_info,
        type_path: TypePath { path: vec![(1, 2)] },
        type_index: 0x0A0B,
        element_value_pairs: vec![(1, const_value(b'I', 2))],
    }
}

fn target_cases() -> Vec<(Vec<u8>, TargetInfo, Vec<u8>)> {
    vec![
        (vec![0x00, 0x01], TargetInfo::TypeParameterTarget(7), vec![7]),
        (vec![0x10], TargetInfo::SupertypeTarget(0x0102), vec![1, 2]),
        (
            vec![0x11, 0x12],
            TargetInfo::TypeParameterBoundTarget { type_parameter_index: 3, bound_index: 4 },
            vec![3, 4],
        ),
        (vec![0x13, 0x14, 0x15], TargetInfo::EmptyTarget, vec![]),
        (vec![0x16], TargetInfo::FormalParameterTarget(5), vec![5]),
        (vec![0x17], TargetInfo::ThrowTarget(6), vec![0, 6]),
        (
            vec![0x40, 0x41],
            TargetInfo::LocalVarTarget(vec![LocalVar { start_pc: 1, length: 2, index: 3 }]),
            vec![0, 1, 0, 1, 0, 2, 0, 3],
        ),
        (vec![0x42], TargetInfo::CatchTarget(8), vec![0, 8]),
        (vec![0x43, 0x44, 0x45, 0x46], TargetInfo::OffsetTarget(9), vec![0, 9]),
        (
            vec![0x47, 0x48, 0x49, 0x4A, 0x4B],
            TargetInfo::TypeArgumentTarget { offset: 10, type_argument_index: 11 },
            vec![0, 10, 11],
        ),
    ]
}

#[test]
fn every_target_info_kind_round_trips() {
    for (target_types, info, info_bytes) in target_cases() {
        for target_type in target_types {
            let mut out = Vec::new();
            assert_eq!(encode_target_info(target_type, &info, &mut out), Ok(info_bytes.len()));
            assert_eq!(out, info_bytes);
            assert_eq!(decode_target_info(target_type, &mut buf(&info_bytes)).as_ref(), Ok(&info));
            let mut bytes = vec![target_type];
            bytes.extend_from_slice(&info_bytes);
            bytes.extend_from_slice(&[1, 1, 2, 0x0A, 0x0B, 0, 1, 0, 1, b'I', 0, 2]);
            let value = match &info {
                TargetInfo::LocalVarTarget(table) => {
                    type_annotation(target_type, TargetInfo::LocalVarTarget(table.clone()))
                }
                other => type_annotation(target_type, other.clone()),
            };
            round_trip(value, &bytes);
        }
    }
}

#[test]
fn an_unassigned_target_type_is_refused() {
    for target_type in [0x02u8, 0x0F, 0x18, 0x3F, 0x4C, 0xFF] {
        assert_eq!(
            decode_target_info(target_type, &mut buf(&[0, 0, 0, 0])),
            Err(Error::InvalidTargetType(target_type))
        );
        assert_eq!(
            TypeAnnotation::decode(&mut buf(&[target_type, 0, 0, 0, 0, 0, 0])),
            Err(Error::InvalidTargetType(target_type))
        );
        let mut out = Vec::new();
        assert_eq!(
            encode_target_info(target_type, &TargetInfo::EmptyTarget, &mut out),
            Err(Error::InvalidTargetType(target_type))
        );
    }
}

#[test]
fn a_target_info_of_the_wrong_kind_has_no_bytes() {
    let cases = target_cases();
    for (i, (_, info, _)) in cases.iter().enumerate() {
        for (j, (target_types, _, _)) in cases.iter().enumerate() {
            if i == j {
                continue;
            }
            for target_type in target_types {
                let mut out = Vec::new();
                assert_eq!(
                    encode_target_info(*target_type, info, &mut out),
                    Err(Error::InvalidTargetInfo)
                );
                let mut out = Vec::new();
                let value = type_annotation(*target_type, info.clone());
                assert_eq!(value.encode(&mut out), Err(Error::InvalidTargetInfo));
            }
        }
    }
}

fn every_payload() -> Vec<(&'static str, AttributeType, Vec<u8>)> {
    vec![
        ("ConstantValue", AttributeType::ConstantValue { constant_value_index: 0x0102 }, vec![1, 2]),
        (
            "StackMapTable",
            AttributeType::StackMapTable {
                entries: vec![
                    StackMap { frame_type: 1, frame: StackMapFrame::SameFrame },
                    StackMap { frame_type: 251, frame: StackMapFrame::SameFrameExtended { offset_delta: 2 } },
                ],
            },
            vec![0, 2, 1, 251, 0, 2],
        ),
        (
            "Exceptions",
            AttributeType::Exceptions { exception_index_table: vec![3, 4] },
            vec![0, 2, 0, 3, 0, 4],
        ),
        (
            "InnerClasses",
            AttributeType::InnerClasses {
                classes: vec![InnerClass {
                    inner_class_info_index: 1,
                    outer_class_info_index: 2,
                    inner_name_index: 3,
                    inner_class_access_flags: 4,
                }],
            },
            vec![0, 1, 0, 1, 0, 2, 0, 3, 0, 4],
        ),
        (
            "EnclosingMethod",
            AttributeType::EnclosingMethod { class_index: 5, method_index: 6 },
            vec![0, 5, 0, 6],
        ),
        ("Synthetic", AttributeType::Synthetic, vec![]),
        ("Signature", AttributeType::Signature { signature_index: 7 }, vec![0, 7]),
        ("SourceFile", AttributeType::SourceFile { sourcefile_index: 8 }, vec![0, 8]),
        (
            "SourceDebugExtension",
            AttributeType::SourceDebugExtension { debug_extension: vec![9, 8, 7] },
            vec![9, 8, 7],
        ),
        (
            "SourceDebugExtension",
            AttributeType::SourceDebugExtension { debug_extension: vec![] },
            vec![],
        ),
        (
            "LineNumberTable",
            AttributeType::LineNumberTable {
                line_number_table: vec![LineNumber { start_pc: 0, line_number: 1 }],
            },
            vec![0, 1, 0, 0, 0, 1],
        ),
        (
            "LocalVariableTable",
            AttributeType::LocalVariableTable {
                local_variable_table: vec![LocalVariable {
                    start_pc: 1,
                    length: 2,
                    name_index: 3,
                    descriptor_index: 4,
                    index: 5,
                }],
            },
            vec![0, 1, 0, 1, 0, 2, 0, 3, 0, 4, 0, 5],
        ),
        (
            "LocalVariableTypeTable",
            AttributeType::LocalVariableTypeTable {
                local_variable_type_table: vec![LocalVariableType {
                    start_pc: 1,
                    length: 2,
                    name_index: 3,
                    signature_index: 4,
                    index: 5,
                }],
            },
            vec![0, 1, 0, 1, 0, 2, 0, 3, 0, 4, 0, 5],
        ),
        ("Deprecated", AttributeType::Deprecated, vec![]),
        (
            "RuntimeVisibleAnnotations",
            AttributeType::RuntimeVisibleAnnotations {
                annotations: vec![Annotation { type_index: 1, element_value_pairs: vec![] }],
            },
            vec![0, 1, 0, 1, 0, 0],
        ),
        (
            "RuntimeInvisibleAnnotations",
            AttributeType::RuntimeInvisibleAnnotations {
                annotations: vec![Annotation {
                    type_index: 1,
                    element_value_pairs: vec![(2, const_value(b'C', 3))],
                }],
            },
            vec![0, 1, 0, 1, 0, 1, 0, 2, b'C', 0, 3],
        ),
        (
            "RuntimeVisibleParameterAnnotations",
            AttributeType::RuntimeVisibleParameterAnnotations {
                parameter_annotations: vec![
                    ParameterAnnotation { annotations: vec![] },
                    ParameterAnnotation {
                        annotations: vec![Annotation { type_index: 1, element_value_pairs: vec![] }],
                    },
                ],
            },
            vec![2, 0, 0, 0, 1, 0, 1, 0, 0],
        ),
        (
            "RuntimeInvisibleParameterAnnotations",
            AttributeType::RuntimeInvisibleParameterAnnotations { parameter_annotations: vec![] },
            vec![0],
        ),
        (
            "RuntimeVisibleTypeAnnotations",
            AttributeType::RuntimeVisibleTypeAnnotations {
                annotations: vec![TypeAnnotation {
                    target_type: 0x13,
                    target_info: TargetInfo::EmptyTarget,
                    type_path: TypePath { path: vec![] },
                    type_index: 5,
                    element_value_pairs: vec![],
                }],
            },
            vec![0, 1, 0x13, 0, 0, 5, 0, 0],
        ),
        (
            "RuntimeInvisibleTypeAnnotations",
            AttributeType::RuntimeInvisibleTypeAnnotations { annotations: vec![] },
            vec![0, 0],
        ),
        (
            "AnnotationDefault",
            AttributeType::AnnotationDefault { default_value: const_value(b'D', 9) },
            vec![b'D', 0, 9],
        ),
        (
            "BootstrapMethods",
            AttributeType::BootstrapMethods {
                bootstrap_methods: vec![BootstrapMethod {
                    bootstrap_method_ref: 1,
                    bootstrap_arguments: vec![2],
                }],
            },
            vec![0, 1, 0, 1, 0, 1, 0, 2],
        ),
        (
            "MethodParameters",
            AttributeType::MethodParameters {
                parameters: vec![MethodParameter { name_index: 1, access_flags: 0x10 }],
            },
            vec![1, 0, 1, 0, 0x10],
        ),
        (
            "Code",
            AttributeType::Code {
                code: CodeAttribute {
                    max_stack: 2,
                    max_locals: 3,
                    code: Arc::new(vec![0x2A, 0xB1]),
                    exception_table: vec![Exception {
                        start_pc: 0,
                        end_pc: 1,
                        handler_pc: 1,
                        catch_type: 0,
                    }],
                    attributes: vec![],
                },
            },
            vec![0, 2, 0, 3, 0, 0, 0, 2, 0x2A, 0xB1, 0, 1, 0, 0, 0, 1, 0, 1, 0, 0, 0, 0],
        ),
    ]
}

#[test]
fn every_attribute_round_trips() {
    let pool = pool();
    for (name, payload, payload_bytes) in every_payload() {
        let mut out = Vec::new();
        assert_eq!(encode_body(&payload, &mut out), Ok(payload_bytes.len()), "{}", name);
        assert_eq!(out, payload_bytes, "{}", name);
        let attribute = Attribute {
            attribute_name_index: name_index(name),
            attribute_length: payload_bytes.len() as u32,
            attr_type: payload,
        };
        let mut bytes = vec![0, name_index(name) as u8, 0, 0, 0, payload_bytes.len() as u8];
        bytes.extend_from_slice(&payload_bytes);
        let mut out = vec![0x33];
        assert_eq!(encode_attribute(&attribute, &mut out), Ok(bytes.len()), "{}", name);
        assert_eq!(&out[1..], &bytes[..], "{}", name);
        bytes.push(0x44);
        let mut b = buf(&bytes);
        assert_eq!(decode_attribute(&mut b, &pool).as_ref(), Ok(&attribute), "{}", name);
        assert_eq!(&b[..], &[0x44]);
        let kind = AttributeKind::from_name(&String::from(name)).unwrap();
        assert_eq!(
            decode_payload(kind, &mut buf(&payload_bytes), &pool).as_ref(),
            Ok(&attribute.attr_type),
            "{}",
            name
        );
        for cut in 0..bytes.len() - 1 {
            assert_eq!(
                decode_attribute(&mut buf(&bytes[..cut]), &pool),
                Err(Error::InvalidLength),
                "{} cut at {}",
                name,
                cut
            );
        }
    }
}

#[test]
fn the_encoder_writes_the_length_that_the_payload_has() {
    let attribute = Attribute {
        attribute_name_index: name_index("Signature"),
        attribute_length: 77,
        attr_type: AttributeType::Signature { signature_index: 5 },
    };
    let mut out = Vec::new();
    assert_eq!(encode_attribute(&attribute, &mut out), Ok(8));
    assert_eq!(out, vec![0, 8, 0, 0, 0, 2, 0, 5]);
    let back = decode_attribute(&mut buf(&out), &pool()).unwrap();
    assert_eq!(back.attribute_length, 2);
    assert_eq!(back.attr_type, attribute.attr_type);
}

#[test]
fn a_declared_length_that_is_not_the_payloads_is_refused() {
    let pool = pool();
    let signature = name_index("Signature") as u8;
    assert_eq!(
        decode_attribute(&mut buf(&[0, signature, 0, 0, 0, 3, 0, 5, 0]), &pool),
        Err(Error::InvalidLength)
    );
    assert_eq!(
        decode_attribute(&mut buf(&[0, signature, 0, 0, 0, 1, 0, 5]), &pool),
        Err(Error::InvalidLength)
    );
    assert_eq!(
        decode_attribute(&mut buf(&[0, signature, 0, 0, 0, 0, 0, 5]), &pool),
        Err(Error::InvalidLength)
    );
    let synthetic = name_index("Synthetic") as u8;
    assert_eq!(
        decode_attribute(&mut buf(&[0, synthetic, 0, 0, 0, 1, 9]), &pool),
        Err(Error::InvalidLength)
    );
    let lines = name_index("LineNumberTable") as u8;
    assert_eq!(
        decode_attribute(&mut buf(&[0, lines, 0, 0, 0, 6, 0, 2, 0, 0, 0, 1, 0, 0, 0, 2]), &pool),
        Err(Error::InvalidLength)
    );
    assert_eq!(
        decode_attribute(&mut buf(&[0, signature, 0xFF, 0xFF, 0xFF, 0xFF, 0, 5]), &pool),
        Err(Error::InvalidLength)
    );
}

#[test]
fn an_attribute_name_must_be_known() {
    let pool = pool();
    assert_eq!(
        decode_attribute(&mut buf(&[0, 25, 0, 0, 0, 0]), &pool),
        Err(Error::InvalidAttributeName(String::from("Unheard")))
    );
    assert_eq!(
        decode_attribute(&mut buf(&[0, 25, 0, 0, 0, 9]), &pool),
        Err(Error::InvalidAttributeName(String::from("Unheard")))
    );
    assert_eq!(AttributeKind::from_name(&String::from("Unheard")), None);
    assert_eq!(AttributeKind::from_name(&String::from("code")), None);
    assert_eq!(AttributeKind::from_name(&String::from("InnerClass")), None);
    assert_eq!(AttributeKind::from_name(&String::new()), None);
    assert_eq!(AttributeKind::from_name(&String::from("Code")), Some(AttributeKind::Code));
    assert_eq!(
        AttributeKind::from_name(&String::from("InnerClasses")),
        Some(AttributeKind::InnerClasses)
    );
}

#[test]
fn an_attribute_name_index_must_lead_to_a_text() {
    let pool = pool();
    for index in [0u8, 24, 26, 200] {
        assert_eq!(
            decode_attribute(&mut buf(&[0, index, 0, 0, 0, 0]), &pool),
            Err(Error::MismatchConstantType),
            "{}",
            index
        );
    }
    assert_eq!(
        decode_attribute(&mut buf(&[0, 7, 0, 0, 0, 0]), &Vec::new()),
        Err(Error::MismatchConstantType)
    );
}

fn code_with_full_frame() -> (Attribute, Vec<u8>) {
    let stack_map = Attribute {
        attribute_name_index: name_index("StackMapTable"),
        attribute_length: 14,
        attr_type: AttributeType::StackMapTable {
            entries: vec![StackMap {
                frame_type: 255,
                frame: StackMapFrame::FullFrame {
                    offset_delta: 4,
                    locals: vec![
                        VerificationTypeInfo::Object { cpool_index: 24 },
                        VerificationTypeInfo::Integer,
                    ],
                    stack: vec![VerificationTypeInfo::Null],
                },
            }],
        },
    };
    let lines = Attribute {
        attribute_name_index: name_index("LineNumberTable"),
        attribute_length: 6,
        attr_type: AttributeType::LineNumberTable {
            line_number_table: vec![LineNumber { start_pc: 0, line_number: 3 }],
        },
    };
    let code = Attribute {
        attribute_name_index: name_index("Code"),
        attribute_length: 8 + 5 + 2 + 2 + (6 + 14) + (6 + 6),
        attr_type: AttributeType::Code {
            code: CodeAttribute {
                max_stack: 1,
                max_locals: 2,
                code: Arc::new(vec![0x03, 0x3C, 0x1B, 0x57, 0xB1]),
                exception_table: vec![],
                attributes: vec![stack_map, lines],
            },
        },
    };
    let bytes = vec![
        0, 2, 0, 0, 0, 49, // Code, 49 bytes
        0, 1, 0, 2, 0, 0, 0, 5, 0x03, 0x3C, 0x1B, 0x57, 0xB1, // sizes and bytecode
        0, 0, // no exception rows
        0, 2, // two attributes
        0, 3, 0, 0, 0, 14, // StackMapTable, 14 bytes
        0, 1, 255, 0, 4, 0, 2, 7, 0, 24, 1, 0, 1, 5, //
        0, 11, 0, 0, 0, 6, // LineNumberTable, 6 bytes
        0, 1, 0, 0, 0, 3,
    ];
    (code, bytes)
}

#[test]
fn a_code_attribute_with_a_full_frame_round_trips() {
    let pool = pool();
    let (code, bytes) = code_with_full_frame();
    let mut out = Vec::new();
    assert_eq!(encode_attribute(&code, &mut out), Ok(bytes.len()));
    assert_eq!(out, bytes);
    let back = decode_attribute(&mut buf(&bytes), &pool).unwrap();
    assert_eq!(back, code);
    match &back.attr_type {
        AttributeType::Code { code } => match &code.attributes[0].attr_type {
            AttributeType::StackMapTable { entries } => match &entries[0].frame {
                StackMapFrame::FullFrame { offset_delta, locals, stack } => {
                    assert_eq!(*offset_delta, 4);
                    assert_eq!(locals.len(), 2);
                    assert_eq!(stack.len(), 1);
                    assert_eq!(locals[0], VerificationTypeInfo::Object { cpool_index: 24 });
                    assert_eq!(locals[1], VerificationTypeInfo::Integer);
                    assert_eq!(stack[0], VerificationTypeInfo::Null);
                }
                other => panic!("{:?}", other),
            },
            other => panic!("{:?}", other),
        },
        other => panic!("{:?}", other),
    }
    for cut in 0..bytes.len() {
        assert_eq!(
            decode_attribute(&mut buf(&bytes[..cut]), &pool),
            Err(Error::InvalidLength),
            "cut at {}",
            cut
        );
    }
}

#[test]
fn code_nests_in_code() {
    let pool = pool();
    let (inner, inner_bytes) = code_with_full_frame();
    let outer = CodeAttribute {
        max_stack: 0,
        max_locals: 0,
        code: Arc::new(vec![]),
        exception_table: vec![],
        attributes: vec![inner],
    };
    let mut out = Vec::new();
    let n = encode_code(&outer, &mut out).unwrap();
    assert_eq!(n, 12 + inner_bytes.len());
    assert_eq!(&out[12..], &inner_bytes[..]);
    assert_eq!(decode_code(&mut buf(&out), &pool), Ok(outer));
}

#[test]
fn an_error_inside_a_nested_attribute_fails_the_whole() {
    let pool = pool();
    let (_, mut bytes) = code_with_full_frame();
    bytes[31] = 200;
    assert_eq!(decode_attribute(&mut buf(&bytes), &pool), Err(Error::InvalidFrameType));
    let (_, mut bytes) = code_with_full_frame();
    bytes[24] = 25;
    assert_eq!(
        decode_attribute(&mut buf(&bytes), &pool),
        Err(Error::InvalidAttributeName(String::from("Unheard")))
    );
    let (mut code, _) = code_with_full_frame();
    if let AttributeType::Code { code } = &mut code.attr_type {
        code.attributes[0].attr_type = AttributeType::StackMapTable {
            entries: vec![StackMap { frame_type: 64, frame: StackMapFrame::SameFrame }],
        };
    }
    let mut out = vec![1, 2, 3];
    assert_eq!(encode_attribute(&code, &mut out), Err(Error::MismatchFrameType(64)));
    assert_eq!(out, vec![1, 2, 3]);
}

#[test]
fn attribute_tables_carry_their_count() {
    let pool = pool();
    let list = vec![
        Attribute {
            attribute_name_index: name_index("Deprecated"),
            attribute_length: 0,
            attr_type: AttributeType::Deprecated,
        },
        Attribute {
            attribute_name_index: name_index("Synthetic"),
            attribute_length: 0,
            attr_type: AttributeType::Synthetic,
        },
    ];
    let bytes = [0, 2, 0, 14, 0, 0, 0, 0, 0, 7, 0, 0, 0, 0];
    let mut out = Vec::new();
    assert_eq!(encode_attribute_table(&list, &mut out), Ok(14));
    assert_eq!(out, bytes);
    assert_eq!(decode_attribute_table(&mut buf(&bytes), &pool), Ok(list));
    assert_eq!(
        decode_attribute_table(&mut buf(&[0, 3, 0, 14, 0, 0, 0, 0, 0, 7, 0, 0, 0, 0]), &pool),
        Err(Error::InvalidLength)
    );
}

#[test]
fn the_codec_traits_lead_to_the_same_functions() {
    let pool = Arc::new(pool());
    let (code, bytes) = code_with_full_frame();
    let mut out = Vec::new();
    assert_eq!(code.try_into_buf(&mut out), Ok(bytes.len()));
    assert_eq!(out, bytes);
    let mut b = buf(&bytes);
    assert_eq!(Attribute::try_from_cp(&mut b, &pool), Ok(code));
    let mut out = Vec::new();
    assert_eq!(LineNumber { start_pc: 1, line_number: 2 }.try_into_buf(&mut out), Ok(4));
    assert_eq!(out, vec![0, 1, 0, 2]);
    let body = CodeAttribute {
        max_stack: 1,
        max_locals: 1,
        code: Arc::new(vec![0xB1]),
        exception_table: vec![],
        attributes: vec![],
    };
    let mut out = Vec::new();
    assert_eq!(body.try_into_buf(&mut out), Ok(13));
    assert_eq!(CodeAttribute::try_from_cp(&mut buf(&out), &pool), Ok(body));
}

#[test]
fn a_value_that_cannot_be_written_leaves_the_output_alone() {
    let wrong = StackMap { frame_type: 64, frame: StackMapFrame::SameFrame };
    let mut out = vec![9, 9];
    assert_eq!(wrong.encode(&mut out), Err(Error::MismatchFrameType(64)));
    assert_eq!(out, vec![9, 9]);
    assert_eq!(wrong.try_into_buf(&mut out), Err(Error::MismatchFrameType(64)));
    assert_eq!(out, vec![9, 9]);
    let deep = ElementValue {
        tag: b'[',
        value: Element::ArrayValue(vec![const_value(b'I', 1), const_value(b'?', 2)]),
    };
    assert_eq!(deep.try_into_buf(&mut out), Err(Error::InvalidElementValueTag('?')));
    assert_eq!(out, vec![9, 9]);
    let right = StackMap { frame_type: 3, frame: StackMapFrame::SameFrame };
    assert_eq!(right.encode(&mut out), Ok(1));
    assert_eq!(out, vec![9, 9, 3]);
    let body = CodeAttribute {
        max_stack: 0,
        max_locals: 0,
        code: Arc::new(vec![]),
        exception_table: vec![],
        attributes: vec![Attribute {
            attribute_name_index: 3,
            attribute_length: 0,
            attr_type: AttributeType::StackMapTable { entries: vec![wrong] },
        }],
    };
    let mut out = vec![4];
    assert_eq!(body.try_into_buf(&mut out), Err(Error::MismatchFrameType(64)));
    assert_eq!(out, vec![4]);
    assert_eq!(encode_code(&body, &mut out), Err(Error::MismatchFrameType(64)));
    assert_eq!(out, vec![4]);
    assert_eq!(encode_attribute_table(&body.attributes, &mut out), Err(Error::MismatchFrameType(64)));
    assert_eq!(out, vec![4]);
    assert_eq!(
        encode_body(&body.attributes[0].attr_type, &mut out),
        Err(Error::MismatchFrameType(64))
    );
    assert_eq!(out, vec![4]);
    assert!(body.attributes[0].attr_type.eq(&body.attributes[0].attr_type));
    let mut raw = vec![4];
    assert_eq!(body.attributes[0].attr_type.eq(&AttributeType::Deprecated), false);
    assert_eq!(
        classfile::attribute::encode::write_body(&body.attributes[0].attr_type, &mut raw),
        Err(Error::MismatchFrameType(64))
    );
    assert_eq!(&raw[..1], &[4]);
    let wrong_target = type_annotation(0x10, TargetInfo::EmptyTarget);
    assert_eq!(wrong_target.encode(&mut out), Err(Error::InvalidTargetInfo));
    assert_eq!(out, vec![4]);
    assert_eq!(
        encode_target_info(0x10, &TargetInfo::EmptyTarget, &mut out),
        Err(Error::InvalidTargetInfo)
    );
    assert_eq!(
        encode_pair_table(&vec![(1, const_value(b'I', 1)), (2, const_value(b'!', 1))], &mut out),
        Err(Error::InvalidElementValueTag('!'))
    );
    assert_eq!(out, vec![4]);
}
