use bytes::BytesMut;
use classfile::attribute::records::LineNumber;
use classfile::attribute::{Attribute, AttributeType, CodeAttribute};
use classfile::class_file::{
    decode_class_bytes, decode_class_file, encode_class_file, find_class_index,
    interface_indices, resolve_interfaces, ClassFile,
};
use classfile::constant::Constant;
use classfile::error::Error;
use classfile::field::FieldInfo;
use classfile::member::{read_member_table, write_member_table, Member};
use classfile::method::{find_code, MethodInfo};
use classfile::{TryFromCp, TryInto, MAGIC};
use std::sync::Arc;

fn buf(bytes: &[u8]) -> BytesMut {
    BytesMut::from(bytes)
}

fn utf8(text: &str) -> Vec<u8> {
    let mut bytes = vec![1, 0, text.len() as u8];
    bytes.extend_from_slice(text.as_bytes());
    bytes
}

/// The class file that a compiler makes of `public class Example {}`.
fn example_bytes() -> Vec<u8> {
    let mut b: Vec<u8> = vec![0xCA, 0xFE, 0xBA, 0xBE, 0, 0, 0, 52, 0, 13];
    b.extend_from_slice(&[10, 0, 3, 0, 10]); // 1: Methodref Object.<init>
    b.extend_from_slice(&[7, 0, 11]); // 2: Class Example
    b.extend_from_slice(&[7, 0, 12]); // 3: Class java/lang/Object
    b.extend_from_slice(&utf8("<init>")); // 4
    b.extend_from_slice(&utf8("()V")); // 5
    b.extend_from_slice(&utf8("Code")); // 6
    b.extend_from_slice(&utf8("LineNumberTable")); // 7
    b.extend_from_slice(&utf8("SourceFile")); // 8
    b.extend_from_slice(&utf8("Example.java")); // 9
    b.extend_from_slice(&[12, 0, 4, 0, 5]); // 10: NameAndType <init>:()V
    b.extend_from_slice(&utf8("Example")); // 11
    b.extend_from_slice(&utf8("java/lang/Object")); // 12
    b.extend_from_slice(&[0, 0x21, 0, 2, 0, 3]); // public super, this, super
    b.extend_from_slice(&[0, 0]); // no interfaces
    b.extend_from_slice(&[0, 0]); // no fields
    b.extend_from_slice(&[0, 1]); // one method
    b.extend_from_slice(&[0, 1, 0, 4, 0, 5, 0, 1]); // public <init>()V, one attribute
    b.extend_from_slice(&[0, 6, 0, 0, 0, 29]); // Code, 29 bytes
    b.extend_from_slice(&[0, 1, 0, 1, 0, 0, 0, 5, 0x2A, 0xB7, 0, 1, 0xB1]);
    b.extend_from_slice(&[0, 0, 0, 1]); // no exception rows, one attribute
    b.extend_from_slice(&[0, 7, 0, 0, 0, 6, 0, 1, 0, 0, 0, 1]); // LineNumberTable
    b.extend_from_slice(&[0, 1]); // one class attribute
    b.extend_from_slice(&[0, 8, 0, 0, 0, 2, 0, 9]); // SourceFile
    b
}

fn example() -> ClassFile {
    let text = |s: &str| Constant::Utf8(String::from(s));
    ClassFile {
        magic: MAGIC,
        minor_version: 0,
        major_version: 52,
        constant_pool: Arc::new(vec![
            Constant::MethodRef { class_index: 3, name_and_type_index: 10 },
            Constant::Class { name_index: 11 },
            Constant::Class { name_index: 12 },
            text("<init>"),
            text("()V"),
            text("Code"),
            text("LineNumberTable"),
            text("SourceFile"),
            text("Example.java"),
            Constant::NameAndType { name_index: 4, descriptor_index: 5 },
            text("Example"),
            text("java/lang/Object"),
        ]),
        access_flags: 0x21,
        this_class: 2,
        super_class: 3,
        interfaces: vec![],
        fields: vec![],
        methods: vec![MethodInfo {
            access_flags: 1,
            name_index: 4,
            descriptor_index: 5,
            attributes: vec![Attribute {
                attribute_name_index: 6,
                attribute_length: 29,
                attr_type: AttributeType::Code {
                    code: CodeAttribute {
                        max_stack: 1,
                        max_locals: 1,
                        code: Arc::new(vec![0x2A, 0xB7, 0, 1, 0xB1]),
                        exception_table: vec![],
                        attributes: vec![Attribute {
                            attribute_name_index: 7,
                            attribute_length: 6,
                            attr_type: AttributeType::LineNumberTable {
                                line_number_table: vec![LineNumber { start_pc: 0, line_number: 1 }],
                            },
                        }],
                    },
                },
            }],
            code_attr_index: Some(0),
        }],
        attributes: vec![Attribute {
            attribute_name_index: 8,
            attribute_length: 2,
            attr_type: AttributeType::SourceFile { sourcefile_index: 9 },
        }],
    }
}

#[test]
fn the_minimal_class_decodes_to_its_parts() {
    let bytes = example_bytes();
    let mut b = buf(&bytes);
    let class_file = decode_class_file(&mut b).unwrap();
    assert!(b.is_empty());
    assert_eq!(class_file, example());
    assert_eq!(class_file.magic, 0xCAFEBABE);
    assert_eq!(class_file.constant_pool.len(), 12);
    let code = class_file.methods[0].get_code().unwrap();
    assert_eq!(code.max_stack, 1);
    assert_eq!(code.max_locals, 1);
    assert_eq!(*code.code, vec![0x2A, 0xB7, 0, 1, 0xB1]);
}

#[test]
fn the_minimal_class_encodes_to_the_bytes_it_came_from() {
    let bytes = example_bytes();
    let class_file = decode_class_file(&mut buf(&bytes)).unwrap();
    let mut out = Vec::new();
    assert_eq!(encode_class_file(&class_file, &mut out), Ok(bytes.len()));
    assert_eq!(out, bytes);
    let mut out = vec![9];
    assert_eq!(example().try_into_buf(&mut out), Ok(bytes.len()));
    assert_eq!(&out[1..], &bytes[..]);
}

#[test]
fn a_class_file_leaves_what_follows_it() {
    let mut bytes = example_bytes();
    bytes.extend_from_slice(&[1, 2, 3]);
    let mut b = buf(&bytes);
    assert_eq!(decode_class_file(&mut b), Ok(example()));
    assert_eq!(&b[..], &[1, 2, 3]);
}

#[test]
fn a_truncated_class_file_is_an_invalid_length() {
    let bytes = example_bytes();
    for cut in 0..bytes.len() {
        assert_eq!(
            decode_class_file(&mut buf(&bytes[..cut])),
            Err(Error::InvalidLength),
            "cut at {}",
            cut
        );
    }
}

#[test]
fn the_magic_number_is_checked_first() {
    let mut bytes = example_bytes();
    bytes[3] = 0xBF;
    assert_eq!(decode_class_file(&mut buf(&bytes)), Err(Error::InvalidMagic));
    assert_eq!(decode_class_file(&mut buf(&[0, 0, 0, 0])), Err(Error::InvalidMagic));
    assert_eq!(decode_class_file(&mut buf(&[0xCA, 0xFE, 0xBA])), Err(Error::InvalidLength));
    let mut class_file = example();
    class_file.magic = 0xCAFEBABF;
    let mut out = vec![7];
    assert_eq!(encode_class_file(&class_file, &mut out), Err(Error::InvalidMagic));
    assert_eq!(out, vec![7]);
}

#[test]
fn a_bad_constant_tag_fails_the_class_file() {
    let mut bytes = example_bytes();
    bytes[10] = 0xFF;
    assert_eq!(decode_class_file(&mut buf(&bytes)), Err(Error::InvalidConstantTag(0xFF)));
}

#[test]
fn a_pool_count_of_zero_is_refused() {
    let bytes = [0xCA, 0xFE, 0xBA, 0xBE, 0, 0, 0, 52, 0, 0, 0, 0];
    assert_eq!(decode_class_file(&mut buf(&bytes)), Err(Error::InvalidLength));
}

fn with_interfaces(indices: &[u16]) -> Vec<u8> {
    let bytes = example_bytes();
    let at = bytes.len() - (2 + 2 + 2 + 8 + 6 + 29 + 2 + 8);
    assert_eq!(&bytes[at..at + 2], &[0, 0]);
    let mut out = bytes[..at].to_vec();
    out.extend_from_slice(&(indices.len() as u16).to_be_bytes());
    for index in indices {
        out.extend_from_slice(&index.to_be_bytes());
    }
    out.extend_from_slice(&bytes[at + 2..]);
    out
}

#[test]
fn interfaces_are_the_class_constants_that_their_indices_point_at() {
    let bytes = with_interfaces(&[3, 2]);
    let class_file = decode_class_file(&mut buf(&bytes)).unwrap();
    assert_eq!(
        class_file.interfaces,
        vec![Constant::Class { name_index: 12 }, Constant::Class { name_index: 11 }]
    );
    let mut out = Vec::new();
    assert_eq!(encode_class_file(&class_file, &mut out), Ok(bytes.len()));
    assert_eq!(out, bytes);
}

#[test]
fn an_interface_index_must_point_at_a_class_constant() {
    for index in [0u16, 1, 4, 13, 500] {
        assert_eq!(
            decode_class_file(&mut buf(&with_interfaces(&[2, index]))),
            Err(Error::MismatchConstantType),
            "{}",
            index
        );
    }
    let mut class_file = example();
    class_file.interfaces = vec![Constant::Class { name_index: 99 }];
    let mut out = vec![5];
    assert_eq!(encode_class_file(&class_file, &mut out), Err(Error::MismatchConstantType));
    assert_eq!(out, vec![5]);
    class_file.interfaces = vec![Constant::Utf8(String::from("Example"))];
    assert_eq!(encode_class_file(&class_file, &mut out), Err(Error::MismatchConstantType));
}

#[test]
fn interface_lookup_by_hand() {
    let class_file = example();
    let pool = &class_file.constant_pool;
    assert_eq!(find_class_index(pool, &Constant::Class { name_index: 11 }), Some(2));
    assert_eq!(find_class_index(pool, &Constant::Class { name_index: 12 }), Some(3));
    assert_eq!(find_class_index(pool, &Constant::Class { name_index: 1 }), None);
    assert_eq!(find_class_index(pool, &Constant::Utf8(String::from("Code"))), None);
    let twice = vec![Constant::Class { name_index: 5 }, Constant::Class { name_index: 5 }];
    assert_eq!(find_class_index(&twice, &Constant::Class { name_index: 5 }), Some(1));
    assert_eq!(
        resolve_interfaces(pool, &vec![2, 3, 2]),
        Ok(vec![
            Constant::Class { name_index: 11 },
            Constant::Class { name_index: 12 },
            Constant::Class { name_index: 11 }
        ])
    );
    assert_eq!(resolve_interfaces(pool, &vec![]), Ok(vec![]));
    assert_eq!(resolve_interfaces(pool, &vec![2, 0]), Err(Error::MismatchConstantType));
    assert_eq!(
        interface_indices(pool, &vec![Constant::Class { name_index: 12 }]),
        Ok(vec![3])
    );
    assert_eq!(
        interface_indices(pool, &vec![Constant::Class { name_index: 13 }]),
        Err(Error::MismatchConstantType)
    );
}

#[test]
fn a_pool_too_long_for_its_count_is_refused() {
    let mut class_file = example();
    class_file.constant_pool = Arc::new(vec![Constant::Integer(0); 65535]);
    class_file.methods = vec![];
    class_file.attributes = vec![];
    let mut out = Vec::new();
    assert_eq!(encode_class_file(&class_file, &mut out), Err(Error::InvalidLength));
    assert!(out.is_empty());
    class_file.constant_pool = Arc::new(vec![Constant::Integer(0); 65534]);
    assert_eq!(encode_class_file(&class_file, &mut out), Ok(10 + 65534 * 5 + 14));
    assert_eq!(&out[8..10], &[0xFF, 0xFF]);
    assert_eq!(decode_class_file(&mut buf(&out)), Ok(class_file));
}

fn pool_of_names() -> Vec<Constant> {
    vec![
        Constant::Utf8(String::from("Code")),
        Constant::Utf8(String::from("Deprecated")),
        Constant::Utf8(String::from("ConstantValue")),
    ]
}

fn empty_code(name_index: u16) -> Attribute {
    Attribute {
        attribute_name_index: name_index,
        attribute_length: 12,
        attr_type: AttributeType::Code {
            code: CodeAttribute {
                max_stack: 0,
                max_locals: 0,
                code: Arc::new(vec![]),
                exception_table: vec![],
                attributes: vec![],
            },
        },
    }
}

fn deprecated() -> Attribute {
    Attribute { attribute_name_index: 2, attribute_length: 0, attr_type: AttributeType::Deprecated }
}

#[test]
fn a_field_round_trips() {
    let pool = pool_of_names();
    let field = FieldInfo {
        access_flags: 0x0019,
        name_index: 7,
        descriptor_index: 8,
        attributes: vec![
            Attribute {
                attribute_name_index: 3,
                attribute_length: 2,
                attr_type: AttributeType::ConstantValue { constant_value_index: 9 },
            },
            deprecated(),
        ],
    };
    let bytes = [0, 0x19, 0, 7, 0, 8, 0, 2, 0, 3, 0, 0, 0, 2, 0, 9, 0, 2, 0, 0, 0, 0];
    let mut out = Vec::new();
    assert_eq!(field.encode(&mut out), Ok(bytes.len()));
    assert_eq!(out, bytes);
    assert_eq!(FieldInfo::decode(&mut buf(&bytes), &pool).as_ref(), Ok(&field));
    for cut in 0..bytes.len() {
        assert_eq!(FieldInfo::decode(&mut buf(&bytes[..cut]), &pool), Err(Error::InvalidLength));
    }
    let shared = Arc::new(pool);
    assert_eq!(FieldInfo::try_from_cp(&mut buf(&bytes), &shared).as_ref(), Ok(&field));
    let mut out = Vec::new();
    assert_eq!(field.try_into_buf(&mut out), Ok(bytes.len()));
    let table = vec![field];
    let mut out = Vec::new();
    assert_eq!(write_member_table(&table, &mut out), Ok(bytes.len() + 2));
    assert_eq!(&out[..2], &[0, 1]);
    assert_eq!(read_member_table::<FieldInfo>(&mut buf(&out), &shared), Ok(table));
}

#[test]
fn a_method_knows_its_last_code_attribute() {
    let pool = pool_of_names();
    let bytes = {
        let mut b = vec![0, 1, 0, 7, 0, 8, 0, 3];
        for _ in 0..2 {
            b.extend_from_slice(&[0, 1, 0, 0, 0, 12, 0, 0, 0, 0, 0, 0, 0, 0, 0, 0, 0, 0]);
        }
        b.extend_from_slice(&[0, 2, 0, 0, 0, 0]);
        b
    };
    let method = MethodInfo::decode(&mut buf(&bytes), &pool).unwrap();
    assert_eq!(method.code_attr_index, Some(1));
    assert_eq!(method.attributes, vec![empty_code(1), empty_code(1), deprecated()]);
    let mut out = Vec::new();
    assert_eq!(method.encode(&mut out), Ok(bytes.len()));
    assert_eq!(out, bytes);
    let shared = Arc::new(pool);
    assert_eq!(MethodInfo::try_from_cp(&mut buf(&bytes), &shared).as_ref(), Ok(&method));
    let mut out = Vec::new();
    assert_eq!(method.try_into_buf(&mut out), Ok(bytes.len()));
    assert_eq!(find_code(&method.attributes), Some(1));
    assert_eq!(find_code(&vec![deprecated()]), None);
    assert_eq!(find_code(&vec![]), None);
    assert_eq!(find_code(&vec![empty_code(1), deprecated()]), Some(0));
}

#[test]
fn get_code_follows_the_index() {
    let mut method = MethodInfo {
        access_flags: 0,
        name_index: 1,
        descriptor_index: 2,
        attributes: vec![deprecated(), empty_code(1)],
        code_attr_index: Some(1),
    };
    assert_eq!(method.get_code().map(|c| c.max_stack), Some(0));
    method.code_attr_index = Some(0);
    assert_eq!(method.get_code(), None);
    method.code_attr_index = None;
    assert_eq!(method.get_code(), None);
}

#[test]
fn a_method_without_code_has_no_code_index() {
    let pool = pool_of_names();
    let bytes = [0x04, 0x01, 0, 7, 0, 8, 0, 0];
    assert_eq!(MethodInfo::decode(&mut buf(&bytes[1..]), &pool), Err(Error::InvalidLength));
    let method = MethodInfo::decode(&mut buf(&bytes), &pool).unwrap();
    assert_eq!(method.access_flags, 0x0401);
    assert_eq!(method.code_attr_index, None);
    assert_eq!(method.get_code(), None);
}

#[test]
fn a_class_file_is_decoded_from_plain_bytes() {
    let mut bytes = example_bytes();
    assert_eq!(decode_class_bytes(&bytes), Ok(example()));
    bytes.push(0);
    assert_eq!(decode_class_bytes(&bytes), Ok(example()));
    assert_eq!(decode_class_bytes(&bytes[..20]), Err(Error::InvalidLength));
    assert_eq!(decode_class_bytes(&[]), Err(Error::InvalidLength));
    assert_eq!(decode_class_bytes(&[1, 2, 3, 4, 5]), Err(Error::InvalidMagic));
}
