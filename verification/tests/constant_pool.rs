use bytes::BytesMut;
use classfile::codec::Wire;
use classfile::constant::{
    decode_pool, encode_pool, get_class_name, get_utf8, Constant, Tag,
};
use classfile::error::Error;
use classfile::wire::{
    push_bytes, push_i32, push_i64, push_u16, push_u32, push_u64, push_u8, read_exact, read_frame,
    read_i32, read_i64, read_u16, read_u32, read_u64, read_u8,
};
use classfile::{read_bytes, read_string, read_utf8, write_bytes, write_string, write_utf8};

fn buf(bytes: &[u8]) -> BytesMut {
    BytesMut::from(bytes)
}

fn every_constant() -> Vec<Constant> {
    vec![
        Constant::Class { name_index: 0x0102 },
        Constant::FieldRef { class_index: 1, name_and_type_index: 2 },
        Constant::MethodRef { class_index: 3, name_and_type_index: 4 },
        Constant::InterfaceMethodRef { class_index: 5, name_and_type_index: 6 },
        Constant::String { string_index: 7 },
        Constant::Integer(-2),
        Constant::Integer(i32::MIN),
        Constant::Integer(i32::MAX),
        Constant::Float(1.5f32.to_bits()),
        Constant::Float(f32::NAN.to_bits()),
        Constant::Long(-3),
        Constant::Long(i64::MIN),
        Constant::Long(i64::MAX),
        Constant::Double(2.25f64.to_bits()),
        Constant::NameAndType { name_index: 8, descriptor_index: 9 },
        Constant::Utf8(String::from("Example")),
        Constant::Utf8(String::new()),
        Constant::MethodHandle { reference_kind: 6, reference_index: 10 },
        Constant::MethodType { descriptor_index: 11 },
        Constant::InvokeDynamic { bootstrap_method_attr_index: 12, name_and_type_index: 13 },
    ]
}

#[test]
fn primitives_are_big_endian() {
    let mut b = buf(&[0x12, 0x34, 0x56, 0x78, 0x9A, 0xBC, 0xDE, 0xF0, 0x01, 0x02, 0x03, 0x04, 0x05, 0x06, 0x07]);
    assert_eq!(read_u8(&mut b), Ok(0x12));
    assert_eq!(read_u16(&mut b), Ok(0x3456));
    assert_eq!(read_u32(&mut b), Ok(0x789ABCDE));
    assert_eq!(read_u64(&mut b), Ok(0xF001020304050607));
    assert_eq!(read_u8(&mut b), Err(Error::InvalidLength));
}

#[test]
fn signed_primitives_are_twos_complement() {
    let mut b = buf(&[0xFF, 0xFF, 0xFF, 0xFE, 0x80, 0, 0, 0, 0, 0, 0, 0, 0x7F, 0xFF, 0xFF, 0xFF]);
    assert_eq!(read_i32(&mut b), Ok(-2));
    assert_eq!(read_i64(&mut b), Ok(i64::MIN));
    assert_eq!(read_i32(&mut b), Ok(i32::MAX));
    assert_eq!(read_i32(&mut b), Err(Error::InvalidLength));
}

#[test]
fn short_input_is_an_invalid_length() {
    assert_eq!(read_u16(&mut buf(&[1])), Err(Error::InvalidLength));
    assert_eq!(read_u32(&mut buf(&[1, 2, 3])), Err(Error::InvalidLength));
    assert_eq!(read_u64(&mut buf(&[1, 2, 3, 4, 5, 6, 7])), Err(Error::InvalidLength));
    assert_eq!(read_i64(&mut buf(&[1, 2, 3, 4, 5, 6, 7])), Err(Error::InvalidLength));
    assert_eq!(read_exact(&mut buf(&[1, 2]), 3), Err(Error::InvalidLength));
    assert!(read_frame(&mut buf(&[1, 2]), 3).is_err());
}

#[test]
fn read_exact_takes_the_front_and_leaves_the_rest() {
    let mut b = buf(&[1, 2, 3, 4, 5]);
    assert_eq!(read_exact(&mut b, 2), Ok(vec![1, 2]));
    assert_eq!(read_u8(&mut b), Ok(3));
    let mut head = read_frame(&mut b, 1).unwrap();
    assert_eq!(read_u8(&mut head), Ok(4));
    assert_eq!(read_u8(&mut head), Err(Error::InvalidLength));
    assert_eq!(read_u8(&mut b), Ok(5));
}

#[test]
fn pushes_are_big_endian() {
    let mut out = vec![0xEE];
    push_u8(&mut out, 0x12);
    push_u16(&mut out, 0x3456);
    push_u32(&mut out, 0x789ABCDE);
    push_u64(&mut out, 0xF001020304050607);
    push_i32(&mut out, -2);
    push_i64(&mut out, -3);
    push_bytes(&mut out, &vec![9, 8]);
    assert_eq!(
        out,
        vec![
            0xEE, 0x12, 0x34, 0x56, 0x78, 0x9A, 0xBC, 0xDE, 0xF0, 0x01, 0x02, 0x03, 0x04, 0x05,
            0x06, 0x07, 0xFF, 0xFF, 0xFF, 0xFE, 0xFF, 0xFF, 0xFF, 0xFF, 0xFF, 0xFF, 0xFF, 0xFD, 9,
            8
        ]
    );
}

#[test]
fn length_prefixed_runs() {
    let mut out = Vec::new();
    assert_eq!(write_bytes(&vec![7, 8, 9], &mut out), Ok(5));
    assert_eq!(write_utf8(vec![1], &mut out), Ok(3));
    assert_eq!(write_string(String::from("hé"), &mut out), Ok(5));
    assert_eq!(out, vec![0, 3, 7, 8, 9, 0, 1, 1, 0, 3, b'h', 0xC3, 0xA9]);
    let mut b = buf(&out);
    assert_eq!(read_bytes(&mut b), Ok(vec![7, 8, 9]));
    assert_eq!(read_utf8(&mut b), Ok(vec![1]));
    assert_eq!(read_string(&mut b), Ok(String::from("hé")));
    assert_eq!(read_bytes(&mut b), Err(Error::InvalidLength));
}

#[test]
fn a_run_longer_than_its_count_field_is_refused() {
    let long = vec![0u8; 65536];
    let mut out = vec![1, 2];
    assert_eq!(write_bytes(&long, &mut out), Err(Error::InvalidLength));
    assert_eq!(out, vec![1, 2]);
    let just = vec![0u8; 65535];
    assert_eq!(write_bytes(&just, &mut out), Ok(65537));
    assert_eq!(out.len(), 2 + 65537);
}

#[test]
fn a_declared_length_past_the_end_is_refused() {
    assert_eq!(read_bytes(&mut buf(&[0, 3, 1, 2])), Err(Error::InvalidLength));
    assert_eq!(read_string(&mut buf(&[0, 3, b'a', b'b'])), Err(Error::InvalidLength));
}

#[test]
fn invalid_utf8_is_an_error_not_a_replacement() {
    let r = read_string(&mut buf(&[0, 2, 0xC3, 0x28]));
    assert!(matches!(r, Err(Error::InvalidString(_))));
    let r = Constant::decode(&mut buf(&[1, 0, 1, 0xFF]));
    match r {
        Err(Error::InvalidString(text)) => assert!(!text.is_empty()),
        other => panic!("{:?}", other),
    }
}

#[test]
fn every_constant_round_trips() {
    for constant in every_constant() {
        let mut out = Vec::new();
        let n = constant.to_buf(&mut out).unwrap();
        assert_eq!(n, out.len());
        out.push(0xAB);
        let mut b = buf(&out);
        assert_eq!(Constant::decode(&mut b), Ok(constant));
        assert_eq!(&b[..], &[0xAB]);
    }
}

#[test]
fn constants_have_their_exact_bytes() {
    let cases: Vec<(Constant, Vec<u8>)> = vec![
        (Constant::Class { name_index: 0x0102 }, vec![7, 1, 2]),
        (Constant::FieldRef { class_index: 1, name_and_type_index: 2 }, vec![9, 0, 1, 0, 2]),
        (Constant::MethodRef { class_index: 3, name_and_type_index: 4 }, vec![10, 0, 3, 0, 4]),
        (
            Constant::InterfaceMethodRef { class_index: 5, name_and_type_index: 6 },
            vec![11, 0, 5, 0, 6],
        ),
        (Constant::String { string_index: 7 }, vec![8, 0, 7]),
        (Constant::Integer(-2), vec![3, 0xFF, 0xFF, 0xFF, 0xFE]),
        (Constant::Float(1.5f32.to_bits()), vec![4, 0x3F, 0xC0, 0, 0]),
        (Constant::Long(1), vec![5, 0, 0, 0, 0, 0, 0, 0, 1]),
        (Constant::Double(2.0f64.to_bits()), vec![6, 0x40, 0, 0, 0, 0, 0, 0, 0]),
        (Constant::NameAndType { name_index: 8, descriptor_index: 9 }, vec![12, 0, 8, 0, 9]),
        (Constant::Utf8(String::from("Hi")), vec![1, 0, 2, b'H', b'i']),
        (Constant::MethodHandle { reference_kind: 6, reference_index: 10 }, vec![15, 6, 0, 10]),
        (Constant::MethodType { descriptor_index: 11 }, vec![16, 0, 11]),
        (
            Constant::InvokeDynamic { bootstrap_method_attr_index: 12, name_and_type_index: 13 },
            vec![18, 0, 12, 0, 13],
        ),
    ];
    for (constant, bytes) in cases {
        let mut out = Vec::new();
        assert_eq!(constant.encode(&mut out), Ok(bytes.len()));
        assert_eq!(out, bytes);
        assert_eq!(Constant::decode(&mut buf(&bytes)), Ok(constant));
    }
}

#[test]
fn multibyte_text_survives_byte_for_byte() {
    let text = "héllo, 世界 🦀";
    let mut bytes = vec![1, 0, text.len() as u8];
    bytes.extend_from_slice(text.as_bytes());
    let constant = Constant::decode(&mut buf(&bytes)).unwrap();
    assert_eq!(constant, Constant::Utf8(String::from(text)));
    let mut out = Vec::new();
    constant.to_buf(&mut out).unwrap();
    assert_eq!(out, bytes);
}

#[test]
fn an_unknown_tag_is_refused() {
    assert_eq!(Constant::decode(&mut buf(&[0xFF, 0, 1])), Err(Error::InvalidConstantTag(0xFF)));
    assert_eq!(Constant::decode(&mut buf(&[0, 0, 1])), Err(Error::InvalidConstantTag(0)));
    assert_eq!(Constant::decode(&mut buf(&[2, 0, 1])), Err(Error::InvalidConstantTag(2)));
    for tag in [17u8, 19, 20] {
        assert_eq!(
            Constant::decode(&mut buf(&[tag, 0, 1, 0, 2])),
            Err(Error::InvalidConstantTag(tag))
        );
    }
}

#[test]
fn a_pool_with_a_bad_entry_is_refused_as_a_whole() {
    let bytes = [7, 0, 1, 0xFF, 0, 0];
    assert_eq!(decode_pool(&mut buf(&bytes), 3), Err(Error::InvalidConstantTag(0xFF)));
}

#[test]
fn a_truncated_constant_is_an_invalid_length() {
    for constant in every_constant() {
        let mut out = Vec::new();
        constant.to_buf(&mut out).unwrap();
        for cut in 0..out.len() {
            assert_eq!(
                Constant::decode(&mut buf(&out[..cut])),
                Err(Error::InvalidLength),
                "{:?} cut at {}",
                constant,
                cut
            );
        }
    }
}

#[test]
fn a_text_too_long_for_its_length_field_has_no_bytes() {
    let constant = Constant::Utf8("a".repeat(65536));
    let mut out = vec![5];
    assert_eq!(constant.to_buf(&mut out), Err(Error::InvalidLength));
    assert_eq!(out, vec![5]);
    let constant = Constant::Utf8("a".repeat(65535));
    assert_eq!(constant.to_buf(&mut out), Ok(65538));
}

#[test]
fn a_pool_reads_one_entry_fewer_than_its_count() {
    let bytes = [7, 0, 2, 1, 0, 1, b'A', 3, 0, 0, 0, 9];
    let mut b = buf(&bytes);
    let pool = decode_pool(&mut b, 3).unwrap();
    assert_eq!(
        pool,
        vec![Constant::Class { name_index: 2 }, Constant::Utf8(String::from("A"))]
    );
    assert_eq!(&b[..], &[3, 0, 0, 0, 9]);
    let mut out = Vec::new();
    assert_eq!(encode_pool(&pool, &mut out), Ok(7));
    assert_eq!(out, bytes[..7].to_vec());
    assert_eq!(decode_pool(&mut buf(&bytes), 1), Ok(vec![]));
    assert_eq!(decode_pool(&mut buf(&bytes), 0), Err(Error::InvalidLength));
    assert_eq!(decode_pool(&mut buf(&bytes), 5), Err(Error::InvalidLength));
}

#[test]
fn pool_indices_count_from_one() {
    let pool = vec![
        Constant::Utf8(String::from("first")),
        Constant::Class { name_index: 1 },
        Constant::Class { name_index: 2 },
        Constant::Class { name_index: 0 },
        Constant::Class { name_index: 9 },
    ];
    assert_eq!(get_utf8(&pool, 0), None);
    assert_eq!(get_utf8(&pool, 1), Some(&String::from("first")));
    assert_eq!(get_utf8(&pool, 2), None);
    assert_eq!(get_utf8(&pool, 6), None);
    assert_eq!(get_class_name(&pool, 0), None);
    assert_eq!(get_class_name(&pool, 1), None);
    assert_eq!(get_class_name(&pool, 2), Some(&String::from("first")));
    assert_eq!(get_class_name(&pool, 3), None);
    assert_eq!(get_class_name(&pool, 4), None);
    assert_eq!(get_class_name(&pool, 5), None);
    assert_eq!(get_class_name(&pool, 6), None);
}

#[test]
fn tags_and_their_bytes() {
    let all = [
        (Tag::Class, 7u8),
        (Tag::FieldRef, 9),
        (Tag::MethodRef, 10),
        (Tag::InterfaceMethodRef, 11),
        (Tag::String, 8),
        (Tag::Integer, 3),
        (Tag::Float, 4),
        (Tag::Long, 5),
        (Tag::Double, 6),
        (Tag::NameAndType, 12),
        (Tag::Utf8, 1),
        (Tag::MethodHandle, 15),
        (Tag::MethodType, 16),
        (Tag::Dynamic, 17),
        (Tag::InvokeDynamic, 18),
        (Tag::Module, 19),
        (Tag::Package, 20),
    ];
    for (tag, byte) in all {
        assert_eq!(tag.value(), byte);
        assert_eq!(Tag::from_u8(byte), Some(tag));
    }
    for byte in [0u8, 2, 13, 14, 21, 255] {
        assert_eq!(Tag::from_u8(byte), None);
    }
}

#[test]
fn constants_are_shown_by_their_kind() {
    let names: Vec<&str> = every_constant().iter().map(|c| c.kind_name()).collect();
    assert_eq!(
        names,
        vec![
            "Constant::Class",
            "Constant::FieldRef",
            "Constant::MethodRef",
            "Constant::InterfaceMethodRef",
            "Constant::String",
            "Constant::Integer",
            "Constant::Integer",
            "Constant::Integer",
            "Constant::Float",
            "Constant::Float",
            "Constant::Long",
            "Constant::Long",
            "Constant::Long",
            "Constant::Double",
            "Constant::NameAndType",
            "Constant::Utf8",
            "Constant::Utf8",
            "Constant::MethodHandle",
            "Constant::MethodType",
            "Constant::InvokeDynamic",
        ]
    );
}

#[test]
fn a_pool_that_cannot_be_written_leaves_the_output_alone() {
    let pool = vec![Constant::Integer(1), Constant::Utf8("a".repeat(70000)), Constant::Integer(2)];
    let mut out = vec![1, 2, 3];
    assert_eq!(encode_pool(&pool, &mut out), Err(Error::InvalidLength));
    assert_eq!(out, vec![1, 2, 3]);
}
