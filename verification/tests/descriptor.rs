use classfile::basic_type::BasicType;
use classfile::descriptor::{FieldType, ParameterDescriptor, ReturnDescriptor, VoidDescriptor};

#[test]
fn test_fmt_field_type() {
    let class_name = &String::from("java/lang/String");
    let field_type = FieldType::Array(Box::new(FieldType::Array(Box::new(
        FieldType::Reference(class_name),
    ))));
    println!("{}", field_type.to_text());
}

#[test]
fn field_type_text_is_exact() {
    let class_name = &String::from("java/lang/String");
    let field_type = FieldType::Array(Box::new(FieldType::Array(Box::new(
        FieldType::Reference(class_name),
    ))));
    assert_eq!(field_type.to_text(), "[[Ljava/lang/String");
}

#[test]
fn primitive_field_types_are_one_letter() {
    assert_eq!(FieldType::Byte.to_text(), "B");
    assert_eq!(FieldType::Char.to_text(), "C");
    assert_eq!(FieldType::Double.to_text(), "D");
    assert_eq!(FieldType::Float.to_text(), "F");
    assert_eq!(FieldType::Int.to_text(), "I");
    assert_eq!(FieldType::Long.to_text(), "J");
    assert_eq!(FieldType::Short.to_text(), "S");
    assert_eq!(FieldType::Boolean.to_text(), "Z");
}

#[test]
fn parameter_and_return_descriptors() {
    let name = String::from("Example");
    assert_eq!(ParameterDescriptor::FieldType(FieldType::Int).to_text(), "I");
    assert_eq!(ReturnDescriptor::FieldType(FieldType::Reference(&name)).to_text(), "LExample");
    assert_eq!(ReturnDescriptor::Void(VoidDescriptor::Void).to_text(), "V");
    assert_eq!(VoidDescriptor::Void.to_text(), "V");
}

#[test]
fn basic_type_letters_and_names() {
    let all = [
        (BasicType::BOOLEAN, b'Z', 4u8),
        (BasicType::CHAR, b'C', 5),
        (BasicType::FLOAT, b'F', 6),
        (BasicType::DOUBLE, b'D', 7),
        (BasicType::BYTE, b'B', 8),
        (BasicType::SHORT, b'S', 9),
        (BasicType::INT, b'I', 10),
        (BasicType::LONG, b'J', 11),
        (BasicType::OBJECT, b'L', 12),
        (BasicType::ARRAY, b'[', 13),
        (BasicType::VOID, b'V', 14),
    ];
    for (basic_type, letter, code) in all {
        assert_eq!(basic_type.into_letter(), letter);
        assert_eq!(BasicType::from_letter(letter), basic_type);
        assert_eq!(basic_type.code(), code);
    }
    assert_eq!(BasicType::BOOLEAN.get_primitive_name(), b"boolean");
    assert_eq!(BasicType::CHAR.get_primitive_name(), b"char");
    assert_eq!(BasicType::FLOAT.get_primitive_name(), b"float");
    assert_eq!(BasicType::DOUBLE.get_primitive_name(), b"double");
    assert_eq!(BasicType::BYTE.get_primitive_name(), b"byte");
    assert_eq!(BasicType::SHORT.get_primitive_name(), b"short");
    assert_eq!(BasicType::INT.get_primitive_name(), b"int");
    assert_eq!(BasicType::LONG.get_primitive_name(), b"long");
}
