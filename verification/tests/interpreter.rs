use classfile::access_flags::{AccessFlags, ACC_FINAL, ACC_PUBLIC, ACC_STATIC, ACC_VOLATILE};
use classfile::attribute::{Attribute, AttributeType, CodeAttribute};
use classfile::basic_type::BasicType;
use classfile::class_file::ClassFile;
use classfile::classpath::{
    class_entry_name, class_file_path, ClassPathManager, ClassPathResult, ClassSource,
};
use classfile::field::FieldInfo;
use classfile::method::MethodInfo;
use classfile::oops::class::{
    Class, ClassPtr, ClassState, Instance, InstanceType, ObjectArrayInstance, ObjectInstance,
    TypeArrayInstance,
};
use classfile::oops::field::{Field, FieldId};
use classfile::oops::method::{Method, MethodId};
use classfile::oops::{ArrayOop, Oop, OopRef, TypeArrayOop};
use classfile::runtime::constant_pool::{ConstantCacheType, ConstantPoolCache};
use classfile::runtime::frame::Frame;
use classfile::runtime::local_vars::LocalVars;
use classfile::runtime::park::{
    park_begins, park_locked, park_timed_out, park_woken, unpark_found, Park, Unpark, EMPTY,
    NOTIFIED, PARKED,
};
use classfile::runtime::{DataArea, Slot};
use classfile::stack::Stack;
use classfile::sys::dic::SystemDictionary;
use classfile::types_ref::ClassRef;
use classfile::MAGIC;
use std::sync::Arc;

fn handle(address: u64) -> ClassRef {
    Arc::new(ClassPtr::from_address(address))
}

fn field(bits: u16) -> Field {
    Field {
        access_flags: AccessFlags::new(bits),
        class: handle(7),
        name: Arc::new(b"count".to_vec()),
        field_type: BasicType::INT,
        field_info: FieldInfo {
            access_flags: bits,
            name_index: 21,
            descriptor_index: 22,
            attributes: vec![],
        },
        constant_value: Some(Oop::Int(3)),
    }
}

#[test]
fn a_field_answers_from_its_parts() {
    let f = field(ACC_PUBLIC | ACC_STATIC | ACC_FINAL);
    assert!(f.is_public() && f.is_static() && f.is_final());
    assert!(!f.is_private() && !f.is_protected() && !f.is_volatile());
    assert_eq!(f.access_flags().bits(), 0x0019);
    assert_eq!(f.name_index(), 21);
    assert_eq!(**f.name(), b"count".to_vec());
    assert_eq!(f.field_info().descriptor_index, 22);
    assert!(Arc::ptr_eq(&f.field_holder(), &f.class));
    assert_eq!(f.field_holder().address(), 7);
    assert!(field(ACC_VOLATILE).is_volatile());
    assert!(field(0x0002).is_private());
    assert!(field(0x0004).is_protected());
    let id = FieldId { index: 2, field: f };
    assert_eq!(id.index, 2);
}

fn object_instance(flags: &[u16]) -> ObjectInstance {
    ObjectInstance {
        class: handle(1),
        interfaces: vec![],
        methods: vec![],
        fields: flags
            .iter()
            .map(|bits| (Arc::new(FieldId { index: 0, field: field(*bits) }), Oop::Null))
            .collect(),
        mirror: None,
    }
}

#[test]
fn an_instance_counts_its_fields() {
    let instance = object_instance(&[ACC_STATIC, 0, ACC_PUBLIC, ACC_STATIC | ACC_FINAL, 0]);
    assert_eq!(instance.static_field_size(), 3);
    assert_eq!(instance.field_size(), 2);
    let none = object_instance(&[]);
    assert_eq!(none.static_field_size(), 0);
    assert_eq!(none.field_size(), 0);
    let all_static = object_instance(&[ACC_STATIC, ACC_STATIC]);
    assert_eq!(all_static.static_field_size(), 0);
    assert_eq!(all_static.field_size(), 2);
}

fn class_file() -> Arc<ClassFile> {
    Arc::new(ClassFile {
        magic: MAGIC,
        minor_version: 0,
        major_version: 52,
        constant_pool: Arc::new(vec![]),
        access_flags: 0,
        this_class: 0,
        super_class: 0,
        interfaces: vec![],
        fields: vec![],
        methods: vec![],
        attributes: vec![],
    })
}

fn class(bits: u16, instance: Instance) -> Class {
    Class::new(
        AccessFlags::new(bits),
        Arc::new(vec![]),
        Arc::new(b"java/lang/String".to_vec()),
        Some(handle(99)),
        class_file(),
        instance,
    )
}

#[test]
fn a_class_answers_from_its_parts() {
    let mut c = class(0x0031, Instance::Instance(object_instance(&[])));
    assert_eq!(c.class_state, ClassState::Allocated);
    assert!(c.is_public() && c.is_final() && c.is_super());
    assert!(!c.is_interface() && !c.is_abstract() && !c.is_synthetic());
    assert_eq!(c.access_flags().bits(), 0x0031);
    assert_eq!(*c.get_name(), b"java/lang/String".to_vec());
    assert_eq!(c.super_class().map(|s| s.address()), Some(99));
    assert_eq!(c.get_instance_type(), InstanceType::ObjectInstance);
    assert_eq!(c.sub_classes().map(|s| s.len()), Some(0));
    assert!(!c.is_subclass_of(handle(5)));
    c.append_subclass(handle(5));
    c.append_subclass(handle(6));
    assert!(c.is_subclass_of(handle(5)));
    assert!(c.is_subclass_of(handle(6)));
    assert!(!c.is_subclass_of(handle(7)));
    let below: Vec<u64> = c.sub_classes().unwrap().iter().map(|s| s.address()).collect();
    assert_eq!(below, vec![5, 6]);
    c.sub_classes = None;
    c.append_subclass(handle(5));
    assert!(c.sub_classes().is_none());
    assert!(!c.is_subclass_of(handle(5)));
    let c = class(0x1600, Instance::Instance(object_instance(&[])));
    assert!(c.is_interface() && c.is_abstract() && c.is_synthetic());
}

#[test]
fn a_class_knows_what_its_instances_are() {
    let array = ObjectArrayInstance {
        dimension: 1,
        element_type: BasicType::OBJECT,
        element_class: handle(1),
        bottom_class: handle(1),
        mirror: None,
    };
    assert_eq!(
        class(0, Instance::ObjectArray(array)).get_instance_type(),
        InstanceType::ObjectArrayInstance
    );
    let ints = TypeArrayInstance {
        dimension: 2,
        element_type: BasicType::INT,
        max_length: 10,
        mirror: Some(Oop::Null),
    };
    assert_eq!(
        class(0, Instance::TypeArray(ints)).get_instance_type(),
        InstanceType::TypeArrayInstance
    );
}

#[test]
fn values_hold_bit_patterns() {
    assert_eq!(Oop::Float(1.5f32.to_bits()), Oop::Float(0x3FC00000));
    assert_ne!(Oop::Int(0), Oop::Null);
    assert_eq!(Oop::Reference(Arc::new(OopRef(4))), Oop::Reference(Arc::new(OopRef(4))));
    let array = ArrayOop { class: handle(1), elements: vec![Oop::Long(2), Oop::Double(0)] };
    assert_eq!(array.elements.len(), 2);
    match TypeArrayOop::Float(Box::new(vec![2.0f32.to_bits()])) {
        TypeArrayOop::Float(bits) => assert_eq!(f32::from_bits(bits[0]), 2.0),
        other => panic!("{:?}", other),
    }
}

#[test]
fn local_variables_count_from_one() {
    let mut vars = LocalVars::new(5);
    assert_eq!(vars.size(), 5);
    vars.set_int(1, -7);
    vars.set_long(2, i64::MAX);
    vars.set_float(3, 1.5f32.to_bits());
    vars.set_double(4, 2.5f64.to_bits());
    vars.set_ref(5, Arc::new(OopRef(11)));
    assert_eq!(vars.get_int(1), -7);
    assert_eq!(vars.get_long(2), i64::MAX);
    assert_eq!(f32::from_bits(vars.get_float(3)), 1.5);
    assert_eq!(f64::from_bits(vars.get_double(4)), 2.5);
    assert_eq!(*vars.get_ref(5), OopRef(11));
    vars.set_int(5, 8);
    assert_eq!(vars.get_int(5), 8);
    assert_eq!(vars.get_int(1), -7);
    assert_eq!(LocalVars::new(0).size(), 0);
}

fn method_id(max_stack: u16, max_locals: u16) -> Arc<MethodId> {
    Arc::new(MethodId {
        index: 0,
        method: Method {
            access_flags: AccessFlags::new(0),
            class: handle(1),
            offset: 0,
            method_info: MethodInfo {
                access_flags: 0,
                name_index: 1,
                descriptor_index: 2,
                attributes: vec![Attribute {
                    attribute_name_index: 3,
                    attribute_length: 13,
                    attr_type: AttributeType::Code {
                        code: CodeAttribute {
                            max_stack,
                            max_locals,
                            code: Arc::new(vec![0xB1]),
                            exception_table: vec![],
                            attributes: vec![],
                        },
                    },
                }],
                code_attr_index: Some(0),
            },
        },
    })
}

#[test]
fn a_frame_pushes_and_pops() {
    let mir = method_id(6, 2);
    let mut frame = Frame::new(mir.clone(), 9, Arc::new(vec![]), Arc::new(vec![0xB1]));
    assert_eq!(frame.id, 9);
    assert_eq!(frame.pc, 0);
    assert_eq!(frame.stack_pointer, 0);
    assert!(Arc::ptr_eq(&frame.method, &mir));
    assert_eq!(frame.data_area.local.size(), 2);
    assert_eq!(frame.data_area.stack.size(), 0);
    frame.push_int(1);
    frame.push_long(2);
    frame.push_float(3.0f32.to_bits());
    frame.push_double(4.0f64.to_bits());
    frame.push_null();
    frame.push_ref(Oop::Reference(Arc::new(OopRef(5))));
    assert_eq!(frame.data_area.stack.size(), 6);
    assert_eq!(frame.pop(), Oop::Reference(Arc::new(OopRef(5))));
    assert_eq!(frame.pop(), Oop::Null);
    assert_eq!(frame.pop(), Oop::Double(4.0f64.to_bits()));
    assert_eq!(frame.pop(), Oop::Float(3.0f32.to_bits()));
    assert_eq!(frame.pop(), Oop::Long(2));
    frame.push_nop();
    assert_eq!(frame.data_area.stack.peek(), Some(&Slot::Nop));
    assert_eq!(frame.data_area.stack.pop(), Some(Slot::Nop));
    assert_eq!(frame.pop(), Oop::Int(1));
    assert_eq!(frame.data_area.stack.size(), 0);
}

#[test]
fn a_data_area_starts_empty() {
    let area = DataArea::new(3, 4);
    assert_eq!(area.local.size(), 3);
    assert_eq!(area.stack.size(), 0);
    assert!(area.value.is_none());
}

#[test]
fn the_top_of_a_stack_is_changed_in_place() {
    let mut stack: Stack<u32> = Stack::new(2);
    assert!(stack.peek_mut().is_none());
    stack.push(1);
    stack.push(2);
    if let Some(top) = stack.peek_mut() {
        *top = 20;
    }
    assert_eq!(stack.size(), 2);
    assert_eq!(stack.pop(), Some(20));
    assert_eq!(stack.pop(), Some(1));
}

#[test]
fn class_names_become_paths() {
    assert_eq!(class_entry_name("java/lang/String", "/"), "java/lang/String.class");
    assert_eq!(class_entry_name("java.lang.String", "/"), "java/lang/String.class");
    assert_eq!(class_entry_name("java.util/Map.Entry", "\\"), "java\\util\\Map\\Entry.class");
    assert_eq!(class_entry_name("Example", "/"), "Example.class");
    assert_eq!(class_entry_name("", "/"), ".class");
    assert_eq!(class_entry_name("a.b", "."), "a.b.class");
    assert_eq!(class_file_path("/opt/classes", "a.b.C", "/"), "/opt/classes/a/b/C.class");
    assert_eq!(class_file_path("lib", "C", "\\"), "lib\\C.class");
    let found = ClassPathResult { path: String::from("lib"), data: vec![0xCA, 0xFE] };
    assert_eq!(found.clone().data, vec![0xCA, 0xFE]);
}

#[test]
fn a_parker_decides_by_the_state_it_found() {
    assert_eq!((EMPTY, PARKED, NOTIFIED), (0, 1, 2));
    assert_eq!(unpark_found(EMPTY), Unpark::Return(true));
    assert_eq!(unpark_found(NOTIFIED), Unpark::Return(false));
    assert_eq!(unpark_found(PARKED), Unpark::Wake);
    assert_eq!(park_begins(true, false), Park::Return(true));
    assert_eq!(park_begins(true, true), Park::Return(true));
    assert_eq!(park_begins(false, true), Park::Return(false));
    assert_eq!(park_begins(false, false), Park::Lock);
    assert_eq!(park_locked(EMPTY), Park::Wait);
    assert_eq!(park_locked(NOTIFIED), Park::Consume);
    assert!(park_timed_out(NOTIFIED));
    assert!(!park_timed_out(PARKED));
    assert_eq!(park_woken(true), Park::Return(true));
    assert_eq!(park_woken(false), Park::Wait);
}

#[test]
fn the_dictionary_finds_what_was_put() {
    let mut dictionary = SystemDictionary::new();
    assert!(dictionary.find(b"java/lang/Object").is_none());
    dictionary.put(b"java/lang/Object", handle(1));
    dictionary.put(b"java/lang/String", handle(2));
    assert_eq!(dictionary.find(b"java/lang/Object").map(|c| c.address()), Some(1));
    assert_eq!(dictionary.find(b"java/lang/String").map(|c| c.address()), Some(2));
    assert!(dictionary.find(b"java/lang/Strin").is_none());
    assert!(dictionary.find(b"").is_none());
    dictionary.put(b"java/lang/Object", handle(3));
    assert_eq!(dictionary.find(b"java/lang/Object").map(|c| c.address()), Some(3));
    assert_eq!(dictionary.find(b"java/lang/String").map(|c| c.address()), Some(2));
    dictionary.put("h\u{e9}".as_bytes(), handle(4));
    assert_eq!(dictionary.find(&[b'h', 0xC3, 0xA9]).map(|c| c.address()), Some(4));
}

#[test]
fn a_cache_starts_with_nothing_resolved() {
    let pool = Arc::new(vec![]);
    let cache = ConstantPoolCache::new(pool.clone());
    assert!(Arc::ptr_eq(&cache.constant_pool, &pool));
    cache.get_field(3);
    let id = Arc::new(FieldId { index: 1, field: field(0) });
    let entry = ConstantCacheType::Field(id.clone());
    assert!(Arc::ptr_eq(&entry.get_field(), &id));
    let mir = method_id(1, 1);
    let entry = ConstantCacheType::Method(mir.clone());
    assert!(Arc::ptr_eq(&entry.get_method(), &mir));
}

#[test]
fn the_class_path_names_the_file_of_a_class_for_each_entry() {
    let mut manager = ClassPathManager::new();
    assert_eq!(manager.size(), 0);
    manager.add_class_path("/opt/classes", ClassSource::Dir);
    manager.add_class_path("/opt/rt.jar", ClassSource::Jar);
    assert_eq!(manager.size(), 2);
    assert_eq!(manager.class_path[0].path, "/opt/classes");
    assert_eq!(manager.class_path[1].source, ClassSource::Jar);
    assert_eq!(
        manager.lookup(0, "java.lang.Object", "/"),
        (ClassSource::Dir, String::from("/opt/classes/java/lang/Object.class"))
    );
    assert_eq!(
        manager.lookup(1, "java.lang.Object", "/"),
        (ClassSource::Jar, String::from("java/lang/Object.class"))
    );
    assert_eq!(
        manager.lookup(0, "a/B", "\\"),
        (ClassSource::Dir, String::from("/opt/classes\\a\\B.class"))
    );
}
