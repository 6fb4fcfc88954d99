use classfile::access_flags::{
    AccessFlags, ACC_ABSTRACT, ACC_ANNOTATION, ACC_BRIDGE, ACC_ENUM, ACC_FINAL, ACC_INTERFACE,
    ACC_NATIVE, ACC_PRIVATE, ACC_PROTECTED, ACC_PUBLIC, ACC_STATIC, ACC_STRICT, ACC_SUPER,
    ACC_SYNCHRONIZED, ACC_SYNTHETIC, ACC_TRANSIENT, ACC_VARARGS, ACC_VOLATILE,
};
use classfile::attribute::{Attribute, AttributeType, CodeAttribute};
use classfile::method::MethodInfo;
use classfile::oops::class::{ClassPtr, ClassState, InstanceType};
use classfile::oops::method::{Method, MethodId};
use classfile::oops::module::{ModuleEntry, ModuleEntryTable};
use classfile::oops::symbol::Symbol;
use classfile::oops::{InstanceOop, MirrorOop, ObjArrayOop, OopRef};
use classfile::package::{PackageEntry, PackageEntryTable};
use classfile::runtime::thread::JavaThreadState;
use classfile::stack::Stack;
use classfile::types::Type;
use std::sync::Arc;

fn flags_of(flags: &AccessFlags) -> [bool; 14] {
    [
        flags.is_public(),
        flags.is_private(),
        flags.is_protected(),
        flags.is_static(),
        flags.is_final(),
        flags.is_synchronized(),
        flags.is_super(),
        flags.is_volatile(),
        flags.is_transient(),
        flags.is_native(),
        flags.is_interface(),
        flags.is_abstract(),
        flags.is_strict(),
        flags.is_synthetic(),
    ]
}

#[test]
fn each_flag_has_its_bit() {
    assert_eq!(flags_of(&AccessFlags::new(0)), [false; 14]);
    assert_eq!(flags_of(&AccessFlags::new(0x1FFF)), [true; 14]);
    assert_eq!(flags_of(&AccessFlags::new(0xE000)), [false; 14]);
    let one = |i: usize| {
        let mut expect = [false; 14];
        expect[i] = true;
        expect
    };
    assert_eq!(flags_of(&AccessFlags::new(0x0001)), one(0));
    assert_eq!(flags_of(&AccessFlags::new(0x0002)), one(1));
    assert_eq!(flags_of(&AccessFlags::new(0x0004)), one(2));
    assert_eq!(flags_of(&AccessFlags::new(0x0008)), one(3));
    assert_eq!(flags_of(&AccessFlags::new(0x0010)), one(4));
    let mut both = one(5);
    both[6] = true;
    assert_eq!(flags_of(&AccessFlags::new(0x0020)), both);
    assert_eq!(flags_of(&AccessFlags::new(0x0040)), one(7));
    assert_eq!(flags_of(&AccessFlags::new(0x0080)), one(8));
    assert_eq!(flags_of(&AccessFlags::new(0x0100)), one(9));
    assert_eq!(flags_of(&AccessFlags::new(0x0200)), one(10));
    assert_eq!(flags_of(&AccessFlags::new(0x0400)), one(11));
    assert_eq!(flags_of(&AccessFlags::new(0x0800)), one(12));
    assert_eq!(flags_of(&AccessFlags::new(0x1000)), one(13));
    assert_eq!(AccessFlags::new(0x1234).bits(), 0x1234);
}

#[test]
fn the_flag_constants() {
    assert_eq!(
        [
            ACC_PUBLIC,
            ACC_PRIVATE,
            ACC_PROTECTED,
            ACC_STATIC,
            ACC_FINAL,
            ACC_SUPER,
            ACC_SYNCHRONIZED,
            ACC_BRIDGE,
            ACC_VOLATILE,
            ACC_VARARGS,
            ACC_TRANSIENT,
            ACC_NATIVE,
            ACC_INTERFACE,
            ACC_ABSTRACT,
            ACC_STRICT,
            ACC_SYNTHETIC,
            ACC_ANNOTATION,
            ACC_ENUM
        ],
        [
            0x0001, 0x0002, 0x0004, 0x0008, 0x0010, 0x0020, 0x0020, 0x0040, 0x0040, 0x0080, 0x0080,
            0x0100, 0x0200, 0x0400, 0x0800, 0x1000, 0x2000, 0x4000
        ]
    );
}

fn method(bits: u16, attributes: Vec<Attribute>, code_attr_index: Option<usize>) -> Method {
    Method {
        access_flags: AccessFlags::new(bits),
        class: Arc::new(ClassPtr::from_address(0x1000)),
        offset: 3,
        method_info: MethodInfo {
            access_flags: bits,
            name_index: 17,
            descriptor_index: 18,
            attributes,
            code_attr_index,
        },
    }
}

#[test]
fn a_method_answers_from_its_flags() {
    let m = method(ACC_PUBLIC | ACC_STATIC | ACC_FINAL, vec![], None);
    assert!(m.is_public() && m.is_static() && m.is_final());
    assert!(!m.is_private() && !m.is_protected() && !m.is_package_private());
    assert!(!m.is_synchronized() && !m.is_native() && !m.is_abstract());
    assert!(!m.is_strict() && !m.is_synthetic());
    assert_eq!(m.access_flags().bits(), 0x0019);
    assert_eq!(m.name_index(), 17);
    let m = method(ACC_SYNCHRONIZED | ACC_NATIVE | ACC_ABSTRACT | ACC_STRICT | ACC_SYNTHETIC, vec![], None);
    assert!(m.is_package_private());
    assert!(m.is_synchronized() && m.is_native() && m.is_abstract());
    assert!(m.is_strict() && m.is_synthetic());
    assert!(!method(ACC_PRIVATE, vec![], None).is_package_private());
    assert!(method(ACC_PRIVATE, vec![], None).is_private());
    assert!(!method(ACC_PROTECTED, vec![], None).is_package_private());
    assert!(method(ACC_PROTECTED, vec![], None).is_protected());
    assert_eq!(m.class.address(), 0x1000);
    let id = MethodId { index: 4, method: m };
    assert_eq!(id.index, 4);
    assert_eq!(id.method.offset, 3);
}

#[test]
fn a_method_takes_its_sizes_from_its_code() {
    let code = Attribute {
        attribute_name_index: 1,
        attribute_length: 12,
        attr_type: AttributeType::Code {
            code: CodeAttribute {
                max_stack: 7,
                max_locals: 9,
                code: Arc::new(vec![]),
                exception_table: vec![],
                attributes: vec![],
            },
        },
    };
    let m = method(0, vec![code], Some(0));
    assert_eq!(m.max_stack(), 7);
    assert_eq!(m.max_locals(), 9);
    let m = method(ACC_ABSTRACT, vec![], None);
    assert_eq!(m.max_stack(), 0);
    assert_eq!(m.max_locals(), 0);
    let not_code = Attribute {
        attribute_name_index: 1,
        attribute_length: 0,
        attr_type: AttributeType::Deprecated,
    };
    let m = method(0, vec![not_code], Some(0));
    assert_eq!(m.max_stack(), 0);
    assert_eq!(m.max_locals(), 0);
}

fn module(open: bool) -> ModuleEntry {
    ModuleEntry {
        version: Arc::new(vec![1, 2]),
        location: Arc::new(vec![3]),
        can_read_all_unnamed: true,
        has_default_read_edges: open,
        must_walk_read: false,
        is_open: open,
        is_patched: !open,
        next: None,
    }
}

#[test]
fn a_module_answers_from_its_fields() {
    let first = module(true);
    assert_eq!(*first.version(), vec![1, 2]);
    assert_eq!(*first.location(), vec![3]);
    assert!(Arc::ptr_eq(&first.version(), &first.version));
    assert!(!first.can_read());
    assert!(!first.has_reads_list());
    assert!(!first.is_named());
    assert!(first.is_open());
    assert!(first.can_read_all_unnamed());
    assert!(first.has_default_read_edges());
    assert!(!first.is_patched());
    assert!(first.next().is_none());
    let mut second = module(false);
    second.next = Some(Arc::new(first));
    assert!(!second.is_open());
    assert!(!second.has_default_read_edges());
    assert!(second.is_patched());
    let next = second.next().unwrap();
    assert!(next.is_open());
    assert!(Arc::ptr_eq(&next, second.next.as_ref().unwrap()));
}

#[test]
fn tables_grow_by_one() {
    let mut modules = ModuleEntryTable { entries: vec![] };
    assert_eq!(modules.entry_size(), 0);
    modules.add_entry(module(true));
    modules.add_entry(module(false));
    assert_eq!(modules.entry_size(), 2);
    assert!(modules.entries[0].is_open);
    assert!(!modules.entries[1].is_open);
    let mut packages = PackageEntryTable { entries: vec![] };
    assert_eq!(packages.entry_size(), 0);
    packages.add_entry(PackageEntry {
        module: Arc::new(module(true)),
        export_flags: 1,
        classpath_index: 5,
        must_walk_exports: false,
    });
    assert_eq!(packages.entry_size(), 1);
    assert_eq!(packages.entries[0].classpath_index(), 5);
}

#[test]
fn a_package_knows_whether_a_class_of_it_was_loaded() {
    let package = |classpath_index: u16| PackageEntry {
        module: Arc::new(module(true)),
        export_flags: 0,
        classpath_index,
        must_walk_exports: true,
    };
    assert!(package(0).has_loaded_class());
    assert!(package(7).has_loaded_class());
    assert!(!package(0xFFFF).has_loaded_class());
    assert_eq!(package(7).classpath_index(), 7);
    assert!(package(7).in_unnamed_module());
}

#[test]
fn a_stack_hands_back_what_came_last() {
    let mut stack: Stack<u32> = Stack::new(3);
    assert_eq!(stack.size(), 0);
    assert_eq!(stack.peek(), None);
    stack.push(1);
    stack.push(2);
    assert_eq!(stack.size(), 2);
    assert_eq!(stack.peek(), Some(&2));
    stack.push(3);
    assert_eq!(stack.size(), 3);
    assert_eq!(stack.pop(), Some(3));
    assert_eq!(stack.pop(), Some(2));
    assert_eq!(stack.peek(), Some(&1));
    stack.push(9);
    assert_eq!(stack.pop(), Some(9));
    assert_eq!(stack.pop(), Some(1));
    assert_eq!(stack.size(), 0);
    assert_eq!(stack.peek(), None);
}

#[test]
fn a_stack_is_walked_from_the_top() {
    let mut stack: Stack<&str> = Stack::new(4);
    stack.push("a");
    stack.push("b");
    stack.push("c");
    let mut iter = stack.iter();
    assert_eq!(iter.next(), Some(&"c"));
    assert_eq!(iter.next(), Some(&"b"));
    assert_eq!(iter.next(), Some(&"a"));
    assert_eq!(iter.next(), None);
    assert_eq!(iter.next(), None);
    assert_eq!(stack.size(), 3);
    let mut owned = stack.into_iter();
    assert_eq!(owned.remaining(), 3);
    assert_eq!(owned.next(), Some("c"));
    assert_eq!(owned.next(), Some("b"));
    assert_eq!(owned.remaining(), 1);
    assert_eq!(owned.next(), Some("a"));
    assert_eq!(owned.remaining(), 0);
    let empty: Stack<u8> = Stack::new(0);
    assert_eq!(empty.iter().next(), None);
}

#[test]
fn thread_states_and_other_names() {
    let states = [
        (JavaThreadState::Uninitialized, 0u8),
        (JavaThreadState::New, 2),
        (JavaThreadState::NewTrans, 3),
        (JavaThreadState::InNative, 4),
        (JavaThreadState::InNativeTrans, 5),
        (JavaThreadState::InVm, 6),
        (JavaThreadState::InVmTrans, 7),
        (JavaThreadState::InJava, 8),
        (JavaThreadState::InJavaTrans, 9),
        (JavaThreadState::Blocked, 10),
        (JavaThreadState::BlockedTrans, 11),
        (JavaThreadState::MaxState, 12),
    ];
    for (state, code) in states {
        assert_eq!(state.code(), code);
    }
    assert_eq!(ClassPtr::from_address(42).address(), 42);
    assert_eq!(ClassPtr::from_address(42), ClassPtr::from_address(42));
    assert_ne!(ClassState::Allocated, ClassState::FullyInitialized);
    assert_ne!(InstanceType::ObjectInstance, InstanceType::TypeArrayInstance);
    assert_ne!(Type::Byte, Type::Void);
    assert_eq!(OopRef(5), OopRef(5));
    assert_eq!(InstanceOop {}, InstanceOop {});
    assert_eq!(MirrorOop {}, MirrorOop {});
    assert_eq!(ObjArrayOop {}, ObjArrayOop {});
    assert_eq!(Symbol { length: 2, body: [1, 2] }.body, [1, 2]);
    assert_eq!(classfile::runtime::Error::StackOverflow, classfile::runtime::Error::StackOverflow);
}

#[test]
fn a_full_stack_hands_the_value_back() {
    let mut stack: Stack<u8> = Stack::new(1);
    assert_eq!(stack.try_push(1), Ok(()));
    assert_eq!(stack.try_push(2), Err((classfile::runtime::Error::StackOverflow, 2)));
    assert_eq!(stack.size(), 1);
    assert_eq!(stack.pop(), Some(1));
    assert_eq!(stack.try_push(3), Ok(()));
    assert_eq!(stack.peek(), Some(&3));
    let mut none: Stack<u8> = Stack::new(0);
    assert_eq!(none.try_push(9), Err((classfile::runtime::Error::StackOverflow, 9)));
}

#[test]
fn a_long_stack_is_dropped() {
    let mut stack: Stack<u64> = Stack::new(300_000);
    for i in 0..300_000 {
        stack.push(i);
    }
    assert_eq!(stack.size(), 300_000);
    assert_eq!(stack.peek(), Some(&299_999));
    drop(stack);
    let mut half: Stack<u64> = Stack::new(300_000);
    for i in 0..150_000 {
        half.push(i);
    }
    let mut iter = half.into_iter();
    assert_eq!(iter.next(), Some(149_999));
    drop(iter);
}
