//! Loaded classes: their handles, their states, and what their instances are.

use vstd::prelude::*;
use crate::access_flags::{
    AccessFlags, ACC_ABSTRACT, ACC_FINAL, ACC_INTERFACE, ACC_PUBLIC, ACC_STATIC, ACC_SUPER,
    ACC_SYNTHETIC,
};
use crate::basic_type::BasicType;
use crate::class_file::ClassFileRef;
use crate::oops::share;
use crate::oops::Oop;
use crate::types_ref::{ClassRef, FieldIdRef, MethodIdRef};
use crate::BytesRef;
use crate::ConstantPoolRef;

verus! {

/// A handle to a loaded class: the address at which the loader keeps it.
#[derive(Debug, Clone, PartialEq, Eq)]
pub struct ClassPtr(u64);

impl View for ClassPtr {
    type V = u64;

    closed spec fn view(&self) -> u64 {
        self.0
    }
}

impl ClassPtr {
    /// The handle to the class kept at `address`.
    pub fn from_address(address: u64) -> (handle: ClassPtr)
        ensures
            handle@ == address,
    {
        ClassPtr(address)
    }

    /// The address at which the class is kept.
    pub fn address(&self) -> (address: u64)
        ensures
            address == self@,
    {
        self.0
    }
}

/// How far loading, linking and initialising a class have come.
#[derive(Debug, Clone, Copy, PartialEq, Eq)]
pub enum ClassState {
    /// Allocated, not yet linked.
    Allocated,
    /// Loaded and put into the class hierarchy, not yet linked.
    Loaded,
    /// Linked and verified, not yet initialised.
    Linked,
    /// The class initialiser is running.
    BeingInitialized,
    /// Initialised.
    FullyInitialized,
    /// The class initialiser failed.
    InitializationError,
}

/// What the instances of a class are.
#[derive(Debug, Clone, Copy, PartialEq, Eq)]
pub enum InstanceType {
    ObjectInstance,
    ObjectArrayInstance,
    TypeArrayInstance,
}

/// What the runtime keeps of the instances of a class.
pub enum Instance {
    Instance(ObjectInstance),
    ObjectArray(ObjectArrayInstance),
    TypeArray(TypeArrayInstance),
}

/// The layout of the instances of an ordinary class.
pub struct ObjectInstance {
    pub class: ClassRef,
    pub interfaces: Vec<ClassRef>,
    pub methods: Vec<MethodIdRef>,
    /// Each field with its value.
    pub fields: Vec<(FieldIdRef, Oop)>,
    pub mirror: Option<Oop>,
}

/// The layout of an array of references.
pub struct ObjectArrayInstance {
    pub dimension: usize,
    pub element_type: BasicType,
    pub element_class: ClassRef,
    pub bottom_class: ClassRef,
    pub mirror: Option<Oop>,
}

/// The layout of an array of primitive values.
pub struct TypeArrayInstance {
    pub dimension: usize,
    pub element_type: BasicType,
    pub max_length: usize,
    pub mirror: Option<Oop>,
}

/// The number of fields among the first `n` that are not static.
pub open spec fn count_not_static(fields: Seq<(FieldIdRef, Oop)>, n: int) -> int
    decreases n,
{
    if n <= 0 {
        0
    } else {
        count_not_static(fields, n - 1) + if fields[n - 1].0.field.access_flags.has(ACC_STATIC) {
            0int
        } else {
            1int
        }
    }
}

/// No more fields are counted than there are.
pub proof fn lemma_count_bounded(fields: Seq<(FieldIdRef, Oop)>, n: int)
    requires
        0 <= n,
    ensures
        0 <= count_not_static(fields, n) <= n,
    decreases n,
{
    if n > 0 {
        lemma_count_bounded(fields, n - 1);
    }
}

impl ObjectInstance {
    /// The number of fields that are not static.
    pub fn static_field_size(&self) -> (size: usize)
        ensures
            size == count_not_static(self.fields@, self.fields@.len() as int),
    {
        let mut size: usize = 0;
        let mut i: usize = 0;
        while i < self.fields.len()
            invariant
                i <= self.fields.len(),
                size == count_not_static(self.fields@, i as int),
                size <= i,
            decreases self.fields.len() - i,
        {
            if !self.fields[i].0.field.is_static() {
                size += 1;
            }
            i += 1;
        }
        size
    }

    /// The number of fields that `static_field_size` does not count.
    pub fn field_size(&self) -> (size: usize)
        ensures
            size == self.fields@.len() - count_not_static(self.fields@, self.fields@.len() as int),
    {
        proof {
            lemma_count_bounded(self.fields@, self.fields@.len() as int);
        }
        self.fields.len() - self.static_field_size()
    }
}

/// A loaded class.
pub struct Class {
    pub class_state: ClassState,
    pub access_flags: AccessFlags,
    pub constant_pool: ConstantPoolRef,
    /// The name of the class, as `java/lang/String`.
    pub name: BytesRef,
    /// The class above this one; `java/lang/Object` has none.
    pub super_class: Option<ClassRef>,
    pub sub_classes: Option<Vec<ClassRef>>,
    pub class_file: ClassFileRef,
    pub instance: Instance,
}

impl Class {
    /// A class that has been allocated and has no classes below it yet.
    pub fn new(
        access_flags: AccessFlags,
        constant_pool: ConstantPoolRef,
        name: BytesRef,
        super_class: Option<ClassRef>,
        class_file: ClassFileRef,
        instance: Instance,
    ) -> (class: Class)
        ensures
            class.class_state == ClassState::Allocated,
            class.access_flags == access_flags,
            class.constant_pool == constant_pool,
            class.name == name,
            class.super_class == super_class,
            class.sub_classes is Some && class.sub_classes->Some_0@.len() == 0,
            class.class_file == class_file,
            class.instance == instance,
    {
        Class {
            class_state: ClassState::Allocated,
            access_flags,
            constant_pool,
            name,
            super_class,
            sub_classes: Some(Vec::new()),
            class_file,
            instance,
        }
    }

    pub fn get_name(&self) -> (name: BytesRef)
        ensures
            name == self.name,
    {
        share(&self.name)
    }

    /// Whether the handle is among the classes recorded below this one.
    pub fn is_subclass_of(&self, class: ClassRef) -> (found: bool)
        ensures
            found == (self.sub_classes is Some && exists|i: int|
                0 <= i < self.sub_classes->Some_0@.len() && (#[trigger] self.sub_classes->Some_0@[i])@
                    == class@),
    {
        match &self.sub_classes {
            Some(sub_classes) => {
                let mut i: usize = 0;
                while i < sub_classes.len()
                    invariant
                        i <= sub_classes.len(),
                        self.sub_classes == Some(*sub_classes),
                        forall|j: int| 0 <= j < i ==> (#[trigger] sub_classes@[j])@ != class@,
                    decreases sub_classes.len() - i,
                {
                    if sub_classes[i].address() == class.address() {
                        proof {
                            assert(self.sub_classes is Some);
                            assert(self.sub_classes->Some_0@[i as int] == sub_classes@[i as int]);
                            assert(self.sub_classes->Some_0@[i as int]@ == class@);
                        }
                        return true;
                    }
                    i += 1;
                }
                false
            },
            None => false,
        }
    }

    pub fn access_flags(&self) -> (flags: &AccessFlags)
        ensures
            *flags == self.access_flags,
    {
        &self.access_flags
    }

    pub fn is_public(&self) -> (set: bool)
        ensures
            set == self.access_flags.has(ACC_PUBLIC),
    {
        self.access_flags().is_public()
    }

    pub fn is_final(&self) -> (set: bool)
        ensures
            set == self.access_flags.has(ACC_FINAL),
    {
        self.access_flags().is_final()
    }

    pub fn is_interface(&self) -> (set: bool)
        ensures
            set == self.access_flags.has(ACC_INTERFACE),
    {
        self.access_flags().is_interface()
    }

    pub fn is_abstract(&self) -> (set: bool)
        ensures
            set == self.access_flags.has(ACC_ABSTRACT),
    {
        self.access_flags().is_abstract()
    }

    pub fn is_super(&self) -> (set: bool)
        ensures
            set == self.access_flags.has(ACC_SUPER),
    {
        self.access_flags().is_super()
    }

    pub fn is_synthetic(&self) -> (set: bool)
        ensures
            set == self.access_flags.has(ACC_SYNTHETIC),
    {
        self.access_flags().is_synthetic()
    }

    /// Records a class below this one, where the classes below are recorded
    /// at all.
    pub fn append_subclass(&mut self, class: ClassRef)
        ensures
            match old(self).sub_classes {
                Some(before) => final(self).sub_classes is Some && final(self).sub_classes->Some_0@
                    == before@.push(class),
                None => final(self).sub_classes is None,
            },
            final(self).class_state == old(self).class_state,
            final(self).access_flags == old(self).access_flags,
            final(self).constant_pool == old(self).constant_pool,
            final(self).name == old(self).name,
            final(self).super_class == old(self).super_class,
            final(self).class_file == old(self).class_file,
            final(self).instance == old(self).instance,
    {
        match &mut self.sub_classes {
            Some(sub_classes) => {
                sub_classes.push(class);
            },
            None => {},
        }
    }

    /// The class above this one.
    pub fn super_class(&self) -> (class: Option<ClassRef>)
        ensures
            class == self.super_class,
    {
        match &self.super_class {
            Some(class) => Some(share(class)),
            None => None,
        }
    }

    /// The classes recorded below this one.
    pub fn sub_classes(&self) -> (classes: Option<Vec<ClassRef>>)
        ensures
            match self.sub_classes {
                Some(mine) => classes is Some && classes->Some_0@ == mine@,
                None => classes is None,
            },
    {
        match &self.sub_classes {
            Some(mine) => {
                let mut copy: Vec<ClassRef> = Vec::new();
                let mut i: usize = 0;
                while i < mine.len()
                    invariant
                        i <= mine.len(),
                        copy@ == mine@.take(i as int),
                    decreases mine.len() - i,
                {
                    copy.push(share(&mine[i]));
                    proof {
                        assert(copy@ =~= mine@.take(i + 1));
                    }
                    i += 1;
                }
                proof {
                    assert(mine@.take(mine.len() as int) =~= mine@);
                }
                Some(copy)
            },
            None => None,
        }
    }

    /// What the instances of the class are.
    pub fn get_instance_type(&self) -> (instance_type: InstanceType)
        ensures
            instance_type == match self.instance {
                Instance::Instance(_) => InstanceType::ObjectInstance,
                Instance::ObjectArray(_) => InstanceType::ObjectArrayInstance,
                Instance::TypeArray(_) => InstanceType::TypeArrayInstance,
            },
    {
        match &self.instance {
            Instance::Instance(_) => InstanceType::ObjectInstance,
            Instance::ObjectArray(_) => InstanceType::ObjectArrayInstance,
            Instance::TypeArray(_) => InstanceType::TypeArrayInstance,
        }
    }
}

} // verus!
