//! The names by which a class file tells its attributes apart.

use vstd::prelude::*;

verus! {

/// The attributes that the codec knows, one for each name.
#[derive(Debug, Clone, Copy, PartialEq, Eq)]
pub enum AttributeKind {
    ConstantValue,
    Code,
    StackMapTable,
    Exceptions,
    InnerClasses,
    EnclosingMethod,
    Synthetic,
    Signature,
    SourceFile,
    SourceDebugExtension,
    LineNumberTable,
    LocalVariableTable,
    LocalVariableTypeTable,
    Deprecated,
    RuntimeVisibleAnnotations,
    RuntimeInvisibleAnnotations,
    RuntimeVisibleParameterAnnotations,
    RuntimeInvisibleParameterAnnotations,
    RuntimeVisibleTypeAnnotations,
    RuntimeInvisibleTypeAnnotations,
    AnnotationDefault,
    BootstrapMethods,
    MethodParameters,
}

impl AttributeKind {
    /// The name that stands for the attribute in the constant pool.
    pub open spec fn name(self) -> Seq<char> {
        match self {
            AttributeKind::ConstantValue => "ConstantValue"@,
            AttributeKind::Code => "Code"@,
            AttributeKind::StackMapTable => "StackMapTable"@,
            AttributeKind::Exceptions => "Exceptions"@,
            AttributeKind::InnerClasses => "InnerClasses"@,
            AttributeKind::EnclosingMethod => "EnclosingMethod"@,
            AttributeKind::Synthetic => "Synthetic"@,
            AttributeKind::Signature => "Signature"@,
            AttributeKind::SourceFile => "SourceFile"@,
            AttributeKind::SourceDebugExtension => "SourceDebugExtension"@,
            AttributeKind::LineNumberTable => "LineNumberTable"@,
            AttributeKind::LocalVariableTable => "LocalVariableTable"@,
            AttributeKind::LocalVariableTypeTable => "LocalVariableTypeTable"@,
            AttributeKind::Deprecated => "Deprecated"@,
            AttributeKind::RuntimeVisibleAnnotations => "RuntimeVisibleAnnotations"@,
            AttributeKind::RuntimeInvisibleAnnotations => "RuntimeInvisibleAnnotations"@,
            AttributeKind::RuntimeVisibleParameterAnnotations =>
                "RuntimeVisibleParameterAnnotations"@,
            AttributeKind::RuntimeInvisibleParameterAnnotations =>
                "RuntimeInvisibleParameterAnnotations"@,
            AttributeKind::RuntimeVisibleTypeAnnotations => "RuntimeVisibleTypeAnnotations"@,
            AttributeKind::RuntimeInvisibleTypeAnnotations => "RuntimeInvisibleTypeAnnotations"@,
            AttributeKind::AnnotationDefault => "AnnotationDefault"@,
            AttributeKind::BootstrapMethods => "BootstrapMethods"@,
            AttributeKind::MethodParameters => "MethodParameters"@,
        }
    }

    /// The attribute that a name stands for, if it stands for one.
    #[verifier::opaque]
    pub open spec fn of_name(name: Seq<char>) -> Option<AttributeKind> {
        if name == "ConstantValue"@ {
            Some(AttributeKind::ConstantValue)
        } else if name == "Code"@ {
            Some(AttributeKind::Code)
        } else if name == "StackMapTable"@ {
            Some(AttributeKind::StackMapTable)
        } else if name == "Exceptions"@ {
            Some(AttributeKind::Exceptions)
        } else if name == "InnerClasses"@ {
            Some(AttributeKind::InnerClasses)
        } else if name == "EnclosingMethod"@ {
            Some(AttributeKind::EnclosingMethod)
        } else if name == "Synthetic"@ {
            Some(AttributeKind::Synthetic)
        } else if name == "Signature"@ {
            Some(AttributeKind::Signature)
        } else if name == "SourceFile"@ {
            Some(AttributeKind::SourceFile)
        } else if name == "SourceDebugExtension"@ {
            Some(AttributeKind::SourceDebugExtension)
        } else if name == "LineNumberTable"@ {
            Some(AttributeKind::LineNumberTable)
        } else if name == "LocalVariableTable"@ {
            Some(AttributeKind::LocalVariableTable)
        } else if name == "LocalVariableTypeTable"@ {
            Some(AttributeKind::LocalVariableTypeTable)
        } else if name == "Deprecated"@ {
            Some(AttributeKind::Deprecated)
        } else if name == "RuntimeVisibleAnnotations"@ {
            Some(AttributeKind::RuntimeVisibleAnnotations)
        } else if name == "RuntimeInvisibleAnnotations"@ {
            Some(AttributeKind::RuntimeInvisibleAnnotations)
        } else if name == "RuntimeVisibleParameterAnnotations"@ {
            Some(AttributeKind::RuntimeVisibleParameterAnnotations)
        } else if name == "RuntimeInvisibleParameterAnnotations"@ {
            Some(AttributeKind::RuntimeInvisibleParameterAnnotations)
        } else if name == "RuntimeVisibleTypeAnnotations"@ {
            Some(AttributeKind::RuntimeVisibleTypeAnnotations)
        } else if name == "RuntimeInvisibleTypeAnnotations"@ {
            Some(AttributeKind::RuntimeInvisibleTypeAnnotations)
        } else if name == "AnnotationDefault"@ {
            Some(AttributeKind::AnnotationDefault)
        } else if name == "BootstrapMethods"@ {
            Some(AttributeKind::BootstrapMethods)
        } else if name == "MethodParameters"@ {
            Some(AttributeKind::MethodParameters)
        } else {
            None
        }
    }

    /// The attribute that a name stands for, if it stands for one.
    pub fn from_name(name: &String) -> (r: Option<AttributeKind>)
        ensures
            r == Self::of_name(name@),
    {
        proof {
            reveal(AttributeKind::of_name);
        }
        if same_text(name, "ConstantValue") {
            Some(AttributeKind::ConstantValue)
        } else if same_text(name, "Code") {
            Some(AttributeKind::Code)
        } else if same_text(name, "StackMapTable") {
            Some(AttributeKind::StackMapTable)
        } else if same_text(name, "Exceptions") {
            Some(AttributeKind::Exceptions)
        } else if same_text(name, "InnerClasses") {
            Some(AttributeKind::InnerClasses)
        } else if same_text(name, "EnclosingMethod") {
            Some(AttributeKind::EnclosingMethod)
        } else if same_text(name, "Synthetic") {
            Some(AttributeKind::Synthetic)
        } else if same_text(name, "Signature") {
            Some(AttributeKind::Signature)
        } else if same_text(name, "SourceFile") {
            Some(AttributeKind::SourceFile)
        } else if same_text(name, "SourceDebugExtension") {
            Some(AttributeKind::SourceDebugExtension)
        } else if same_text(name, "LineNumberTable") {
            Some(AttributeKind::LineNumberTable)
        } else if same_text(name, "LocalVariableTable") {
            Some(AttributeKind::LocalVariableTable)
        } else if same_text(name, "LocalVariableTypeTable") {
            Some(AttributeKind::LocalVariableTypeTable)
        } else if same_text(name, "Deprecated") {
            Some(AttributeKind::Deprecated)
        } else if same_text(name, "RuntimeVisibleAnnotations") {
            Some(AttributeKind::RuntimeVisibleAnnotations)
        } else if same_text(name, "RuntimeInvisibleAnnotations") {
            Some(AttributeKind::RuntimeInvisibleAnnotations)
        } else if same_text(name, "RuntimeVisibleParameterAnnotations") {
            Some(AttributeKind::RuntimeVisibleParameterAnnotations)
        } else if same_text(name, "RuntimeInvisibleParameterAnnotations") {
            Some(AttributeKind::RuntimeInvisibleParameterAnnotations)
        } else if same_text(name, "RuntimeVisibleTypeAnnotations") {
            Some(AttributeKind::RuntimeVisibleTypeAnnotations)
        } else if same_text(name, "RuntimeInvisibleTypeAnnotations") {
            Some(AttributeKind::RuntimeInvisibleTypeAnnotations)
        } else if same_text(name, "AnnotationDefault") {
            Some(AttributeKind::AnnotationDefault)
        } else if same_text(name, "BootstrapMethods") {
            Some(AttributeKind::BootstrapMethods)
        } else if same_text(name, "MethodParameters") {
            Some(AttributeKind::MethodParameters)
        } else {
            None
        }
    }

    /// The attribute that a name stands for has that name.
    pub proof fn lemma_found_has_name(name: Seq<char>)
        requires
            Self::of_name(name) is Some,
        ensures
            Self::of_name(name)->Some_0.name() == name,
    {
        reveal(AttributeKind::of_name);
    }

    /// Every attribute is found again by its name.
    pub proof fn lemma_name_found(self)
        ensures
            Self::of_name(self.name()) == Some(self),
    {
        reveal(AttributeKind::of_name);
        reveal_strlit("ConstantValue");
        reveal_strlit("Code");
        reveal_strlit("StackMapTable");
        reveal_strlit("Exceptions");
        reveal_strlit("InnerClasses");
        reveal_strlit("EnclosingMethod");
        reveal_strlit("Synthetic");
        reveal_strlit("Signature");
        reveal_strlit("SourceFile");
        reveal_strlit("SourceDebugExtension");
        reveal_strlit("LineNumberTable");
        reveal_strlit("LocalVariableTable");
        reveal_strlit("LocalVariableTypeTable");
        reveal_strlit("Deprecated");
        reveal_strlit("RuntimeVisibleAnnotations");
        reveal_strlit("RuntimeInvisibleAnnotations");
        reveal_strlit("RuntimeVisibleParameterAnnotations");
        reveal_strlit("RuntimeInvisibleParameterAnnotations");
        reveal_strlit("RuntimeVisibleTypeAnnotations");
        reveal_strlit("RuntimeInvisibleTypeAnnotations");
        reveal_strlit("AnnotationDefault");
        reveal_strlit("BootstrapMethods");
        reveal_strlit("MethodParameters");
        assert("ConstantValue"@.len() == 13);
        assert("Code"@.len() == 4);
        assert("StackMapTable"@.len() == 13);
        assert("Exceptions"@.len() == 10);
        assert("InnerClasses"@.len() == 12);
        assert("EnclosingMethod"@.len() == 15);
        assert("Synthetic"@.len() == 9);
        assert("Signature"@.len() == 9);
        assert("SourceFile"@.len() == 10);
        assert("SourceDebugExtension"@.len() == 20);
        assert("LineNumberTable"@.len() == 15);
        assert("LocalVariableTable"@.len() == 18);
        assert("LocalVariableTypeTable"@.len() == 22);
        assert("Deprecated"@.len() == 10);
        assert("RuntimeVisibleAnnotations"@.len() == 25);
        assert("RuntimeInvisibleAnnotations"@.len() == 27);
        assert("RuntimeVisibleParameterAnnotations"@.len() == 34);
        assert("RuntimeInvisibleParameterAnnotations"@.len() == 36);
        assert("RuntimeVisibleTypeAnnotations"@.len() == 29);
        assert("RuntimeInvisibleTypeAnnotations"@.len() == 31);
        assert("AnnotationDefault"@.len() == 17);
        assert("BootstrapMethods"@.len() == 16);
        assert("MethodParameters"@.len() == 16);
        assert("ConstantValue"@[0] != "StackMapTable"@[0]);
        assert("Exceptions"@[0] != "SourceFile"@[0]);
        assert("Exceptions"@[0] != "Deprecated"@[0]);
        assert("EnclosingMethod"@[0] != "LineNumberTable"@[0]);
        assert("Synthetic"@[1] != "Signature"@[1]);
        assert("SourceFile"@[0] != "Deprecated"@[0]);
        assert("BootstrapMethods"@[0] != "MethodParameters"@[0]);
    }
}

/// Whether a text is the given literal.
fn same_text(text: &String, literal: &str) -> (same: bool)
    ensures
        same == (text@ == literal@),
{
    let other = literal.to_owned();
    *text == other
}

} // verus!
