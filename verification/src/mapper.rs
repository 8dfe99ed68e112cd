//! Mapping structured C types to target parameter types and to the
//! expressions that marshal an argument into a machine word.
//!
//! Exact widths and signedness are preserved for base types. A pointer to
//! `char` becomes a byte-sequence capability (`impl AsRef<[u8]>`) whose
//! marshal rule extracts the buffer address; every other pointer is erased
//! to an address-sized pointer type, const-ness kept only in the parameter
//! type. Custom (tagged) types are opaque and pass as a machine word.

use vstd::prelude::*;
use vstd::string::StringExecFns;
use crate::ctypes::{BaseType, BaseTypeV, CType, CTypeV};
use crate::parser::spec_resolve;

verus! {

broadcast use vstd::string::group_string_axioms;

/// The target type of one base kind: exact width, signedness preserved.
pub open spec fn spec_base_rust_type(b: BaseTypeV) -> Seq<char> {
    match b {
        BaseTypeV::Char => "i8"@,
        BaseTypeV::Int => "i32"@,
        BaseTypeV::UnsignedInt => "u32"@,
        BaseTypeV::Long => "i64"@,
        BaseTypeV::UnsignedLong => "u64"@,
        BaseTypeV::LongLong => "i64"@,
        BaseTypeV::UnsignedLongLong => "u64"@,
        BaseTypeV::Short => "i16"@,
        BaseTypeV::UnsignedShort => "u16"@,
        BaseTypeV::SizeT => "usize"@,
        BaseTypeV::SSizeT => "isize"@,
        BaseTypeV::Void => "()"@,
        BaseTypeV::Custom(_) => "usize"@,
    }
}

/// The marshal expression of one base kind: every kind is reinterpreted
/// as a machine word except the word-sized unsigned kind, which passes
/// unchanged.
pub open spec fn spec_base_arg(b: BaseTypeV, name: Seq<char>) -> Seq<char> {
    match b {
        BaseTypeV::SizeT => name,
        _ => name + " as usize"@,
    }
}

/// Whether a type is a pointer directly to `char`.
pub open spec fn is_char_pointer(t: CTypeV) -> bool {
    t matches CTypeV::Pointer { target, .. } && *target == CTypeV::Base(BaseTypeV::Char)
}

/// The target parameter type of a structured type.
pub open spec fn spec_ctype_rust(t: CTypeV) -> Seq<char> {
    match t {
        CTypeV::Base(b) => spec_base_rust_type(b),
        CTypeV::Pointer { target, is_const } => {
            if *target == CTypeV::Base(BaseTypeV::Char) {
                "impl AsRef<[u8]>"@
            } else if is_const {
                "*const u8"@
            } else {
                "*mut u8"@
            }
        },
    }
}

/// The marshal expression of a structured type.
pub open spec fn spec_ctype_arg(t: CTypeV, name: Seq<char>) -> Seq<char> {
    match t {
        CTypeV::Base(b) => spec_base_arg(b, name),
        CTypeV::Pointer { target, .. } => {
            if *target == CTypeV::Base(BaseTypeV::Char) {
                name + ".as_ref().as_ptr() as usize"@
            } else {
                name + " as usize"@
            }
        },
    }
}

impl BaseType {
    /// The target-language type this base kind maps to.
    pub fn to_rust_type(&self) -> (r: String)
        ensures
            r@ == spec_base_rust_type(self@),
    {
        match self {
            BaseType::Char => "i8".to_owned(),
            BaseType::Int => "i32".to_owned(),
            BaseType::UnsignedInt => "u32".to_owned(),
            BaseType::Long => "i64".to_owned(),
            BaseType::UnsignedLong => "u64".to_owned(),
            BaseType::LongLong => "i64".to_owned(),
            BaseType::UnsignedLongLong => "u64".to_owned(),
            BaseType::Short => "i16".to_owned(),
            BaseType::UnsignedShort => "u16".to_owned(),
            BaseType::SizeT => "usize".to_owned(),
            BaseType::SSizeT => "isize".to_owned(),
            BaseType::Void => "()".to_owned(),
            BaseType::Custom(_) => "usize".to_owned(),
        }
    }

    /// The expression that marshals an argument of this base kind.
    pub fn to_syscall_arg(&self, arg_name: &str) -> (r: String)
        ensures
            r@ == spec_base_arg(self@, arg_name@),
    {
        match self {
            BaseType::SizeT => arg_name.to_owned(),
            _ => {
                let mut s = arg_name.to_owned();
                s.append(" as usize");
                s
            },
        }
    }
}

fn char_base(t: &CType) -> (r: bool)
    ensures
        r == (t@ == CTypeV::Base(BaseTypeV::Char)),
{
    match t {
        CType::Base(BaseType::Char) => true,
        _ => false,
    }
}

impl CType {
    /// The target-language parameter type this structured type maps to.
    pub fn to_rust_type(&self) -> (r: String)
        ensures
            r@ == spec_ctype_rust(self@),
    {
        match self {
            CType::Base(b) => b.to_rust_type(),
            CType::Pointer { target, is_const } => {
                if char_base(target) {
                    "impl AsRef<[u8]>".to_owned()
                } else if *is_const {
                    "*const u8".to_owned()
                } else {
                    "*mut u8".to_owned()
                }
            },
        }
    }

    /// The expression that marshals an argument of this structured type
    /// into a machine word.
    pub fn to_syscall_arg(&self, arg_name: &str) -> (r: String)
        ensures
            r@ == spec_ctype_arg(self@, arg_name@),
    {
        match self {
            CType::Base(b) => b.to_syscall_arg(arg_name),
            CType::Pointer { target, .. } => {
                if char_base(target) {
                    let mut s = arg_name.to_owned();
                    s.append(".as_ref().as_ptr() as usize");
                    s
                } else {
                    let mut s = arg_name.to_owned();
                    s.append(" as usize");
                    s
                }
            },
        }
    }
}

/// Every supported keyword string resolves to its documented base kind,
/// and every base kind maps to its documented width and signedness.
pub proof fn lemma_base_type_table()
    ensures
        spec_resolve("char"@) == Some(BaseTypeV::Char),
        spec_resolve("int"@) == Some(BaseTypeV::Int),
        spec_resolve("unsigned"@) == Some(BaseTypeV::UnsignedInt),
        spec_resolve("unsigned int"@) == Some(BaseTypeV::UnsignedInt),
        spec_resolve("long"@) == Some(BaseTypeV::Long),
        spec_resolve("long int"@) == Some(BaseTypeV::Long),
        spec_resolve("unsigned long"@) == Some(BaseTypeV::UnsignedLong),
        spec_resolve("unsigned long int"@) == Some(BaseTypeV::UnsignedLong),
        spec_resolve("long long"@) == Some(BaseTypeV::LongLong),
        spec_resolve("long long int"@) == Some(BaseTypeV::LongLong),
        spec_resolve("unsigned long long"@) == Some(BaseTypeV::UnsignedLongLong),
        spec_resolve("unsigned long long int"@) == Some(BaseTypeV::UnsignedLongLong),
        spec_resolve("short"@) == Some(BaseTypeV::Short),
        spec_resolve("short int"@) == Some(BaseTypeV::Short),
        spec_resolve("unsigned short"@) == Some(BaseTypeV::UnsignedShort),
        spec_resolve("unsigned short int"@) == Some(BaseTypeV::UnsignedShort),
        spec_resolve("void"@) == Some(BaseTypeV::Void),
        spec_resolve("size_t"@) == Some(BaseTypeV::SizeT),
        spec_resolve("ssize_t"@) == Some(BaseTypeV::SSizeT),
        spec_base_rust_type(BaseTypeV::Char) == "i8"@,
        spec_base_rust_type(BaseTypeV::Int) == "i32"@,
        spec_base_rust_type(BaseTypeV::UnsignedInt) == "u32"@,
        spec_base_rust_type(BaseTypeV::Long) == "i64"@,
        spec_base_rust_type(BaseTypeV::UnsignedLong) == "u64"@,
        spec_base_rust_type(BaseTypeV::LongLong) == "i64"@,
        spec_base_rust_type(BaseTypeV::UnsignedLongLong) == "u64"@,
        spec_base_rust_type(BaseTypeV::Short) == "i16"@,
        spec_base_rust_type(BaseTypeV::UnsignedShort) == "u16"@,
        spec_base_rust_type(BaseTypeV::SizeT) == "usize"@,
        spec_base_rust_type(BaseTypeV::SSizeT) == "isize"@,
        spec_base_rust_type(BaseTypeV::Void) == "()"@,
{
    reveal_strlit("char");
    reveal_strlit("int");
    reveal_strlit("unsigned");
    reveal_strlit("unsigned int");
    reveal_strlit("long");
    reveal_strlit("long int");
    reveal_strlit("unsigned long");
    reveal_strlit("unsigned long int");
    reveal_strlit("long long");
    reveal_strlit("long long int");
    reveal_strlit("unsigned long long");
    reveal_strlit("unsigned long long int");
    reveal_strlit("short");
    reveal_strlit("short int");
    reveal_strlit("unsigned short");
    reveal_strlit("unsigned short int");
    reveal_strlit("void");
    reveal_strlit("size_t");
    reveal_strlit("ssize_t");
    assert("char"@.len() == 4);
    assert("int"@.len() == 3);
    assert("unsigned"@.len() == 8);
    assert("unsigned int"@.len() == 12);
    assert("long"@.len() == 4);
    assert("long int"@.len() == 8);
    assert("unsigned long"@.len() == 13);
    assert("unsigned long int"@.len() == 17);
    assert("long long"@.len() == 9);
    assert("long long int"@.len() == 13);
    assert("unsigned long long"@.len() == 18);
    assert("unsigned long long int"@.len() == 22);
    assert("short"@.len() == 5);
    assert("short int"@.len() == 9);
    assert("unsigned short"@.len() == 14);
    assert("unsigned short int"@.len() == 18);
    assert("void"@.len() == 4);
    assert("size_t"@.len() == 6);
    assert("ssize_t"@.len() == 7);
    assert("char"@[0] == 'c' && "long"@[0] == 'l' && "void"@[0] == 'v');
    assert("unsigned"@[0] == 'u' && "long int"@[0] == 'l');
    assert("long long"@[0] == 'l' && "short int"@[0] == 's');
    assert("unsigned long"@[0] == 'u' && "long long int"@[0] == 'l');
    assert("unsigned long long"@[9] == 'l' && "unsigned short int"@[9] == 's');
}

/// A pointer to `char` maps to the byte-sequence capability type and its
/// marshal rule reads the address out of the byte view; no other pointer
/// gets either the capability type or that rule.
pub proof fn lemma_char_pointer_mapping(t: CTypeV, name: Seq<char>)
    requires
        t is Pointer,
    ensures
        is_char_pointer(t) ==> spec_ctype_rust(t) == "impl AsRef<[u8]>"@ && spec_ctype_arg(t, name)
            == name + ".as_ref().as_ptr() as usize"@,
        !is_char_pointer(t) ==> spec_ctype_rust(t) != "impl AsRef<[u8]>"@ && spec_ctype_arg(t, name)
            == name + " as usize"@,
{
    reveal_strlit("impl AsRef<[u8]>");
    reveal_strlit("*const u8");
    reveal_strlit("*mut u8");
    assert("impl AsRef<[u8]>"@.len() == 16);
    assert("*const u8"@.len() == 9);
    assert("*mut u8"@.len() == 7);
}

} // verus!

