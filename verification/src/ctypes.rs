//! The structured representation of a parsed C type and of a parsed
//! entry-point declaration.
//!
//! A pointer chain is right-recursive: `T**` is a pointer node whose target
//! is a pointer node whose target is the base type. Chains are built from
//! per-level const flags given in source order, so the leftmost `*` yields
//! the innermost pointer node.

use vstd::prelude::*;

verus! {

/// A recognized base type of the declaration grammar.
#[derive(Debug)]
pub enum BaseType {
    Char,
    Int,
    UnsignedInt,
    Long,
    UnsignedLong,
    LongLong,
    UnsignedLongLong,
    Short,
    UnsignedShort,
    SizeT,
    SSizeT,
    Void,
    Custom(String),
}

/// The mathematical value of a base type.
pub enum BaseTypeV {
    Char,
    Int,
    UnsignedInt,
    Long,
    UnsignedLong,
    LongLong,
    UnsignedLongLong,
    Short,
    UnsignedShort,
    SizeT,
    SSizeT,
    Void,
    Custom(Seq<char>),
}

impl View for BaseType {
    type V = BaseTypeV;

    open spec fn view(&self) -> BaseTypeV {
        match self {
            BaseType::Char => BaseTypeV::Char,
            BaseType::Int => BaseTypeV::Int,
            BaseType::UnsignedInt => BaseTypeV::UnsignedInt,
            BaseType::Long => BaseTypeV::Long,
            BaseType::UnsignedLong => BaseTypeV::UnsignedLong,
            BaseType::LongLong => BaseTypeV::LongLong,
            BaseType::UnsignedLongLong => BaseTypeV::UnsignedLongLong,
            BaseType::Short => BaseTypeV::Short,
            BaseType::UnsignedShort => BaseTypeV::UnsignedShort,
            BaseType::SizeT => BaseTypeV::SizeT,
            BaseType::SSizeT => BaseTypeV::SSizeT,
            BaseType::Void => BaseTypeV::Void,
            BaseType::Custom(s) => BaseTypeV::Custom(s@),
        }
    }
}

/// A structured C type: a base type under zero or more pointer levels,
/// each level with its own const flag.
#[derive(Debug)]
pub enum CType {
    Base(BaseType),
    Pointer { target: Box<CType>, is_const: bool },
}

/// The mathematical value of a structured C type.
pub enum CTypeV {
    Base(BaseTypeV),
    Pointer { target: Box<CTypeV>, is_const: bool },
}

impl View for CType {
    type V = CTypeV;

    open spec fn view(&self) -> CTypeV
        decreases self,
    {
        match self {
            CType::Base(b) => CTypeV::Base(b@),
            CType::Pointer { target, is_const } => CTypeV::Pointer {
                target: Box::new((**target)@),
                is_const: *is_const,
            },
        }
    }
}

/// One declared parameter: its structured type and its name.
pub struct CParameter {
    pub c_type: CType,
    pub name: String,
}

pub struct CParameterV {
    pub c_type: CTypeV,
    pub name: Seq<char>,
}

impl View for CParameter {
    type V = CParameterV;

    open spec fn view(&self) -> CParameterV {
        CParameterV { c_type: self.c_type@, name: self.name@ }
    }
}

/// One parsed entry-point declaration: number, return type, name and
/// parameters in declaration order.
pub struct SyscallInput {
    pub syscall_number: u32,
    pub return_type: CType,
    pub name: String,
    pub args: Vec<CParameter>,
}

pub struct SyscallInputV {
    pub syscall_number: u32,
    pub return_type: CTypeV,
    pub name: Seq<char>,
    pub args: Seq<CParameterV>,
}

/// The values of a parameter list.
pub open spec fn param_views(ps: Seq<CParameter>) -> Seq<CParameterV> {
    ps.map_values(|p: CParameter| p@)
}

pub proof fn lemma_param_views_push(ps: Seq<CParameter>, p: CParameter)
    ensures
        param_views(ps.push(p)) == param_views(ps).push(p@),
{
    assert(param_views(ps.push(p)) =~= param_views(ps).push(p@));
}

impl View for SyscallInput {
    type V = SyscallInputV;

    open spec fn view(&self) -> SyscallInputV {
        SyscallInputV {
            syscall_number: self.syscall_number,
            return_type: self.return_type@,
            name: self.name@,
            args: param_views(self.args@),
        }
    }
}

/// The values of a declaration list.
pub open spec fn decl_views(ds: Seq<SyscallInput>) -> Seq<SyscallInputV> {
    ds.map_values(|d: SyscallInput| d@)
}

pub proof fn lemma_decl_views_push(ds: Seq<SyscallInput>, d: SyscallInput)
    ensures
        decl_views(ds.push(d)) == decl_views(ds).push(d@),
{
    assert(decl_views(ds.push(d)) =~= decl_views(ds).push(d@));
}

/// An ordered list of parsed declarations.
pub struct SyscallInputs {
    pub defs: Vec<SyscallInput>,
}

impl View for SyscallInputs {
    type V = Seq<SyscallInputV>;

    open spec fn view(&self) -> Seq<SyscallInputV> {
        decl_views(self.defs@)
    }
}

/// Number of pointer levels around the base type.
pub open spec fn pointer_depth(t: CTypeV) -> nat
    decreases t,
{
    match t {
        CTypeV::Base(_) => 0,
        CTypeV::Pointer { target, .. } => 1 + pointer_depth(*target),
    }
}

/// The base type under all pointer levels.
pub open spec fn base_of(t: CTypeV) -> BaseTypeV
    decreases t,
{
    match t {
        CTypeV::Base(b) => b,
        CTypeV::Pointer { target, .. } => base_of(*target),
    }
}

/// The per-level const flags of a pointer chain, innermost level first,
/// matching the source order of the `*` tokens.
pub open spec fn chain_consts(t: CTypeV) -> Seq<bool>
    decreases t,
{
    match t {
        CTypeV::Base(_) => Seq::empty(),
        CTypeV::Pointer { target, is_const } => chain_consts(*target).push(is_const),
    }
}

/// Wraps `t` in one pointer level per flag, first flag innermost.
pub open spec fn wrap_ptrs(t: CTypeV, consts: Seq<bool>) -> CTypeV
    decreases consts.len(),
{
    if consts.len() == 0 {
        t
    } else {
        wrap_ptrs(CTypeV::Pointer { target: Box::new(t), is_const: consts[0] }, consts.skip(1))
    }
}

/// A pointer chain built from a list of const flags has one level per
/// flag, keeps the flags in declaration order, and leaves the base type
/// unchanged.
pub proof fn lemma_wrap_ptrs(t: CTypeV, consts: Seq<bool>)
    ensures
        pointer_depth(wrap_ptrs(t, consts)) == pointer_depth(t) + consts.len(),
        chain_consts(wrap_ptrs(t, consts)) == chain_consts(t) + consts,
        base_of(wrap_ptrs(t, consts)) == base_of(t),
    decreases consts.len(),
{
    if consts.len() == 0 {
        assert(chain_consts(t) + consts =~= chain_consts(t));
    } else {
        let inner = CTypeV::Pointer { target: Box::new(t), is_const: consts[0] };
        lemma_wrap_ptrs(inner, consts.skip(1));
        assert(chain_consts(inner) + consts.skip(1) =~= chain_consts(t) + consts);
    }
}

/// Wraps an owned type in one pointer level per flag from `k` on.
pub fn wrap_pointers(t: CType, flags: &Vec<bool>, k: usize) -> (r: CType)
    requires
        k <= flags@.len(),
    ensures
        r@ == wrap_ptrs(t@, flags@.skip(k as int)),
    decreases flags@.len() - k,
{
    if k == flags.len() {
        proof {
            assert(flags@.skip(k as int) =~= Seq::<bool>::empty());
        }
        t
    } else {
        let c = flags[k];
        let wrapped = CType::Pointer { target: Box::new(t), is_const: c };
        let r = wrap_pointers(wrapped, flags, k + 1);
        proof {
            assert(flags@.skip(k as int).skip(1) =~= flags@.skip(k as int + 1));
            assert(flags@.skip(k as int)[0] == flags@[k as int]);
        }
        r
    }
}

} // verus!
