//! Emitting wrapper source text.
//!
//! Each declaration becomes one function: a typed signature in declaration
//! order, a body that hands the entry-point number and the marshalled
//! arguments to the invocation primitive whose arity equals the parameter
//! count, and a cast of the raw result to the mapped return type. At most
//! six parameters are supported; more is a fatal generation error and
//! emits no wrapper. Wrappers are emitted in declaration order, and a
//! failure anywhere aborts the whole pass without partial output.

use vstd::prelude::*;
use vstd::string::StringExecFns;
use crate::ctypes::{SyscallInput, SyscallInputV, SyscallInputs, CParameterV};
use crate::mapper::{spec_ctype_rust, spec_ctype_arg};
use crate::numbers::{spec_decimal, u32_to_decimal};
use crate::parser::{ParseError, ParseErrV, ErrorKind, spec_parse_decls};
use crate::tokens::{lex, spec_lex};

verus! {

/// A generation failure.
#[derive(Clone, Copy, Debug, PartialEq, Eq, Structural)]
pub enum GenError {
    TooManyArguments,
}

/// The signature text of one parameter: `name: type`.
pub open spec fn spec_param_decl(p: CParameterV) -> Seq<char> {
    p.name + ": "@ + spec_ctype_rust(p.c_type)
}

/// The comma-separated parameter list of a wrapper signature.
pub open spec fn spec_params_text(args: Seq<CParameterV>) -> Seq<char>
    decreases args.len(),
{
    if args.len() == 0 {
        Seq::empty()
    } else if args.len() == 1 {
        spec_param_decl(args[0])
    } else {
        spec_params_text(args.drop_last()) + ", "@ + spec_param_decl(args.last())
    }
}

/// The marshalled call arguments, each preceded by a comma because the
/// entry-point number always comes first.
pub open spec fn spec_args_text(args: Seq<CParameterV>) -> Seq<char>
    decreases args.len(),
{
    if args.len() == 0 {
        Seq::empty()
    } else {
        spec_args_text(args.drop_last()) + ", "@ + spec_ctype_arg(
            args.last().c_type,
            args.last().name,
        )
    }
}

/// The safety note emitted above every wrapper: the generated function
/// is unsafe to call and validates nothing.
pub open spec fn spec_safety_note() -> Seq<char> {
    "/// # Safety\n/// The caller must uphold pointer validity, buffer bounds, and the\n/// target entry point's contract; the wrapper validates nothing.\n"@
}

/// The complete wrapper text of one declaration with at most six
/// parameters.
pub open spec fn spec_wrapper_text(d: SyscallInputV) -> Seq<char> {
    spec_safety_note() + "pub unsafe fn "@ + d.name + "("@ + spec_params_text(d.args) + ") -> "@ + spec_ctype_rust(
        d.return_type,
    ) + " {\n    unsafe { syscall"@ + spec_decimal(d.args.len() as int) + "("@ + spec_decimal(
        d.syscall_number as int,
    ) + spec_args_text(d.args) + ") as "@ + spec_ctype_rust(d.return_type) + " }\n}\n"@
}

/// The concatenated wrapper texts of a declaration list, in declaration
/// order; the first declaration with more than six parameters aborts the
/// whole generation.
pub open spec fn spec_generate_all(ds: Seq<SyscallInputV>) -> Result<Seq<char>, GenError>
    decreases ds.len(),
{
    if ds.len() == 0 {
        Ok(Seq::empty())
    } else {
        match spec_generate_all(ds.drop_last()) {
            Err(e) => Err(e),
            Ok(text) => {
                if ds.last().args.len() > 6 {
                    Err(GenError::TooManyArguments)
                } else {
                    Ok(text + spec_wrapper_text(ds.last()))
                }
            },
        }
    }
}

/// Generates the wrapper function text for one declaration; a declaration
/// with more than six parameters is refused and yields no wrapper.
pub fn generate_syscall_wrapper(def: &SyscallInput) -> (r: Result<String, GenError>)
    ensures
        def@.args.len() <= 6 ==> (r matches Ok(s) && s@ == spec_wrapper_text(def@)),
        def@.args.len() > 6 ==> r == Err::<String, GenError>(GenError::TooManyArguments),
{
    if def.args.len() > 6 {
        return Err(GenError::TooManyArguments);
    }
    let rt = def.return_type.to_rust_type();
    let arity = u32_to_decimal(def.args.len() as u32);
    let num = u32_to_decimal(def.syscall_number);
    let mut out = String::new();
    out.append(
        "/// # Safety\n/// The caller must uphold pointer validity, buffer bounds, and the\n/// target entry point's contract; the wrapper validates nothing.\n",
    );
    out.append("pub unsafe fn ");
    out.append(def.name.as_str());
    out.append("(");
    let ghost head = spec_safety_note() + "pub unsafe fn "@ + def@.name + "("@;
    assert(out@ =~= head);
    let ghost pv = def@.args;
    let mut k: usize = 0;
    while k < def.args.len()
        invariant
            0 <= k <= def.args@.len(),
            pv == def@.args,
            pv.len() == def.args@.len(),
            out@ == head + spec_params_text(pv.take(k as int)),
        decreases def.args@.len() - k,
    {
        if k > 0 {
            out.append(", ");
        }
        let p = &def.args[k];
        out.append(p.name.as_str());
        out.append(": ");
        let ty = p.c_type.to_rust_type();
        out.append(ty.as_str());
        proof {
            assert(pv[k as int] == def.args@[k as int]@);
            assert(pv.take(k as int + 1).drop_last() =~= pv.take(k as int));
            assert(pv.take(k as int + 1).last() == pv[k as int]);
            if k == 0 {
                assert(spec_params_text(pv.take(0)) =~= Seq::<char>::empty());
            }
            assert(out@ =~= head + spec_params_text(pv.take(k as int + 1)));
        }
        k += 1;
    }
    proof {
        assert(pv.take(pv.len() as int) =~= pv);
    }
    out.append(") -> ");
    out.append(rt.as_str());
    out.append(" {\n    unsafe { syscall");
    out.append(arity.as_str());
    out.append("(");
    out.append(num.as_str());
    let ghost mid = head + spec_params_text(pv) + ") -> "@ + spec_ctype_rust(def@.return_type)
        + " {\n    unsafe { syscall"@ + spec_decimal(pv.len() as int) + "("@ + spec_decimal(
        def@.syscall_number as int,
    );
    assert(out@ =~= mid);
    let mut k2: usize = 0;
    while k2 < def.args.len()
        invariant
            0 <= k2 <= def.args@.len(),
            pv == def@.args,
            pv.len() == def.args@.len(),
            out@ == mid + spec_args_text(pv.take(k2 as int)),
        decreases def.args@.len() - k2,
    {
        out.append(", ");
        let p = &def.args[k2];
        let arg = p.c_type.to_syscall_arg(p.name.as_str());
        out.append(arg.as_str());
        proof {
            assert(pv[k2 as int] == def.args@[k2 as int]@);
            assert(pv.take(k2 as int + 1).drop_last() =~= pv.take(k2 as int));
            assert(pv.take(k2 as int + 1).last() == pv[k2 as int]);
            assert(out@ =~= mid + spec_args_text(pv.take(k2 as int + 1)));
        }
        k2 += 1;
    }
    proof {
        assert(pv.take(pv.len() as int) =~= pv);
    }
    out.append(") as ");
    out.append(rt.as_str());
    out.append(" }\n}\n");
    proof {
        assert(out@ =~= spec_wrapper_text(def@));
    }
    Ok(out)
}

proof fn lemma_generate_all_err(ds: Seq<SyscallInputV>, k: int)
    requires
        0 <= k < ds.len(),
        spec_generate_all(ds.take(k)) is Ok,
        ds[k].args.len() > 6,
    ensures
        spec_generate_all(ds) == Err::<Seq<char>, GenError>(GenError::TooManyArguments),
    decreases ds.len(),
{
    if k == ds.len() - 1 {
        assert(ds.drop_last() =~= ds.take(k));
    } else {
        assert(ds.drop_last().take(k) =~= ds.take(k));
        lemma_generate_all_err(ds.drop_last(), k);
    }
}

/// Generates all wrappers of a declaration list, in declaration order;
/// the first declaration with more than six parameters aborts the whole
/// generation with no partial output.
pub fn generate_wrappers(defs: &SyscallInputs) -> (r: Result<String, GenError>)
    ensures
        match r {
            Ok(s) => spec_generate_all(defs@) == Ok::<Seq<char>, GenError>(s@),
            Err(e) => spec_generate_all(defs@) == Err::<Seq<char>, GenError>(e),
        },
{
    let mut out = String::new();
    let ghost dv = defs@;
    let mut k: usize = 0;
    proof {
        assert(dv.take(0) =~= Seq::<SyscallInputV>::empty());
    }
    while k < defs.defs.len()
        invariant
            0 <= k <= defs.defs@.len(),
            dv == defs@,
            dv.len() == defs.defs@.len(),
            spec_generate_all(dv.take(k as int)) == Ok::<Seq<char>, GenError>(out@),
        decreases defs.defs@.len() - k,
    {
        proof {
            assert(dv[k as int] == defs.defs@[k as int]@);
        }
        match generate_syscall_wrapper(&defs.defs[k]) {
            Err(e) => {
                proof {
                    lemma_generate_all_err(dv, k as int);
                }
                return Err(e);
            },
            Ok(w) => {
                out.append(w.as_str());
                proof {
                    assert(dv.take(k as int + 1).drop_last() =~= dv.take(k as int));
                    assert(dv.take(k as int + 1).last() == dv[k as int]);
                }
            },
        }
        k += 1;
    }
    proof {
        assert(dv.take(dv.len() as int) =~= dv);
    }
    Ok(out)
}

/// Appending a declaration to a list that generates cleanly appends its
/// wrapper text after all earlier output: generation preserves
/// declaration order.
pub proof fn lemma_generation_order(ds: Seq<SyscallInputV>, d: SyscallInputV)
    requires
        spec_generate_all(ds) is Ok,
        d.args.len() <= 6,
    ensures
        spec_generate_all(ds.push(d)) == Ok::<Seq<char>, GenError>(
            spec_generate_all(ds)->Ok_0 + spec_wrapper_text(d),
        ),
{
    assert(ds.push(d).drop_last() =~= ds);
    assert(ds.push(d).last() == d);
}

/// For two declarations the first one's wrapper always precedes the
/// second one's in the output.
pub proof fn lemma_pair_order(a: SyscallInputV, b: SyscallInputV)
    requires
        a.args.len() <= 6,
        b.args.len() <= 6,
    ensures
        spec_generate_all(seq![a, b]) == Ok::<Seq<char>, GenError>(
            spec_wrapper_text(a) + spec_wrapper_text(b),
        ),
{
    assert(seq![a].drop_last() =~= Seq::<SyscallInputV>::empty());
    assert(seq![a, b].drop_last() =~= seq![a]);
    assert(seq![a, b].last() == b);
    assert(seq![a].last() == a);
    assert(spec_generate_all(Seq::<SyscallInputV>::empty()) == Ok::<Seq<char>, GenError>(
        Seq::empty(),
    ));
    assert(Seq::<char>::empty() + spec_wrapper_text(a) =~= spec_wrapper_text(a));
    assert(spec_generate_all(seq![a]) == Ok::<Seq<char>, GenError>(spec_wrapper_text(a)));
}

/// A failure of the whole pass: in the lexer, in the parser, or in
/// generation.
#[derive(Debug)]
pub enum CompileError {
    Lex { pos: usize },
    Parse(ParseError),
    Gen(GenError),
}

/// The mathematical value of a whole-pass failure.
pub enum CompileErrV {
    Lex(int),
    Parse(ParseErrV),
    Gen(GenError),
}

impl View for CompileError {
    type V = CompileErrV;

    open spec fn view(&self) -> CompileErrV {
        match self {
            CompileError::Lex { pos } => CompileErrV::Lex(*pos as int),
            CompileError::Parse(e) => CompileErrV::Parse(e@),
            CompileError::Gen(g) => CompileErrV::Gen(*g),
        }
    }
}

/// The diagnostic text of a whole-pass failure.
pub open spec fn spec_describe(e: CompileErrV) -> Seq<char> {
    match e {
        CompileErrV::Lex(_) => "unexpected character in declaration input"@,
        CompileErrV::Parse(p) => match p.kind {
            ErrorKind::ExpectedTypeSpecifier => "expected type specifier"@,
            ErrorKind::ExpectedParameterName => "expected parameter name"@,
            ErrorKind::ExpectedNumber => "expected entry point number"@,
            ErrorKind::InvalidNumber => "invalid entry point number"@,
            ErrorKind::ExpectedColon => "expected `:` after entry point number"@,
            ErrorKind::ExpectedName => "expected entry point name"@,
            ErrorKind::ExpectedLParen => "expected `(` after entry point name"@,
            ErrorKind::ExpectedCommaOrRParen => "expected `,` or `)` in parameter list"@,
            ErrorKind::ExpectedComma => "expected `,` between declarations"@,
        },
        CompileErrV::Gen(_) => "entry points with more than 6 arguments are not supported"@,
    }
}

impl CompileError {
    /// The diagnostic text of this failure.
    pub fn describe(&self) -> (r: String)
        ensures
            r@ == spec_describe(self@),
    {
        match self {
            CompileError::Lex { .. } => "unexpected character in declaration input".to_owned(),
            CompileError::Parse(e) => match e.kind {
                ErrorKind::ExpectedTypeSpecifier => "expected type specifier".to_owned(),
                ErrorKind::ExpectedParameterName => "expected parameter name".to_owned(),
                ErrorKind::ExpectedNumber => "expected entry point number".to_owned(),
                ErrorKind::InvalidNumber => "invalid entry point number".to_owned(),
                ErrorKind::ExpectedColon => "expected `:` after entry point number".to_owned(),
                ErrorKind::ExpectedName => "expected entry point name".to_owned(),
                ErrorKind::ExpectedLParen => "expected `(` after entry point name".to_owned(),
                ErrorKind::ExpectedCommaOrRParen => "expected `,` or `)` in parameter list".to_owned(),
                ErrorKind::ExpectedComma => "expected `,` between declarations".to_owned(),
            },
            CompileError::Gen(_) => "entry points with more than 6 arguments are not supported".to_owned(),
        }
    }
}

/// The whole pass on one piece of declaration text: lex, parse, generate.
pub open spec fn spec_wrap_syscall(s: Seq<char>) -> Result<Seq<char>, CompileErrV> {
    match spec_lex(s, 0) {
        Err(p) => Err(CompileErrV::Lex(p)),
        Ok(ts) => match spec_parse_decls(ts, 0, Seq::empty()) {
            Err(e) => Err(CompileErrV::Parse(e)),
            Ok((ds, _)) => match spec_generate_all(ds) {
                Err(g) => Err(CompileErrV::Gen(g)),
                Ok(text) => Ok(text),
            },
        },
    }
}

/// Compiles declaration text into the source text of its wrapper
/// functions, one per declaration, in declaration order; any lexical,
/// structural or arity failure aborts the pass with no partial output.
pub fn wrap_syscall(input: &str) -> (r: Result<String, CompileError>)
    ensures
        match r {
            Ok(out) => spec_wrap_syscall(input@) == Ok::<Seq<char>, CompileErrV>(out@),
            Err(e) => spec_wrap_syscall(input@) == Err::<Seq<char>, CompileErrV>(e@),
        },
{
    let toks = match lex(input) {
        Err(p) => {
            return Err(CompileError::Lex { pos: p });
        },
        Ok(ts) => ts,
    };
    let defs = match SyscallInputs::parse(&toks) {
        Err(e) => {
            return Err(CompileError::Parse(e));
        },
        Ok(ds) => ds,
    };
    match generate_wrappers(&defs) {
        Err(g) => Err(CompileError::Gen(g)),
        Ok(out) => Ok(out),
    }
}

} // verus!
