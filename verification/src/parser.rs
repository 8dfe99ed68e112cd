//! Parsing of declarations.
//!
//! A declaration list is a comma-separated (and optionally
//! comma-terminated) sequence of entries of the shape
//! `<number> ":" <type> <name> "(" [<type> <name> ("," <type> <name>)*] ")"`.
//! A type is an optional leading `const`, a run of type keywords with an
//! optional `struct`/`union`/`enum` tag, and zero or more `*`, each with an
//! optional trailing `const`. A leading `const` is absorbed by the first
//! pointer level only.

use vstd::prelude::*;
use vstd::string::{StrSliceExecFns, StringExecFns};
use crate::tokens::{Token, TokenV, token_views, str_eq};
use crate::ctypes::{
    BaseType, BaseTypeV, CType, CTypeV, CParameter, CParameterV, SyscallInput, SyscallInputV,
    SyscallInputs, wrap_ptrs, wrap_pointers, param_views, decl_views, lemma_param_views_push,
    lemma_decl_views_push, pointer_depth, chain_consts, base_of,
};
use crate::numbers::{parse_u32, is_digit_seq, digits_val};

verus! {

/// What a parse failure complains about.
#[derive(Clone, Copy, Debug, PartialEq, Eq, Structural)]
pub enum ErrorKind {
    ExpectedTypeSpecifier,
    ExpectedParameterName,
    ExpectedNumber,
    InvalidNumber,
    ExpectedColon,
    ExpectedName,
    ExpectedLParen,
    ExpectedCommaOrRParen,
    ExpectedComma,
}

/// A parse failure, reported at the offending token index.
#[derive(Clone, Copy, Debug, PartialEq, Eq, Structural)]
pub struct ParseError {
    pub pos: usize,
    pub kind: ErrorKind,
}

/// The mathematical value of a parse failure.
pub struct ParseErrV {
    pub pos: int,
    pub kind: ErrorKind,
}

impl View for ParseError {
    type V = ParseErrV;

    open spec fn view(&self) -> ParseErrV {
        ParseErrV { pos: self.pos as int, kind: self.kind }
    }
}

/// The keywords that may begin or continue a type.
pub open spec fn is_type_keyword(w: Seq<char>) -> bool {
    w == "char"@ || w == "short"@ || w == "int"@ || w == "long"@ || w == "void"@ || w
        == "size_t"@ || w == "ssize_t"@ || w == "unsigned"@ || w == "struct"@ || w == "union"@
        || w == "enum"@
}

pub open spec fn is_tag_keyword(w: Seq<char>) -> bool {
    w == "struct"@ || w == "union"@ || w == "enum"@
}

/// An identifier looks like a parameter name when it is none of the words
/// that could belong to a type.
pub open spec fn spec_looks_like_param_name(w: Seq<char>) -> bool {
    !(is_type_keyword(w) || w == "const"@ || w == "signed"@)
}

pub open spec fn ident_text(t: TokenV) -> Seq<char> {
    match t {
        TokenV::Ident(w) => w,
        _ => Seq::empty(),
    }
}

pub open spec fn number_text(t: TokenV) -> Seq<char> {
    match t {
        TokenV::Number(w) => w,
        _ => Seq::empty(),
    }
}

/// After `struct`, `union` or `enum`, the identifier at `j` is read as the
/// tag when it is no type keyword and does not look like the parameter
/// name: a `*` right after it always marks it as the tag.
pub open spec fn tag_follows(ts: Seq<TokenV>, j: int) -> bool {
    j < ts.len() && ts[j] is Ident && !is_type_keyword(ident_text(ts[j])) && ((j + 1 < ts.len()
        && ts[j + 1] == TokenV::Star) || spec_looks_like_param_name(ident_text(ts[j])))
}

/// Collects the run of type keywords (with a possible tag) from `i` on,
/// returning the words and the index of the first token past them.
pub open spec fn spec_collect_words(ts: Seq<TokenV>, i: int, words: Seq<Seq<char>>) -> (Seq<
    Seq<char>,
>, int)
    decreases ts.len() - i when 0 <= i <= ts.len()
{
    if i < ts.len() && ts[i] is Ident && is_type_keyword(ident_text(ts[i])) {
        let w = ident_text(ts[i]);
        if is_tag_keyword(w) && tag_follows(ts, i + 1) {
            spec_collect_words(ts, i + 2, words.push(w).push(ident_text(ts[i + 1])))
        } else {
            spec_collect_words(ts, i + 1, words.push(w))
        }
    } else {
        (words, i)
    }
}

/// The collected words joined with single spaces.
pub open spec fn spec_join(words: Seq<Seq<char>>) -> Seq<char>
    decreases words.len(),
{
    if words.len() == 0 {
        Seq::empty()
    } else if words.len() == 1 {
        words[0]
    } else {
        spec_join(words.drop_last()) + " "@ + words.last()
    }
}

/// Resolves a joined keyword string against the fixed base-type table;
/// any other nonempty string names a custom (opaque) type, and an empty
/// one is a failure.
pub open spec fn spec_resolve(j: Seq<char>) -> Option<BaseTypeV> {
    if j == "char"@ {
        Some(BaseTypeV::Char)
    } else if j == "int"@ {
        Some(BaseTypeV::Int)
    } else if j == "unsigned"@ || j == "unsigned int"@ {
        Some(BaseTypeV::UnsignedInt)
    } else if j == "long"@ || j == "long int"@ {
        Some(BaseTypeV::Long)
    } else if j == "unsigned long"@ || j == "unsigned long int"@ {
        Some(BaseTypeV::UnsignedLong)
    } else if j == "long long"@ || j == "long long int"@ {
        Some(BaseTypeV::LongLong)
    } else if j == "unsigned long long"@ || j == "unsigned long long int"@ {
        Some(BaseTypeV::UnsignedLongLong)
    } else if j == "short"@ || j == "short int"@ {
        Some(BaseTypeV::Short)
    } else if j == "unsigned short"@ || j == "unsigned short int"@ {
        Some(BaseTypeV::UnsignedShort)
    } else if j == "void"@ {
        Some(BaseTypeV::Void)
    } else if j == "size_t"@ {
        Some(BaseTypeV::SizeT)
    } else if j == "ssize_t"@ {
        Some(BaseTypeV::SSizeT)
    } else if j.len() == 0 {
        None
    } else {
        Some(BaseTypeV::Custom(j))
    }
}

/// Only a nonempty keyword string resolves to a base type.
pub proof fn lemma_resolve_some_nonempty(j: Seq<char>)
    ensures
        spec_resolve(j) is Some ==> j.len() > 0,
{
    reveal_strlit("char");
    reveal_strlit("int");
    reveal_strlit("unsigned");
    reveal_strlit("unsigned int");
    reveal_strlit("long");
    reveal_strlit("long int");
    reveal_strlit("unsigned long");
    reveal_strlit("unsigned long int");
    reveal_strlit("long long");
    reveal_strlit("long long int");
    reveal_strlit("unsigned long long");
    reveal_strlit("unsigned long long int");
    reveal_strlit("short");
    reveal_strlit("short int");
    reveal_strlit("unsigned short");
    reveal_strlit("unsigned short int");
    reveal_strlit("void");
    reveal_strlit("size_t");
    reveal_strlit("ssize_t");
}

/// Reading the base-type words of one type, or failing at the token where
/// a type specifier was expected.
pub open spec fn spec_parse_base(ts: Seq<TokenV>, i: int) -> Result<(BaseTypeV, int), ParseErrV> {
    let (words, i2) = spec_collect_words(ts, i, Seq::empty());
    match spec_resolve(spec_join(words)) {
        None => Err(ParseErrV { pos: i2, kind: ErrorKind::ExpectedTypeSpecifier }),
        Some(b) => Ok((b, i2)),
    }
}

/// Collects the const flag of each pointer level from `i` on, in source
/// order; a pending leading `const` is absorbed by the first level only.
pub open spec fn spec_parse_stars(ts: Seq<TokenV>, i: int, lead: bool, flags: Seq<bool>) -> (Seq<
    bool,
>, int)
    decreases ts.len() - i when 0 <= i <= ts.len()
{
    if i < ts.len() && ts[i] == TokenV::Star {
        if i + 1 < ts.len() && ts[i + 1] == TokenV::Ident("const"@) {
            spec_parse_stars(ts, i + 2, false, flags.push(true))
        } else {
            spec_parse_stars(ts, i + 1, false, flags.push(lead))
        }
    } else {
        (flags, i)
    }
}

/// Reading one full C type from `i` on: optional leading `const`, base
/// words, pointer levels.
pub open spec fn spec_parse_ctype(ts: Seq<TokenV>, i: int) -> Result<(CTypeV, int), ParseErrV> {
    let lead = i < ts.len() && ts[i] == TokenV::Ident("const"@);
    let i1 = if lead {
        i + 1
    } else {
        i
    };
    match spec_parse_base(ts, i1) {
        Err(e) => Err(e),
        Ok((b, i2)) => {
            let (flags, i3) = spec_parse_stars(ts, i2, lead, Seq::empty());
            Ok((wrap_ptrs(CTypeV::Base(b), flags), i3))
        },
    }
}

/// Reading one parameter: a type followed by its name.
pub open spec fn spec_parse_param(ts: Seq<TokenV>, i: int) -> Result<(CParameterV, int), ParseErrV> {
    match spec_parse_ctype(ts, i) {
        Err(e) => Err(e),
        Ok((t, j)) => {
            if j < ts.len() && ts[j] is Ident {
                Ok((CParameterV { c_type: t, name: ident_text(ts[j]) }, j + 1))
            } else {
                Err(ParseErrV { pos: j, kind: ErrorKind::ExpectedParameterName })
            }
        },
    }
}

proof fn lemma_collect_words_bounds(ts: Seq<TokenV>, i: int, words: Seq<Seq<char>>)
    requires
        0 <= i <= ts.len(),
    ensures
        ({
            let (out, j) = spec_collect_words(ts, i, words);
            i <= j <= ts.len() && (j == i ==> out == words)
        }),
    decreases ts.len() - i,
{
    if i < ts.len() && ts[i] is Ident && is_type_keyword(ident_text(ts[i])) {
        let w = ident_text(ts[i]);
        if is_tag_keyword(w) && tag_follows(ts, i + 1) {
            lemma_collect_words_bounds(ts, i + 2, words.push(w).push(ident_text(ts[i + 1])));
        } else {
            lemma_collect_words_bounds(ts, i + 1, words.push(w));
        }
    }
}

proof fn lemma_parse_stars_bounds(ts: Seq<TokenV>, i: int, lead: bool, flags: Seq<bool>)
    requires
        0 <= i <= ts.len(),
    ensures
        i <= spec_parse_stars(ts, i, lead, flags).1 <= ts.len(),
    decreases ts.len() - i,
{
    if i < ts.len() && ts[i] == TokenV::Star {
        if i + 1 < ts.len() && ts[i + 1] == TokenV::Ident("const"@) {
            lemma_parse_stars_bounds(ts, i + 2, false, flags.push(true));
        } else {
            lemma_parse_stars_bounds(ts, i + 1, false, flags.push(lead));
        }
    }
}

/// A successful type parse consumes at least one token and stays within
/// the stream.
pub proof fn lemma_parse_ctype_advances(ts: Seq<TokenV>, i: int)
    requires
        0 <= i <= ts.len(),
    ensures
        spec_parse_ctype(ts, i) matches Ok((t, j)) ==> i < j <= ts.len(),
{
    let lead = i < ts.len() && ts[i] == TokenV::Ident("const"@);
    let i1 = if lead {
        i + 1
    } else {
        i
    };
    lemma_collect_words_bounds(ts, i1, Seq::empty());
    let (words, i2) = spec_collect_words(ts, i1, Seq::empty());
    lemma_resolve_some_nonempty(spec_join(words));
    lemma_parse_stars_bounds(ts, i2, lead, Seq::empty());
    if spec_resolve(spec_join(words)) is Some {
        if i2 == i1 {
            assert(words =~= Seq::<Seq<char>>::empty());
            assert(spec_join(words).len() == 0);
        }
    }
}

pub proof fn lemma_parse_param_advances(ts: Seq<TokenV>, i: int)
    requires
        0 <= i <= ts.len(),
    ensures
        spec_parse_param(ts, i) matches Ok((p, j)) ==> i < j <= ts.len(),
{
    lemma_parse_ctype_advances(ts, i);
}

/// Reading the parameter list after the opening parenthesis: either an
/// immediate closing parenthesis, or one or more comma-separated
/// parameters with an optional trailing comma. Parameter names are not
/// checked for uniqueness: a duplicate is accepted here and reproduced
/// verbatim by generation, where the emitted signature then repeats the
/// name.
pub open spec fn spec_parse_params(ts: Seq<TokenV>, i: int) -> Result<
    (Seq<CParameterV>, int),
    ParseErrV,
> {
    if i < ts.len() && ts[i] == TokenV::RParen {
        Ok((Seq::empty(), i + 1))
    } else {
        spec_parse_params_rest(ts, i, Seq::empty())
    }
}

pub open spec fn spec_parse_params_rest(ts: Seq<TokenV>, i: int, acc: Seq<CParameterV>) -> Result<
    (Seq<CParameterV>, int),
    ParseErrV,
>
    decreases ts.len() - i when 0 <= i <= ts.len() via spec_parse_params_rest_decreases
{
    match spec_parse_param(ts, i) {
        Err(e) => Err(e),
        Ok((p, j)) => {
            if j < ts.len() && ts[j] == TokenV::Comma {
                if j + 1 < ts.len() && ts[j + 1] == TokenV::RParen {
                    Ok((acc.push(p), j + 2))
                } else {
                    spec_parse_params_rest(ts, j + 1, acc.push(p))
                }
            } else if j < ts.len() && ts[j] == TokenV::RParen {
                Ok((acc.push(p), j + 1))
            } else {
                Err(ParseErrV { pos: j, kind: ErrorKind::ExpectedCommaOrRParen })
            }
        },
    }
}

#[via_fn]
proof fn spec_parse_params_rest_decreases(ts: Seq<TokenV>, i: int, acc: Seq<CParameterV>) {
    lemma_parse_param_advances(ts, i);
}

proof fn lemma_parse_params_rest_bounds(ts: Seq<TokenV>, i: int, acc: Seq<CParameterV>)
    requires
        0 <= i <= ts.len(),
    ensures
        spec_parse_params_rest(ts, i, acc) matches Ok((ps, k)) ==> i < k <= ts.len(),
    decreases ts.len() - i,
{
    lemma_parse_param_advances(ts, i);
    match spec_parse_param(ts, i) {
        Err(_) => {},
        Ok((p, j)) => {
            if j < ts.len() && ts[j] == TokenV::Comma {
                if !(j + 1 < ts.len() && ts[j + 1] == TokenV::RParen) {
                    lemma_parse_params_rest_bounds(ts, j + 1, acc.push(p));
                }
            }
        },
    }
}

pub proof fn lemma_parse_params_bounds(ts: Seq<TokenV>, i: int)
    requires
        0 <= i <= ts.len(),
    ensures
        spec_parse_params(ts, i) matches Ok((ps, k)) ==> i < k <= ts.len(),
{
    lemma_parse_params_rest_bounds(ts, i, Seq::empty());
}

/// Reading one whole declaration:
/// `<number> ":" <type> <name> "(" ... ")"`.
pub open spec fn spec_parse_decl(ts: Seq<TokenV>, i: int) -> Result<(SyscallInputV, int), ParseErrV> {
    if !(i < ts.len() && ts[i] is Number) {
        Err(ParseErrV { pos: i, kind: ErrorKind::ExpectedNumber })
    } else {
        let digits = number_text(ts[i]);
        if !(digits.len() > 0 && is_digit_seq(digits) && digits_val(digits) <= u32::MAX) {
            Err(ParseErrV { pos: i, kind: ErrorKind::InvalidNumber })
        } else if !(i + 1 < ts.len() && ts[i + 1] == TokenV::Colon) {
            Err(ParseErrV { pos: i + 1, kind: ErrorKind::ExpectedColon })
        } else {
            match spec_parse_ctype(ts, i + 2) {
                Err(e) => Err(e),
                Ok((rt, j)) => {
                    if !(j < ts.len() && ts[j] is Ident) {
                        Err(ParseErrV { pos: j, kind: ErrorKind::ExpectedName })
                    } else if !(j + 1 < ts.len() && ts[j + 1] == TokenV::LParen) {
                        Err(ParseErrV { pos: j + 1, kind: ErrorKind::ExpectedLParen })
                    } else {
                        match spec_parse_params(ts, j + 2) {
                            Err(e) => Err(e),
                            Ok((ps, k)) => Ok(
                                (
                                    SyscallInputV {
                                        syscall_number: digits_val(digits) as u32,
                                        return_type: rt,
                                        name: ident_text(ts[j]),
                                        args: ps,
                                    },
                                    k,
                                ),
                            ),
                        }
                    }
                },
            }
        }
    }
}

pub proof fn lemma_parse_decl_advances(ts: Seq<TokenV>, i: int)
    requires
        0 <= i <= ts.len(),
    ensures
        spec_parse_decl(ts, i) matches Ok((d, k)) ==> i < k <= ts.len(),
{
    if i < ts.len() && ts[i] is Number {
        if i + 1 < ts.len() && ts[i + 1] == TokenV::Colon {
            lemma_parse_ctype_advances(ts, i + 2);
            match spec_parse_ctype(ts, i + 2) {
                Err(_) => {},
                Ok((rt, j)) => {
                    if j + 1 < ts.len() && ts[j + 1] == TokenV::LParen {
                        lemma_parse_params_bounds(ts, j + 2);
                    }
                },
            }
        }
    }
}

/// Reading the whole comma-separated declaration list; the list may be
/// empty and may end with a trailing comma.
pub open spec fn spec_parse_decls(ts: Seq<TokenV>, i: int, acc: Seq<SyscallInputV>) -> Result<
    (Seq<SyscallInputV>, int),
    ParseErrV,
>
    decreases ts.len() - i when 0 <= i <= ts.len() via spec_parse_decls_decreases
{
    if i >= ts.len() {
        Ok((acc, i))
    } else {
        match spec_parse_decl(ts, i) {
            Err(e) => Err(e),
            Ok((d, j)) => {
                if j < ts.len() {
                    if ts[j] == TokenV::Comma {
                        spec_parse_decls(ts, j + 1, acc.push(d))
                    } else {
                        Err(ParseErrV { pos: j, kind: ErrorKind::ExpectedComma })
                    }
                } else {
                    Ok((acc.push(d), j))
                }
            },
        }
    }
}

#[via_fn]
proof fn spec_parse_decls_decreases(ts: Seq<TokenV>, i: int, acc: Seq<SyscallInputV>) {
    if i < ts.len() {
        lemma_parse_decl_advances(ts, i);
    }
}

/// The tokens spelling a pointer suffix: one `*` per level, each
/// followed by `const` when its flag is set.
pub open spec fn star_tokens(cs: Seq<bool>) -> Seq<TokenV>
    decreases cs.len(),
{
    if cs.len() == 0 {
        Seq::empty()
    } else {
        (if cs[0] {
            seq![TokenV::Star, TokenV::Ident("const"@)]
        } else {
            seq![TokenV::Star]
        }) + star_tokens(cs.skip(1))
    }
}

/// A pending leading `const` strengthens the first level's flag and no
/// other.
pub open spec fn absorb_lead(cs: Seq<bool>, lead: bool) -> Seq<bool> {
    if cs.len() == 0 {
        cs
    } else {
        cs.update(0, cs[0] || lead)
    }
}

/// Parsing a pointer suffix spelled from declared per-level qualifiers
/// collects exactly those qualifiers, the leading `const` absorbed by the
/// first level only, and stops exactly at the end of the suffix.
pub proof fn lemma_parse_stars_exact(
    ts: Seq<TokenV>,
    i: int,
    cs: Seq<bool>,
    lead: bool,
    acc: Seq<bool>,
)
    requires
        0 <= i,
        i + star_tokens(cs).len() <= ts.len(),
        ts.subrange(i, i + star_tokens(cs).len() as int) == star_tokens(cs),
        i + star_tokens(cs).len() == ts.len() || (ts[i + star_tokens(cs).len()] != TokenV::Star
            && ts[i + star_tokens(cs).len()] != TokenV::Ident("const"@)),
    ensures
        spec_parse_stars(ts, i, lead, acc) == (acc + absorb_lead(cs, lead), i + star_tokens(
            cs,
        ).len() as int),
    decreases cs.len(),
{
    let m = star_tokens(cs).len() as int;
    if cs.len() == 0 {
        assert(acc + absorb_lead(cs, lead) =~= acc);
    } else {
        let rest = cs.skip(1);
        let mrest = star_tokens(rest).len() as int;
        let step: int = if cs[0] {
            2
        } else {
            1
        };
        assert(star_tokens(cs).len() == step + mrest);
        assert(ts[i] == star_tokens(cs)[0]);
        assert(ts[i] == TokenV::Star);
        if cs[0] {
            assert(ts[i + 1] == star_tokens(cs)[1]);
            assert(ts[i + 1] == TokenV::Ident("const"@));
        } else {
            if i + 1 < ts.len() {
                if 1 < m {
                    assert(ts[i + 1] == star_tokens(cs)[1]);
                    assert(star_tokens(cs)[1] == star_tokens(rest)[0]);
                    assert(rest.len() > 0);
                    assert(star_tokens(rest)[0] == TokenV::Star);
                }
                assert(ts[i + 1] != TokenV::Ident("const"@));
            }
        }
        assert(ts.subrange(i + step, i + m) =~= star_tokens(rest)) by {
            assert(forall|k: int|
                0 <= k < mrest ==> ts.subrange(i + step, i + m)[k] == ts[i + step + k]
                    && #[trigger] star_tokens(rest)[k] == star_tokens(cs)[step + k]);
        }
        let flag = cs[0] || lead;
        lemma_parse_stars_exact(ts, i + step, rest, false, acc.push(flag));
        assert(absorb_lead(rest, false) =~= rest);
        assert(acc.push(flag) + rest =~= acc + absorb_lead(cs, lead));
    }
}

/// For every pointer depth and every combination of per-level `const`
/// qualifiers, with or without a leading `const`, parsing a type
/// reconstructs a pointer chain whose depth equals the number of `*`
/// tokens, whose base is the declared base type, and whose per-level
/// const flags match the declared qualifiers, a leading `const` absorbed
/// by the first level exactly once. The tokens after the type must not
/// extend it: no `*`, no `const`, no type keyword.
pub proof fn lemma_pointer_chain_parse(cs: Seq<bool>, lead: bool, rest: Seq<TokenV>)
    requires
        rest.len() > 0 ==> rest[0] != TokenV::Star && rest[0] != TokenV::Ident("const"@) && !(
        rest[0] is Ident && is_type_keyword(ident_text(rest[0]))),
    ensures
        ({
            let head: Seq<TokenV> = if lead {
                seq![TokenV::Ident("const"@), TokenV::Ident("int"@)]
            } else {
                seq![TokenV::Ident("int"@)]
            };
            let ts = head + star_tokens(cs) + rest;
            spec_parse_ctype(ts, 0) matches Ok((t, j)) && pointer_depth(t) == cs.len()
                && chain_consts(t) == absorb_lead(cs, lead) && base_of(t) == BaseTypeV::Int && j
                == head.len() + star_tokens(cs).len()
        }),
{
    reveal_strlit("const");
    reveal_strlit("int");
    reveal_strlit("char");
    reveal_strlit("struct");
    reveal_strlit("union");
    reveal_strlit("enum");
    assert("const"@.len() == 5);
    assert("int"@.len() == 3);
    assert("char"@.len() == 4);
    assert("struct"@.len() == 6);
    assert("union"@.len() == 5);
    assert("enum"@.len() == 4);
    assert("const"@[0] == 'c' && "union"@[0] == 'u');
    let head: Seq<TokenV> = if lead {
        seq![TokenV::Ident("const"@), TokenV::Ident("int"@)]
    } else {
        seq![TokenV::Ident("int"@)]
    };
    let stars = star_tokens(cs);
    let m = stars.len() as int;
    let h = head.len() as int;
    let ts = head + stars + rest;
    assert(ts.len() == h + m + rest.len());
    assert(forall|k: int| 0 <= k < h ==> ts[k] == head[k]);
    assert(forall|k: int| 0 <= k < m ==> ts[h + k] == stars[k]);
    assert(forall|k: int| 0 <= k < rest.len() ==> ts[h + m + k] == rest[k]);
    // The leading-const check sees `const` exactly when `lead` is set.
    assert((ts[0] == TokenV::Ident("const"@)) == lead);
    let i1: int = if lead {
        1
    } else {
        0
    };
    assert(ts[i1] == TokenV::Ident("int"@));
    // The keyword run is the single word `int`.
    let words = Seq::<Seq<char>>::empty().push("int"@);
    assert(!is_tag_keyword("int"@));
    if i1 + 1 < ts.len() {
        if m > 0 {
            assert(ts[i1 + 1] == stars[0]);
            assert(stars[0] == TokenV::Star);
        } else {
            assert(ts[i1 + 1] == rest[0]);
        }
        assert(!(ts[i1 + 1] is Ident && is_type_keyword(ident_text(ts[i1 + 1]))));
    }
    assert(spec_collect_words(ts, i1 + 1, words) == (words, i1 + 1));
    assert(spec_collect_words(ts, i1, Seq::empty()) == (words, i1 + 1));
    assert(spec_join(words) == "int"@);
    assert(spec_resolve("int"@) == Some(BaseTypeV::Int));
    assert(spec_parse_base(ts, i1) == Ok::<(BaseTypeV, int), ParseErrV>((BaseTypeV::Int, i1 + 1)));
    // The pointer suffix parses to exactly the declared qualifiers.
    assert(ts.subrange(i1 + 1, i1 + 1 + m) =~= stars);
    lemma_parse_stars_exact(ts, i1 + 1, cs, lead, Seq::empty());
    assert(Seq::<bool>::empty() + absorb_lead(cs, lead) =~= absorb_lead(cs, lead));
    crate::ctypes::lemma_wrap_ptrs(CTypeV::Base(BaseTypeV::Int), absorb_lead(cs, lead));
    assert(Seq::<bool>::empty() + absorb_lead(cs, lead) =~= absorb_lead(cs, lead));
    assert(chain_consts(CTypeV::Base(BaseTypeV::Int)) + absorb_lead(cs, lead) =~= absorb_lead(
        cs,
        lead,
    ));
}

fn type_keyword_text(w: &str) -> (r: bool)
    ensures
        r == is_type_keyword(w@),
{
    str_eq(w, "char") || str_eq(w, "short") || str_eq(w, "int") || str_eq(w, "long") || str_eq(
        w,
        "void",
    ) || str_eq(w, "size_t") || str_eq(w, "ssize_t") || str_eq(w, "unsigned") || str_eq(
        w,
        "struct",
    ) || str_eq(w, "union") || str_eq(w, "enum")
}

fn tag_keyword_text(w: &str) -> (r: bool)
    ensures
        r == is_tag_keyword(w@),
{
    str_eq(w, "struct") || str_eq(w, "union") || str_eq(w, "enum")
}

/// Whether an identifier looks like a parameter name rather than part of
/// a type.
pub fn looks_like_param_name(w: &str) -> (r: bool)
    ensures
        r == spec_looks_like_param_name(w@),
{
    !(type_keyword_text(w) || str_eq(w, "const") || str_eq(w, "signed"))
}

fn tok_eq_star(t: &Token) -> (r: bool)
    ensures
        r == (t@ == TokenV::Star),
{
    match t {
        Token::Star => true,
        _ => false,
    }
}

fn tok_eq_comma(t: &Token) -> (r: bool)
    ensures
        r == (t@ == TokenV::Comma),
{
    match t {
        Token::Comma => true,
        _ => false,
    }
}

fn tok_eq_colon(t: &Token) -> (r: bool)
    ensures
        r == (t@ == TokenV::Colon),
{
    match t {
        Token::Colon => true,
        _ => false,
    }
}

fn tok_eq_lparen(t: &Token) -> (r: bool)
    ensures
        r == (t@ == TokenV::LParen),
{
    match t {
        Token::LParen => true,
        _ => false,
    }
}

fn tok_eq_rparen(t: &Token) -> (r: bool)
    ensures
        r == (t@ == TokenV::RParen),
{
    match t {
        Token::RParen => true,
        _ => false,
    }
}

fn tok_is_const(t: &Token) -> (r: bool)
    ensures
        r == (t@ == TokenV::Ident("const"@)),
{
    match t {
        Token::Ident(s) => str_eq(s.as_str(), "const"),
        _ => false,
    }
}

/// The values of a word list.
pub open spec fn string_views(ws: Seq<String>) -> Seq<Seq<char>> {
    ws.map_values(|s: String| s@)
}

proof fn lemma_string_views_push(ws: Seq<String>, s: String)
    ensures
        string_views(ws.push(s)) == string_views(ws).push(s@),
{
    assert(string_views(ws.push(s)) =~= string_views(ws).push(s@));
}

fn tag_follows_here(ts: &Vec<Token>, j: usize) -> (r: bool)
    requires
        j <= ts@.len(),
    ensures
        r == tag_follows(token_views(ts@), j as int),
{
    if j < ts.len() {
        match &ts[j] {
            Token::Ident(w) => {
                if type_keyword_text(w.as_str()) {
                    false
                } else {
                    let star = j + 1 < ts.len() && tok_eq_star(&ts[j + 1]);
                    star || looks_like_param_name(w.as_str())
                }
            },
            _ => false,
        }
    } else {
        false
    }
}

fn collect_words(ts: &Vec<Token>, i: usize, words: &mut Vec<String>) -> (j: usize)
    requires
        i <= ts@.len(),
    ensures
        ({
            let (outw, outi) = spec_collect_words(
                token_views(ts@),
                i as int,
                string_views(old(words)@),
            );
            string_views(final(words)@) == outw && j as int == outi && i <= j <= ts@.len()
        }),
    decreases ts@.len() - i,
{
    if i < ts.len() {
        let is_kw = match &ts[i] {
            Token::Ident(w) => type_keyword_text(w.as_str()),
            _ => false,
        };
        if is_kw {
            match &ts[i] {
                Token::Ident(w) => {
                    let ghost old_words = words@;
                    words.push(w.as_str().to_owned());
                    proof {
                        lemma_string_views_push(old_words, words@.last());
                    }
                    if tag_keyword_text(w.as_str()) && tag_follows_here(ts, i + 1) {
                        match &ts[i + 1] {
                            Token::Ident(v) => {
                                let ghost mid_words = words@;
                                words.push(v.as_str().to_owned());
                                proof {
                                    lemma_string_views_push(mid_words, words@.last());
                                }
                                collect_words(ts, i + 2, words)
                            },
                            _ => {
                                proof {
                                    assert(false);
                                }
                                i
                            },
                        }
                    } else {
                        collect_words(ts, i + 1, words)
                    }
                },
                _ => {
                    proof {
                        assert(false);
                    }
                    i
                },
            }
        } else {
            i
        }
    } else {
        i
    }
}

fn join_words(words: &Vec<String>) -> (r: String)
    ensures
        r@ == spec_join(string_views(words@)),
{
    let mut out = String::new();
    let mut k: usize = 0;
    while k < words.len()
        invariant
            0 <= k <= words@.len(),
            out@ == spec_join(string_views(words@).take(k as int)),
        decreases words@.len() - k,
    {
        if k > 0 {
            out.append(" ");
        }
        out.append(words[k].as_str());
        proof {
            let sv = string_views(words@);
            assert(sv.take(k as int + 1).drop_last() =~= sv.take(k as int));
            assert(sv.take(k as int + 1).last() == words@[k as int]@);
            if k == 0 {
                assert(spec_join(sv.take(1)) == sv[0]);
            }
        }
        k += 1;
    }
    proof {
        assert(string_views(words@).take(words@.len() as int) =~= string_views(words@));
    }
    out
}

fn resolve_base(words: &Vec<String>) -> (r: Option<BaseType>)
    ensures
        match spec_resolve(spec_join(string_views(words@))) {
            Option::None => r is None,
            Option::Some(b) => r matches Some(bt) && bt@ == b,
        },
{
    let joined = join_words(words);
    if str_eq(joined.as_str(), "char") {
        Some(BaseType::Char)
    } else if str_eq(joined.as_str(), "int") {
        Some(BaseType::Int)
    } else if str_eq(joined.as_str(), "unsigned") || str_eq(joined.as_str(), "unsigned int") {
        Some(BaseType::UnsignedInt)
    } else if str_eq(joined.as_str(), "long") || str_eq(joined.as_str(), "long int") {
        Some(BaseType::Long)
    } else if str_eq(joined.as_str(), "unsigned long") || str_eq(
        joined.as_str(),
        "unsigned long int",
    ) {
        Some(BaseType::UnsignedLong)
    } else if str_eq(joined.as_str(), "long long") || str_eq(joined.as_str(), "long long int") {
        Some(BaseType::LongLong)
    } else if str_eq(joined.as_str(), "unsigned long long") || str_eq(
        joined.as_str(),
        "unsigned long long int",
    ) {
        Some(BaseType::UnsignedLongLong)
    } else if str_eq(joined.as_str(), "short") || str_eq(joined.as_str(), "short int") {
        Some(BaseType::Short)
    } else if str_eq(joined.as_str(), "unsigned short") || str_eq(
        joined.as_str(),
        "unsigned short int",
    ) {
        Some(BaseType::UnsignedShort)
    } else if str_eq(joined.as_str(), "void") {
        Some(BaseType::Void)
    } else if str_eq(joined.as_str(), "size_t") {
        Some(BaseType::SizeT)
    } else if str_eq(joined.as_str(), "ssize_t") {
        Some(BaseType::SSizeT)
    } else if joined.as_str().unicode_len() > 0 {
        Some(BaseType::Custom(joined))
    } else {
        None
    }
}

/// Reads the base-type words of one type starting at token `i`.
pub fn parse_base_type(ts: &Vec<Token>, i: usize) -> (r: Result<(BaseType, usize), ParseError>)
    requires
        i <= ts@.len(),
    ensures
        match r {
            Ok((b, j)) => spec_parse_base(token_views(ts@), i as int) == Ok::<
                (BaseTypeV, int),
                ParseErrV,
            >((b@, j as int)) && i < j <= ts@.len(),
            Err(e) => spec_parse_base(token_views(ts@), i as int) == Err::<
                (BaseTypeV, int),
                ParseErrV,
            >(e@),
        },
{
    let mut words: Vec<String> = Vec::new();
    let j = collect_words(ts, i, &mut words);
    proof {
        assert(string_views(Seq::<String>::empty()) =~= Seq::<Seq<char>>::empty());
        lemma_collect_words_bounds(token_views(ts@), i as int, Seq::empty());
        lemma_resolve_some_nonempty(spec_join(string_views(words@)));
    }
    match resolve_base(&words) {
        Some(b) => {
            proof {
                if j == i {
                    assert(string_views(words@) =~= Seq::<Seq<char>>::empty());
                }
            }
            Ok((b, j))
        },
        None => Err(ParseError { pos: j, kind: ErrorKind::ExpectedTypeSpecifier }),
    }
}

fn parse_stars(ts: &Vec<Token>, i: usize, lead: bool) -> (r: (Vec<bool>, usize))
    requires
        i <= ts@.len(),
    ensures
        (r.0@, r.1 as int) == spec_parse_stars(token_views(ts@), i as int, lead, Seq::empty()),
        i <= r.1 <= ts@.len(),
{
    let mut flags: Vec<bool> = Vec::new();
    let mut lead_c = lead;
    let mut k = i;
    loop
        invariant
            i <= k <= ts@.len(),
            spec_parse_stars(token_views(ts@), i as int, lead, Seq::empty()) == spec_parse_stars(
                token_views(ts@),
                k as int,
                lead_c,
                flags@,
            ),
        decreases ts@.len() - k,
    {
        if k < ts.len() && tok_eq_star(&ts[k]) {
            if k + 1 < ts.len() && tok_is_const(&ts[k + 1]) {
                flags.push(true);
                k = k + 2;
            } else {
                flags.push(lead_c);
                k = k + 1;
            }
            lead_c = false;
        } else {
            return (flags, k);
        }
    }
}

impl CType {
    /// Reads one full C type starting at token `i`.
    pub fn parse(ts: &Vec<Token>, i: usize) -> (r: Result<(CType, usize), ParseError>)
        requires
            i <= ts@.len(),
        ensures
            match r {
                Ok((t, j)) => spec_parse_ctype(token_views(ts@), i as int) == Ok::<
                    (CTypeV, int),
                    ParseErrV,
                >((t@, j as int)) && i < j <= ts@.len(),
                Err(e) => spec_parse_ctype(token_views(ts@), i as int) == Err::<
                    (CTypeV, int),
                    ParseErrV,
                >(e@),
            },
    {
        let lead = i < ts.len() && tok_is_const(&ts[i]);
        let i1 = if lead {
            i + 1
        } else {
            i
        };
        match parse_base_type(ts, i1) {
            Err(e) => Err(e),
            Ok((b, i2)) => {
                let (flags, i3) = parse_stars(ts, i2, lead);
                let t = wrap_pointers(CType::Base(b), &flags, 0);
                proof {
                    assert(flags@.skip(0) =~= flags@);
                }
                Ok((t, i3))
            },
        }
    }
}

impl CParameter {
    /// Reads one parameter (type and name) starting at token `i`.
    pub fn parse(ts: &Vec<Token>, i: usize) -> (r: Result<(CParameter, usize), ParseError>)
        requires
            i <= ts@.len(),
        ensures
            match r {
                Ok((p, j)) => spec_parse_param(token_views(ts@), i as int) == Ok::<
                    (CParameterV, int),
                    ParseErrV,
                >((p@, j as int)) && i < j <= ts@.len(),
                Err(e) => spec_parse_param(token_views(ts@), i as int) == Err::<
                    (CParameterV, int),
                    ParseErrV,
                >(e@),
            },
    {
        match CType::parse(ts, i) {
            Err(e) => Err(e),
            Ok((t, j)) => {
                if j < ts.len() {
                    match &ts[j] {
                        Token::Ident(s) => Ok(
                            (CParameter { c_type: t, name: s.as_str().to_owned() }, j + 1),
                        ),
                        _ => Err(ParseError { pos: j, kind: ErrorKind::ExpectedParameterName }),
                    }
                } else {
                    Err(ParseError { pos: j, kind: ErrorKind::ExpectedParameterName })
                }
            },
        }
    }
}

fn parse_params(ts: &Vec<Token>, i: usize) -> (r: Result<(Vec<CParameter>, usize), ParseError>)
    requires
        i <= ts@.len(),
    ensures
        match r {
            Ok((ps, k)) => spec_parse_params(token_views(ts@), i as int) == Ok::<
                (Seq<CParameterV>, int),
                ParseErrV,
            >((param_views(ps@), k as int)) && i < k <= ts@.len(),
            Err(e) => spec_parse_params(token_views(ts@), i as int) == Err::<
                (Seq<CParameterV>, int),
                ParseErrV,
            >(e@),
        },
{
    if i < ts.len() && tok_eq_rparen(&ts[i]) {
        proof {
            assert(param_views(Seq::<CParameter>::empty()) =~= Seq::<CParameterV>::empty());
        }
        return Ok((Vec::new(), i + 1));
    }
    let mut ps: Vec<CParameter> = Vec::new();
    let mut k = i;
    proof {
        assert(param_views(Seq::<CParameter>::empty()) =~= Seq::<CParameterV>::empty());
    }
    loop
        invariant
            i <= k <= ts@.len(),
            spec_parse_params(token_views(ts@), i as int) == spec_parse_params_rest(
                token_views(ts@),
                k as int,
                param_views(ps@),
            ),
        decreases ts@.len() - k,
    {
        match CParameter::parse(ts, k) {
            Err(e) => {
                return Err(e);
            },
            Ok((p, j)) => {
                let ghost old_ps = ps@;
                ps.push(p);
                proof {
                    lemma_param_views_push(old_ps, p);
                }
                if j < ts.len() && tok_eq_comma(&ts[j]) {
                    if j + 1 < ts.len() && tok_eq_rparen(&ts[j + 1]) {
                        return Ok((ps, j + 2));
                    }
                    k = j + 1;
                } else if j < ts.len() && tok_eq_rparen(&ts[j]) {
                    return Ok((ps, j + 1));
                } else {
                    return Err(ParseError { pos: j, kind: ErrorKind::ExpectedCommaOrRParen });
                }
            },
        }
    }
}

impl SyscallInput {
    /// Reads one whole declaration starting at token `i`.
    pub fn parse(ts: &Vec<Token>, i: usize) -> (r: Result<(SyscallInput, usize), ParseError>)
        requires
            i <= ts@.len(),
        ensures
            match r {
                Ok((d, k)) => spec_parse_decl(token_views(ts@), i as int) == Ok::<
                    (SyscallInputV, int),
                    ParseErrV,
                >((d@, k as int)) && i < k <= ts@.len(),
                Err(e) => spec_parse_decl(token_views(ts@), i as int) == Err::<
                    (SyscallInputV, int),
                    ParseErrV,
                >(e@),
            },
    {
        if i >= ts.len() {
            return Err(ParseError { pos: i, kind: ErrorKind::ExpectedNumber });
        }
        let digits = match &ts[i] {
            Token::Number(s) => s,
            _ => {
                return Err(ParseError { pos: i, kind: ErrorKind::ExpectedNumber });
            },
        };
        let num = match parse_u32(digits.as_str()) {
            Some(v) => v,
            None => {
                return Err(ParseError { pos: i, kind: ErrorKind::InvalidNumber });
            },
        };
        if !(i + 1 < ts.len() && tok_eq_colon(&ts[i + 1])) {
            return Err(ParseError { pos: i + 1, kind: ErrorKind::ExpectedColon });
        }
        match CType::parse(ts, i + 2) {
            Err(e) => Err(e),
            Ok((rt, j)) => {
                if j >= ts.len() {
                    return Err(ParseError { pos: j, kind: ErrorKind::ExpectedName });
                }
                let name = match &ts[j] {
                    Token::Ident(s) => s.as_str().to_owned(),
                    _ => {
                        return Err(ParseError { pos: j, kind: ErrorKind::ExpectedName });
                    },
                };
                if !(j + 1 < ts.len() && tok_eq_lparen(&ts[j + 1])) {
                    return Err(ParseError { pos: j + 1, kind: ErrorKind::ExpectedLParen });
                }
                match parse_params(ts, j + 2) {
                    Err(e) => Err(e),
                    Ok((args, k)) => Ok(
                        (
                            SyscallInput {
                                syscall_number: num,
                                return_type: rt,
                                name,
                                args,
                            },
                            k,
                        ),
                    ),
                }
            },
        }
    }
}

impl SyscallInputs {
    /// Reads the whole declaration list; the token stream must be consumed
    /// completely.
    pub fn parse(ts: &Vec<Token>) -> (r: Result<SyscallInputs, ParseError>)
        ensures
            match r {
                Ok(si) => spec_parse_decls(token_views(ts@), 0, Seq::empty()) == Ok::<
                    (Seq<SyscallInputV>, int),
                    ParseErrV,
                >((si@, ts@.len() as int)),
                Err(e) => spec_parse_decls(token_views(ts@), 0, Seq::empty()) == Err::<
                    (Seq<SyscallInputV>, int),
                    ParseErrV,
                >(e@),
            },
    {
        let mut defs: Vec<SyscallInput> = Vec::new();
        let mut k: usize = 0;
        proof {
            assert(decl_views(Seq::<SyscallInput>::empty()) =~= Seq::<SyscallInputV>::empty());
        }
        loop
            invariant
                0 <= k <= ts@.len(),
                spec_parse_decls(token_views(ts@), 0, Seq::empty()) == spec_parse_decls(
                    token_views(ts@),
                    k as int,
                    decl_views(defs@),
                ),
            decreases ts@.len() - k,
        {
            if k >= ts.len() {
                return Ok(SyscallInputs { defs });
            }
            match SyscallInput::parse(ts, k) {
                Err(e) => {
                    return Err(e);
                },
                Ok((d, j)) => {
                    let ghost old_defs = defs@;
                    if j < ts.len() {
                        if tok_eq_comma(&ts[j]) {
                            defs.push(d);
                            proof {
                                lemma_decl_views_push(old_defs, d);
                            }
                            k = j + 1;
                        } else {
                            return Err(ParseError { pos: j, kind: ErrorKind::ExpectedComma });
                        }
                    } else {
                        defs.push(d);
                        proof {
                            lemma_decl_views_push(old_defs, d);
                        }
                        return Ok(SyscallInputs { defs });
                    }
                },
            }
        }
    }
}

} // verus!
