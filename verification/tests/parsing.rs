use syscaller::ctypes::{BaseType, CType};
use syscaller::parser::{looks_like_param_name, parse_base_type, ErrorKind};
use syscaller::tokens::{lex, Token};

fn tokens_of(s: &str) -> Vec<syscaller::tokens::Token> {
    lex(s).expect("input should lex")
}

fn parse_type(s: &str) -> CType {
    let ts = tokens_of(s);
    let (t, _) = CType::parse(&ts, 0).expect("type should parse");
    t
}

/// Walks a pointer chain outermost-first, returning the flags
/// innermost-first (declaration order) and the base type.
fn decompose(t: &CType) -> (Vec<bool>, &BaseType) {
    match t {
        CType::Base(b) => (Vec::new(), b),
        CType::Pointer { target, is_const } => {
            let (mut flags, b) = decompose(target);
            flags.push(*is_const);
            (flags, b)
        },
    }
}

#[test]
fn base_keyword_synonyms() {
    let table: &[(&str, &str)] = &[
        ("char", "i8"),
        ("int", "i32"),
        ("unsigned", "u32"),
        ("unsigned int", "u32"),
        ("long", "i64"),
        ("long int", "i64"),
        ("unsigned long", "u64"),
        ("unsigned long int", "u64"),
        ("long long", "i64"),
        ("long long int", "i64"),
        ("unsigned long long", "u64"),
        ("unsigned long long int", "u64"),
        ("short", "i16"),
        ("short int", "i16"),
        ("unsigned short", "u16"),
        ("unsigned short int", "u16"),
        ("void", "()"),
        ("size_t", "usize"),
        ("ssize_t", "isize"),
    ];
    for (kw, expected) in table {
        let ts = tokens_of(kw);
        let (b, _) = parse_base_type(&ts, 0).expect("keyword should resolve");
        assert_eq!(b.to_rust_type(), *expected, "keyword {}", kw);
    }
}

#[test]
fn pointer_depths_and_const_combinations() {
    // Every depth 0 through 3, every combination of per-level consts,
    // with and without a leading const.
    for depth in 0usize..=3 {
        for combo in 0u32..(1 << depth) {
            for lead in [false, true] {
                let mut src = String::new();
                if lead {
                    src.push_str("const ");
                }
                src.push_str("int");
                let mut declared = Vec::new();
                for level in 0..depth {
                    src.push_str(" *");
                    let c = combo & (1 << level) != 0;
                    if c {
                        src.push_str(" const");
                    }
                    declared.push(c);
                }
                let t = parse_type(&src);
                let (flags, b) = decompose(&t);
                assert!(matches!(b, BaseType::Int), "base of {}", src);
                let mut expected = declared.clone();
                if lead && depth > 0 {
                    expected[0] = true;
                }
                assert_eq!(flags.len(), depth, "depth of {}", src);
                assert_eq!(flags, expected, "flags of {}", src);
            }
        }
    }
}

#[test]
fn struct_tag_with_pointer_is_custom() {
    let t = parse_type("struct foo *p");
    match &t {
        CType::Pointer { target, is_const } => {
            assert!(!is_const);
            match &**target {
                CType::Base(BaseType::Custom(name)) => assert_eq!(name, "struct foo"),
                other => panic!("expected custom base, got {:?}", decompose_kind(other)),
            }
        },
        _ => panic!("expected a pointer"),
    }
}

fn decompose_kind(t: &CType) -> String {
    match t {
        CType::Base(_) => "base".to_string(),
        CType::Pointer { .. } => "pointer".to_string(),
    }
}

#[test]
fn struct_tag_without_pointer_is_custom() {
    let ts = tokens_of("struct stat buf");
    let (b, next) = parse_base_type(&ts, 0).expect("tagged type should resolve");
    match b {
        BaseType::Custom(name) => assert_eq!(name, "struct stat"),
        _ => panic!("expected custom base"),
    }
    // The parameter name `buf` (token 2) is left for the caller.
    assert_eq!(next, 2);
}

#[test]
fn unknown_specifier_is_rejected() {
    let ts = tokens_of("bogustype x");
    let e = parse_base_type(&ts, 0).expect_err("unknown specifier must fail");
    assert_eq!(e.kind, ErrorKind::ExpectedTypeSpecifier);
    assert_eq!(e.pos, 0);
}

#[test]
fn param_name_heuristic() {
    assert!(looks_like_param_name("fd"));
    assert!(looks_like_param_name("buffer"));
    assert!(!looks_like_param_name("unsigned"));
    assert!(!looks_like_param_name("signed"));
    assert!(!looks_like_param_name("const"));
    assert!(!looks_like_param_name("struct"));
    assert!(!looks_like_param_name("size_t"));
}

#[test]
fn lexer_token_stream() {
    let ts = tokens_of("60: void exit(int status)");
    let shape: Vec<String> = ts
        .iter()
        .map(|t| match t {
            Token::Ident(s) => format!("id:{}", s),
            Token::Number(s) => format!("num:{}", s),
            Token::Colon => ":".to_string(),
            Token::Comma => ",".to_string(),
            Token::Star => "*".to_string(),
            Token::LParen => "(".to_string(),
            Token::RParen => ")".to_string(),
        })
        .collect();
    assert_eq!(
        shape,
        vec!["num:60", ":", "id:void", "id:exit", "(", "id:int", "id:status", ")"],
    );
}

#[test]
fn lexer_rejects_stray_character() {
    let e = lex("1: void f() $").expect_err("stray character must fail");
    assert_eq!(e, 12);
}
