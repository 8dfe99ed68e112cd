use syscaller::codegen::{generate_syscall_wrapper, wrap_syscall, CompileError, GenError};
use syscaller::ctypes::SyscallInputs;
use syscaller::parser::ErrorKind;
use syscaller::tokens::lex;

fn parse_decls(s: &str) -> SyscallInputs {
    let ts = lex(s).expect("input should lex");
    SyscallInputs::parse(&ts).expect("input should parse")
}

const SAFETY_NOTE: &str = "/// # Safety\n/// The caller must uphold pointer validity, buffer bounds, and the\n/// target entry point's contract; the wrapper validates nothing.\n";

#[test]
fn read_round_trip() {
    let out = wrap_syscall("1: ssize_t read(int fd, void *buf, size_t count)").unwrap();
    let body = "pub unsafe fn read(fd: i32, buf: *mut u8, count: usize) -> isize {\n    unsafe { syscall3(1, fd as usize, buf as usize, count) as isize }\n}\n";
    assert_eq!(out, format!("{}{}", SAFETY_NOTE, body));
}

#[test]
fn exit_wrapper() {
    let out = wrap_syscall("60: void exit(int status)").unwrap();
    let body = "pub unsafe fn exit(status: i32) -> () {\n    unsafe { syscall1(60, status as usize) as () }\n}\n";
    assert_eq!(out, format!("{}{}", SAFETY_NOTE, body));
}

#[test]
fn char_pointer_is_byte_capability() {
    let out = wrap_syscall("2: int open(const char *path, int flags)").unwrap();
    assert!(out.contains("path: impl AsRef<[u8]>"));
    assert!(out.contains("path.as_ref().as_ptr() as usize"));
    assert!(!out.contains("path as usize"));
}

#[test]
fn non_char_pointers_are_erased() {
    let out = wrap_syscall("1: void f(int *p, const long *q, struct foo *r)").unwrap();
    assert!(out.contains("p: *mut u8"));
    assert!(out.contains("q: *const u8"));
    assert!(out.contains("r: *mut u8"));
    assert!(out.contains("p as usize"));
    assert!(!out.contains("as_ref"));
}

#[test]
fn double_char_pointer_is_not_a_capability() {
    let out = wrap_syscall("59: int execve(const char *path, char **argv)").unwrap();
    assert!(out.contains("path: impl AsRef<[u8]>"));
    assert!(out.contains("argv: *mut u8"));
    assert!(out.contains("argv as usize"));
}

#[test]
fn arity_dispatch_zero_one_six() {
    let out0 = wrap_syscall("39: int getpid()").unwrap();
    assert!(out0.contains("syscall0(39)"));

    let out1 = wrap_syscall("60: void exit(int status)").unwrap();
    assert!(out1.contains("syscall1(60, status as usize)"));

    let out6 = wrap_syscall(
        "9: void *mmap(void *addr, size_t length, int prot, int flags, int fd, long offset)",
    )
    .unwrap();
    assert!(out6.contains(
        "syscall6(9, addr as usize, length, prot as usize, flags as usize, fd as usize, offset as usize)"
    ));
}

#[test]
fn seven_arguments_fail_generation() {
    let defs = parse_decls("1: void f(int a, int b, int c, int d, int e, int g, int h)");
    assert_eq!(defs.defs.len(), 1);
    let r = generate_syscall_wrapper(&defs.defs[0]);
    assert_eq!(r, Err(GenError::TooManyArguments));

    let whole = wrap_syscall("1: void f(int a, int b, int c, int d, int e, int g, int h)");
    match whole {
        Err(e) => assert_eq!(
            e.describe(),
            "entry points with more than 6 arguments are not supported",
        ),
        Ok(_) => panic!("seven arguments must not generate"),
    }
}

#[test]
fn declaration_order_is_preserved() {
    let both = wrap_syscall("39: int getpid(), 60: void exit(int status)").unwrap();
    let first = wrap_syscall("39: int getpid()").unwrap();
    let second = wrap_syscall("60: void exit(int status)").unwrap();
    assert_eq!(both, format!("{}{}", first, second));
}

#[test]
fn failure_yields_no_partial_output() {
    // The second declaration is over the arity limit, so the whole pass
    // fails even though the first one is fine.
    let r = wrap_syscall(
        "39: int getpid(), 1: void f(int a, int b, int c, int d, int e, int g, int h)",
    );
    assert!(r.is_err());
}

#[test]
fn leading_zeros_are_plain_decimal() {
    let out = wrap_syscall("007: void f()").unwrap();
    assert!(out.contains("syscall0(7)"));
}

#[test]
fn three_declarations_concatenate_in_order() {
    let all = wrap_syscall("0: int a(), 1: int b(), 2: int c()").unwrap();
    let parts = [
        wrap_syscall("0: int a()").unwrap(),
        wrap_syscall("1: int b()").unwrap(),
        wrap_syscall("2: int c()").unwrap(),
    ];
    assert_eq!(all, parts.join(""));
}

#[test]
fn empty_input_generates_nothing() {
    assert_eq!(wrap_syscall("").unwrap(), "");
    assert_eq!(wrap_syscall("   \n").unwrap(), "");
}

#[test]
fn trailing_comma_is_accepted() {
    let out = wrap_syscall("39: int getpid(),").unwrap();
    assert!(out.contains("pub unsafe fn getpid()"));
}

#[test]
fn size_t_passes_unchanged() {
    let out = wrap_syscall("12: int brk(size_t addr)").unwrap();
    assert!(out.contains("syscall1(12, addr)"));
}

#[test]
fn custom_type_is_machine_word() {
    let out = wrap_syscall("13: int act(struct sigaction sa)").unwrap();
    assert!(out.contains("sa: usize"));
    assert!(out.contains("sa as usize"));
}

#[test]
fn short_types_keep_width() {
    let out = wrap_syscall("1: short f(unsigned short a, short b)").unwrap();
    assert!(out.contains("a: u16"));
    assert!(out.contains("b: i16"));
    assert!(out.contains("-> i16"));
}

#[test]
fn leading_const_without_pointer_is_dropped() {
    // A qualifier before the base type applies only to the first pointer
    // level; with no pointer at all it changes nothing.
    let with_const = wrap_syscall("60: void exit(const int status)").unwrap();
    let without = wrap_syscall("60: void exit(int status)").unwrap();
    assert_eq!(with_const, without);
}

#[test]
fn leading_const_marks_first_pointer_level() {
    let out = wrap_syscall("1: void f(const int *p)").unwrap();
    assert!(out.contains("p: *const u8"));
    let out2 = wrap_syscall("1: void f(const int **p)").unwrap();
    // Only the first (innermost) level absorbs the qualifier; the outer
    // level stays mutable.
    assert!(out2.contains("p: *mut u8"));
}

#[test]
fn number_boundary() {
    let out = wrap_syscall("4294967295: void f()").unwrap();
    assert!(out.contains("syscall0(4294967295)"));
    let r = wrap_syscall("4294967296: void f()");
    match r {
        Err(CompileError::Parse(e)) => assert_eq!(e.kind, ErrorKind::InvalidNumber),
        _ => panic!("number above the 32-bit range must be refused"),
    }
}
