use mide_core::{
    code_format_result, code_invocation, file_format_result, file_invocation,
    formatter_for_language, formatter_for_path, get_ext_for_parser, path_extension,
    prettier_parser, Formatter, ProcessOutput,
};

#[test]
fn languages_route_to_formatters() {
    assert_eq!(formatter_for_language("typescript"), Some(Formatter::Prettier));
    assert_eq!(formatter_for_language("css"), Some(Formatter::Prettier));
    assert_eq!(formatter_for_language("rust"), Some(Formatter::Rustfmt));
    assert_eq!(formatter_for_language("python"), Some(Formatter::Black));
    assert_eq!(formatter_for_language("go"), Some(Formatter::Gofmt));
    assert_eq!(formatter_for_language("cobol"), None);
}

#[test]
fn parsers_and_extensions() {
    assert_eq!(prettier_parser("javascript"), "babel");
    assert_eq!(prettier_parser("json"), "json");
    assert_eq!(prettier_parser("markdown"), "babel");
    assert_eq!(get_ext_for_parser("babel"), "js");
    assert_eq!(get_ext_for_parser("typescript"), "ts");
    assert_eq!(get_ext_for_parser("html"), "html");
    assert_eq!(get_ext_for_parser("yaml"), "txt");
}

#[test]
fn file_paths_route_by_extension() {
    assert_eq!(path_extension("src/app.test.tsx"), "tsx");
    assert_eq!(path_extension("Makefile"), "Makefile");
    assert_eq!(formatter_for_path("a/b.vue"), Ok(Formatter::Prettier));
    assert_eq!(formatter_for_path("main.rs"), Ok(Formatter::Rustfmt));
    assert_eq!(formatter_for_path("x.py"), Ok(Formatter::Black));
    assert_eq!(formatter_for_path("x.go"), Ok(Formatter::Gofmt));
    assert_eq!(formatter_for_path("notes.txt"), Err("No formatter available for .txt".to_string()));
}

#[test]
fn invocations() {
    let inv = code_invocation(Formatter::Prettier, "typescript");
    assert_eq!(inv.program, "npx");
    assert_eq!(inv.args, vec!["prettier", "--parser", "typescript", "--stdin-filepath", "file.ts", "--"]);
    let inv = code_invocation(Formatter::Rustfmt, "rust");
    assert_eq!(inv.program, "rustfmt");
    assert_eq!(inv.args, vec!["--emit", "stdout"]);
    assert_eq!(code_invocation(Formatter::Black, "python").args, vec!["-", "--quiet"]);
    assert!(code_invocation(Formatter::Gofmt, "go").args.is_empty());
    assert_eq!(file_invocation(Formatter::Prettier, "a.js").args, vec!["prettier", "--write", "a.js"]);
    assert_eq!(file_invocation(Formatter::Gofmt, "a.go").args, vec!["-w", "a.go"]);
    assert_eq!(file_invocation(Formatter::Black, "a.py").args, vec!["a.py"]);
}

#[test]
fn format_results() {
    let ok = ProcessOutput { success: true, stdout: b"fn main() {}\n".to_vec(), stderr: Vec::new() };
    assert_eq!(code_format_result(Formatter::Rustfmt, Ok(ok.clone())), Ok("fn main() {}\n".to_string()));
    assert_eq!(file_format_result(Formatter::Rustfmt, Ok(ok)), Ok("File formatted successfully".to_string()));
    let bad = ProcessOutput { success: false, stdout: Vec::new(), stderr: b"syntax error".to_vec() };
    assert_eq!(code_format_result(Formatter::Black, Ok(bad.clone())), Err("syntax error".to_string()));
    assert_eq!(file_format_result(Formatter::Black, Ok(bad)), Err("syntax error".to_string()));
    assert_eq!(
        code_format_result(Formatter::Prettier, Err("not found".to_string())),
        Err("Prettier not found: not found. Install with: npm install -g prettier".to_string())
    );
    assert_eq!(
        code_format_result(Formatter::Gofmt, Err("x".to_string())),
        Err("gofmt not found: x".to_string())
    );
    assert_eq!(
        file_format_result(Formatter::Rustfmt, Err("x".to_string())),
        Err("rustfmt not found: x".to_string())
    );
}
