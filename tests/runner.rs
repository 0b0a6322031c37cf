use mide_core::{collect_output, collecting_result, ProcessOutput};

#[test]
fn collecting_success_returns_stdout_only() {
    let out = ProcessOutput { success: true, stdout: b"ok\n".to_vec(), stderr: b"warn\n".to_vec() };
    assert_eq!(collect_output(&out), Ok("ok\n".to_string()));
}

#[test]
fn collecting_failure_returns_stderr_only() {
    let out = ProcessOutput { success: false, stdout: b"partial".to_vec(), stderr: b"bad".to_vec() };
    assert_eq!(collect_output(&out), Err("bad".to_string()));
}

#[test]
fn collecting_missing_binary_is_failure_branch() {
    let r = collecting_result(Err("No such file or directory (os error 2)".to_string()));
    assert_eq!(r, Err("No such file or directory (os error 2)".to_string()));
}

#[test]
fn collecting_decodes_lossily() {
    let out = ProcessOutput { success: true, stdout: vec![0x68, 0xc3, 0x28], stderr: Vec::new() };
    assert_eq!(collecting_result(Ok(out)), Ok("h\u{FFFD}(".to_string()));
}
