use glprog::driver::{DriverContext, Stage};
use glprog::program::{
    check_link_status, compile, finish_log_retrieval, link_from_shaders, ProgramError,
};

// builds a program whose link fails, through the driver itself, so that
// the failed program object stays live and can be queried repeatedly
fn fail_a_link(d: &mut DriverContext) -> u32 {
    // a shader that was never compiled makes the link fail
    let stale = d.create_shader(Stage::Vertex);
    let program = d.create_program();
    d.attach_shader(program, stale);
    d.link_program(program);
    program
}

#[test]
fn link_failure_message_is_the_driver_log_verbatim() {
    let mut d = DriverContext::new();
    d.set_link_diagnostic(b"error: no vertex shader".to_vec());
    let program = fail_a_link(&mut d);
    match check_link_status(&d, program) {
        Err(ProgramError::LinkFailure(msg)) => {
            assert_eq!(msg, "error: no vertex shader");
        },
        Ok(()) => panic!("the link must have failed"),
    }
}

#[test]
fn zero_length_log_yields_empty_message() {
    // the driver's diagnostic text is left empty, so the reported log
    // length is zero; the guarded retrieval yields the empty message
    let mut d = DriverContext::new();
    let program = fail_a_link(&mut d);
    match check_link_status(&d, program) {
        Err(ProgramError::LinkFailure(msg)) => assert_eq!(msg, ""),
        Ok(()) => panic!("the link must have failed"),
    }
}

#[test]
fn invalid_utf8_log_yields_the_placeholder() {
    let mut d = DriverContext::new();
    d.set_link_diagnostic(vec![0xff, 0xfe, 0x20]);
    let program = fail_a_link(&mut d);
    match check_link_status(&d, program) {
        Err(ProgramError::LinkFailure(msg)) => {
            assert_eq!(msg, "ProgramInfoLog not valid utf8");
        },
        Ok(()) => panic!("the link must have failed"),
    }
}

#[test]
fn invalid_utf8_compile_log_yields_the_placeholder() {
    let mut d = DriverContext::new();
    d.set_compile_diagnostic(vec![0xc0, 0x80]);
    match compile(&mut d, b"", Stage::Fragment) {
        Err(e) => assert_eq!(e.log, "ProgramInfoLog not valid utf8"),
        Ok(_) => panic!("an empty source must not compile"),
    }
}

#[test]
fn finish_log_retrieval_strips_the_trailing_terminator() {
    let msg = finish_log_retrieval(12, 11, b"error: oops\0".to_vec());
    assert_eq!(msg, "error: oops");
}

#[test]
fn finish_log_retrieval_caps_at_one_less_than_the_reported_length() {
    // a driver that claims it wrote the terminator too is still capped
    let msg = finish_log_retrieval(6, 6, b"abcde\0".to_vec());
    assert_eq!(msg, "abcde");
}

#[test]
fn finish_log_retrieval_of_a_tiny_report_is_empty() {
    assert_eq!(finish_log_retrieval(0, 0, vec![]), "");
    assert_eq!(finish_log_retrieval(1, 1, vec![0u8]), "");
}

#[test]
fn finish_log_retrieval_substitutes_the_placeholder() {
    let msg = finish_log_retrieval(3, 2, vec![0xff, 0xfe, 0x00]);
    assert_eq!(msg, "ProgramInfoLog not valid utf8");
}

#[test]
fn check_link_status_is_idempotent_on_failure() {
    let mut d = DriverContext::new();
    d.set_link_diagnostic(b"error: stale attachment".to_vec());
    let program = fail_a_link(&mut d);
    let first = check_link_status(&d, program);
    let second = check_link_status(&d, program);
    assert_eq!(first, second);
}

#[test]
fn check_link_status_is_idempotent_on_success() {
    let mut d = DriverContext::new();
    let vs = compile(&mut d, b"void main(void) { }", Stage::Vertex).unwrap();
    let program = link_from_shaders(&mut d, &[vs]).unwrap();
    let first = check_link_status(&d, program);
    let second = check_link_status(&d, program);
    assert!(first.is_ok());
    assert_eq!(first, second);
}

#[test]
fn check_link_status_on_unknown_handle_fails_with_empty_message() {
    let d = DriverContext::new();
    match check_link_status(&d, 42) {
        Err(ProgramError::LinkFailure(msg)) => assert_eq!(msg, ""),
        Ok(()) => panic!("an unknown handle is not a linked program"),
    }
}
