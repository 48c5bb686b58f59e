use glprog::driver::{DriverContext, Stage};
use glprog::program::{build_program, check_link_status, compile, link_from_shaders, CompileError};

#[test]
fn compile_and_link_succeed_and_release_handles() {
    let mut d = DriverContext::new();
    let vs = compile(&mut d, b"void main(void) { }", Stage::Vertex).unwrap();
    let fs = compile(&mut d, b"void main(void) { }", Stage::Fragment).unwrap();
    assert!(d.shader_is_live(vs));
    assert!(d.shader_is_live(fs));
    let program = link_from_shaders(&mut d, &[vs, fs]).unwrap();
    assert!(d.program_is_live(program));
    assert!(check_link_status(&d, program).is_ok());
    // both shader handles were consumed by the successful link
    assert!(!d.shader_is_live(vs));
    assert!(!d.shader_is_live(fs));
}

#[test]
fn link_failure_releases_shader_handles_and_program() {
    let mut d = DriverContext::new();
    d.set_link_diagnostic(b"link failed".to_vec());
    let vs = compile(&mut d, b"void main(void) { }", Stage::Vertex).unwrap();
    // a shader that was never compiled makes the link fail
    let stale = d.create_shader(Stage::Fragment);
    let r = link_from_shaders(&mut d, &[vs, stale]);
    assert!(r.is_err());
    // the corrected pipeline releases every handle of the build on failure too
    assert!(!d.shader_is_live(vs));
    assert!(!d.shader_is_live(stale));
    assert!(!d.program_is_live(1));
}

#[test]
fn compile_failure_reports_stage_and_driver_log() {
    let mut d = DriverContext::new();
    d.set_compile_diagnostic(b"error: empty shader source".to_vec());
    let r = compile(&mut d, b"", Stage::Vertex);
    match r {
        Err(CompileError { stage, log }) => {
            assert_eq!(stage, Stage::Vertex);
            assert_eq!(log, "error: empty shader source");
        },
        Ok(_) => panic!("an empty source must not compile"),
    }
    // the transient shader object was released
    assert!(!d.shader_is_live(1));
}

#[test]
fn build_program_links_both_stages() {
    let mut d = DriverContext::new();
    let program = build_program(&mut d, b"void main(void) { }", b"uniform vec4 tint ; void main(void) { }")
        .unwrap();
    assert!(check_link_status(&d, program).is_ok());
    assert!(!d.shader_is_live(1));
    assert!(!d.shader_is_live(2));
}

#[test]
fn build_program_releases_handles_on_fragment_failure() {
    let mut d = DriverContext::new();
    let r = build_program(&mut d, b"void main(void) { }", b"");
    match r {
        Err(e) => assert_eq!(e.stage, Stage::Fragment),
        Ok(_) => panic!("an empty fragment source must not compile"),
    }
    // the already-compiled vertex shader was released on the error path
    assert!(!d.shader_is_live(1));
    assert!(!d.shader_is_live(2));
}

#[test]
fn linking_no_shaders_yields_an_empty_linked_program() {
    let mut d = DriverContext::new();
    let program = link_from_shaders(&mut d, &[]).unwrap();
    assert!(check_link_status(&d, program).is_ok());
}

#[test]
fn attach_order_is_preserved_but_either_order_links() {
    let mut d = DriverContext::new();
    let vs = compile(&mut d, b"void main(void) { }", Stage::Vertex).unwrap();
    let fs = compile(&mut d, b"void main(void) { }", Stage::Fragment).unwrap();
    let program = link_from_shaders(&mut d, &[fs, vs]).unwrap();
    assert!(check_link_status(&d, program).is_ok());
}
