use glprog::driver::{DriverContext, Stage};
use glprog::program::{
    check_link_status, classify_uniform_location, compile, get_uniform_location,
    link_from_shaders, UniformError,
};

// the fullscreen triangle-strip vertex source of the texture viewer
const VS_SRC: &str = "#version 330 core\n\
\n\
void main(void)\n\
{\n\
    const vec4 vertices[] = vec4[](vec4(-1.0, -1.0, 0.5, 1.0),\n\
                                   vec4( 1.0, -1.0, 0.5, 1.0),\n\
                                   vec4(-1.0,  1.0, 0.5, 1.0),\n\
                                   vec4( 1.0,  1.0, 0.5, 1.0));\n\
\n\
    gl_Position = vertices[gl_VertexID];\n\
}\n";

// the fragment source sampling the bound 2-D texture uniform `s`
const FS_SRC: &str = "#version 330 core\n\
\n\
uniform sampler2D s;\n\
out vec4 color;\n\
\n\
void main(void)\n\
{\n\
    color = texture(s, gl_FragCoord.xy / textureSize(s, 0));\n\
}\n";

#[test]
fn texture_viewer_sources_end_to_end() {
    let mut d = DriverContext::new();
    let vs = compile(&mut d, VS_SRC.as_bytes(), Stage::Vertex).unwrap();
    let fs = compile(&mut d, FS_SRC.as_bytes(), Stage::Fragment).unwrap();
    let program = link_from_shaders(&mut d, &[vs, fs]).unwrap();
    assert!(check_link_status(&d, program).is_ok());
    let loc = get_uniform_location(&d, program, b"s").unwrap();
    assert!(loc >= 0);
    match get_uniform_location(&d, program, b"doesNotExist") {
        Err(UniformError::NotFound(p, name, raw)) => {
            assert_eq!(p, program);
            assert_eq!(name, b"doesNotExist".to_vec());
            assert!(raw < 0);
        },
        Ok(_) => panic!("an undeclared uniform must not resolve"),
    }
}

#[test]
fn undeclared_uniform_preserves_raw_code_and_name() {
    let mut d = DriverContext::new();
    let vs = compile(&mut d, b"void main(void) { }", Stage::Vertex).unwrap();
    let fs = compile(&mut d, b"uniform vec4 tint ; void main(void) { }", Stage::Fragment)
        .unwrap();
    let program = link_from_shaders(&mut d, &[vs, fs]).unwrap();
    match get_uniform_location(&d, program, b"mismatched") {
        Err(UniformError::NotFound(p, name, raw)) => {
            assert_eq!(p, program);
            assert_eq!(name, b"mismatched".to_vec());
            assert_eq!(raw, -1);
        },
        Ok(_) => panic!("a uniform that no source declares must not resolve"),
    }
}

#[test]
fn uniform_locations_follow_declaration_order() {
    let mut d = DriverContext::new();
    let fs = compile(
        &mut d,
        b"uniform vec4 first ;\nuniform mat4 second ;\nvoid main(void) { }",
        Stage::Fragment,
    )
    .unwrap();
    let program = link_from_shaders(&mut d, &[fs]).unwrap();
    assert_eq!(get_uniform_location(&d, program, b"first"), Ok(0));
    assert_eq!(get_uniform_location(&d, program, b"second"), Ok(1));
}

#[test]
fn shared_uniform_resolves_to_its_first_declaration() {
    let mut d = DriverContext::new();
    let vs = compile(&mut d, b"uniform mat4 mvp ;\nvoid main(void) { }", Stage::Vertex).unwrap();
    let fs = compile(
        &mut d,
        b"uniform vec4 tint ;\nuniform mat4 mvp ;\nvoid main(void) { }",
        Stage::Fragment,
    )
    .unwrap();
    let program = link_from_shaders(&mut d, &[vs, fs]).unwrap();
    // the vertex source is attached first, so its declaration comes first
    assert_eq!(get_uniform_location(&d, program, b"mvp"), Ok(0));
    assert_eq!(get_uniform_location(&d, program, b"tint"), Ok(1));
}

#[test]
fn classify_uniform_location_splits_on_the_sign() {
    assert_eq!(classify_uniform_location(7, b"s".to_vec(), 3), Ok(3));
    assert_eq!(
        classify_uniform_location(7, b"s".to_vec(), -2),
        Err(UniformError::NotFound(7, b"s".to_vec(), -2))
    );
}

#[test]
fn lookup_on_an_unlinked_or_unknown_program_never_panics() {
    let mut d = DriverContext::new();
    let building = d.create_program();
    match get_uniform_location(&d, building, b"s") {
        Err(UniformError::NotFound(p, _, raw)) => {
            assert_eq!(p, building);
            assert!(raw < 0);
        },
        Ok(_) => panic!("a program that was never linked has no uniforms"),
    }
    assert!(get_uniform_location(&d, 999, b"s").is_err());
}
