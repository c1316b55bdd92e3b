use ngl::shader::{
    BuildPhase, ShaderBuilder, ShaderError, ShaderFiles, ShaderSource, ShaderType, GL_FRAGMENT_SHADER,
    GL_VERTEX_SHADER,
};

fn files(entries: &[(&str, &[u8])]) -> ShaderFiles {
    let mut f = ShaderFiles::new();
    for (p, b) in entries {
        f.add(p.to_string(), b.to_vec());
    }
    f
}

#[test]
fn stage_enums_match_glow() {
    assert_eq!(GL_VERTEX_SHADER, glow::VERTEX_SHADER);
    assert_eq!(GL_FRAGMENT_SHADER, glow::FRAGMENT_SHADER);
    assert_eq!(ShaderType::Vertex.to_gl(), glow::VERTEX_SHADER);
    assert_eq!(ShaderType::Fragment.to_gl(), glow::FRAGMENT_SHADER);
}

#[test]
fn preprocess_trims_lines() {
    let f = files(&[]);
    let out = ShaderSource::preprocess(&f, "  a b \n\tc\r\n\nd").unwrap();
    assert_eq!(out, "a b\nc\n\nd\n");
}

#[test]
fn preprocess_empty_text() {
    let f = files(&[]);
    assert_eq!(ShaderSource::preprocess(&f, "").unwrap(), "");
}

#[test]
fn preprocess_trims_unicode_white_space() {
    let f = files(&[]);
    let out = ShaderSource::preprocess(&f, "\u{3000}x\u{a0}\n").unwrap();
    assert_eq!(out, "x\n");
}

#[test]
fn preprocess_twice_is_preprocess_once() {
    let f = files(&[]);
    let text = " void main() {\n\t  gl_Position = vec4(0.0);\r\n}  \n\n  ";
    let once = ShaderSource::preprocess(&f, text).unwrap();
    let twice = ShaderSource::preprocess(&f, &once).unwrap();
    assert_eq!(once, twice);
}

#[test]
fn simple_directive_is_resolved() {
    let f = files(&[("glsl/a", b"#include \"b\""), ("glsl/b", b"X")]);
    let out = ShaderSource::load_file(&f, "a").unwrap();
    assert_eq!(out, "X\n\n");
    assert!(!out.contains("#include"));
}

#[test]
fn directive_in_inline_text() {
    let f = files(&[("glsl/lib.glsl", b"float f();\n")]);
    let out = ShaderSource::preprocess(&f, "  #include \"lib.glsl\"  \nvoid main() {}\n").unwrap();
    assert_eq!(out, "float f();\n\nvoid main() {}\n");
}

#[test]
fn unclosed_directive_is_syntax_error() {
    let f = files(&[("glsl/b", b"X")]);
    let r = ShaderSource::preprocess(&f, "#include \"b\n");
    assert!(matches!(r, Err(ShaderError::DirectiveSyntax)));
    let r = ShaderSource::preprocess(&f, "#include b\n");
    assert!(matches!(r, Err(ShaderError::DirectiveSyntax)));
}

#[test]
fn missing_file_is_reported_with_path() {
    let f = files(&[]);
    match ShaderSource::load_file(&f, "nope.frag") {
        Err(ShaderError::NotFound(p)) => assert_eq!(p, "glsl/nope.frag"),
        other => panic!("unexpected {:?}", other),
    }
}

#[test]
fn invalid_utf8_is_reported() {
    let f = files(&[("glsl/bad", &[0x61, 0xff, 0x62])]);
    match ShaderSource::load_file(&f, "bad") {
        Err(ShaderError::BadEncoding(p)) => assert_eq!(p, "glsl/bad"),
        other => panic!("unexpected {:?}", other),
    }
}

#[test]
fn multibyte_file_is_decoded() {
    let f = files(&[("glsl/u", "// é\n".as_bytes())]);
    assert_eq!(ShaderSource::load_file(&f, "u").unwrap(), "// é\n");
}

#[test]
fn directive_cycle_fails() {
    let f = files(&[("glsl/a", b"#include \"b\"\n"), ("glsl/b", b"#include \"a\"\n")]);
    match ShaderSource::load_file(&f, "a") {
        Err(ShaderError::NestingTooDeep(_)) => {}
        other => panic!("unexpected {:?}", other),
    }
}

#[test]
fn first_file_under_a_path_wins() {
    let f = files(&[("glsl/a", b"one"), ("glsl/a", b"two")]);
    assert_eq!(ShaderSource::load_file(&f, "a").unwrap(), "one\n");
}

#[test]
fn source_names() {
    assert_eq!(ShaderSource::Path("x.vert".to_string()).name(), "x.vert");
    assert_eq!(ShaderSource::Data("void".to_string()).name(), "DATA");
    assert_eq!(ShaderSource::Absent.name(), "NONE");
    let f = files(&[]);
    assert!(matches!(ShaderSource::Absent.to_string(&f), Err(ShaderError::NoSource)));
}

#[test]
fn prologue_has_version_first() {
    assert_eq!(
        ngl::shader::prologue_text(330),
        "#version 330\n\n#define GLSL_VERSION 330\n#define HAS_GL_ARB_shader_subroutine 1\n"
    );
}

#[test]
fn build_composes_both_stages() {
    let f = files(&[("glsl/s.frag", b"out vec4 c;\n")]);
    let b = ShaderBuilder::new(Some("Solid"))
        .vert_data("void main(){}")
        .frag_file("s.frag")
        .prepend("#define X 1\n");
    let st = b.build(&f, 460).unwrap();
    let pro = "#version 460\n\n#define GLSL_VERSION 460\n#define HAS_GL_ARB_shader_subroutine 1\n";
    assert_eq!(st.vert_source, format!("{}#define X 1\nvoid main(){{}}\n", pro));
    assert_eq!(st.frag_source, format!("{}#define X 1\nout vec4 c;\n", pro));
    assert_eq!(st.vertname, "DATA");
    assert_eq!(st.fragname, "s.frag");
}

#[test]
fn build_without_fragment_source_fails() {
    let f = files(&[]);
    let b = ShaderBuilder::new(None).vert_data("void main(){}");
    assert!(matches!(b.build(&f, 330), Err(ShaderError::NoSource)));
}

#[test]
fn vertex_compile_failure_names_vertex_stage() {
    let f = files(&[]);
    let st = ShaderBuilder::new(None)
        .vert_data("this is not glsl")
        .frag_data("void main(){}")
        .build(&f, 330)
        .unwrap();
    let phase = BuildPhase::CompileVertex.advance(&st, false);
    match &phase {
        BuildPhase::Failed(ShaderError::Compile(n)) => assert_eq!(n, "DATA"),
        other => panic!("unexpected {:?}", other),
    }
    assert!(matches!(phase.advance(&st, true), BuildPhase::Failed(_)));
}

#[test]
fn build_phases_in_order() {
    let f = files(&[]);
    let st = ShaderBuilder::new(None).vert_data("a").frag_data("b").build(&f, 330).unwrap();
    let p = BuildPhase::CompileVertex.advance(&st, true);
    assert!(matches!(p, BuildPhase::CompileFragment));
    let p = p.advance(&st, true);
    assert!(matches!(p, BuildPhase::Link));
    assert!(matches!(p.advance(&st, false), BuildPhase::Failed(ShaderError::Link)));
    let p = BuildPhase::CompileFragment.advance(&st, false);
    assert!(matches!(p, BuildPhase::Failed(ShaderError::Compile(_))));
    assert!(matches!(BuildPhase::Link.advance(&st, true), BuildPhase::Built));
}

fn chain(n: usize) -> ShaderFiles {
    let mut f = ShaderFiles::new();
    for i in 1..n {
        f.add(format!("glsl/f{}", i), format!("#include \"f{}\"\n", i + 1).into_bytes());
    }
    f.add(format!("glsl/f{}", n), b"end".to_vec());
    f
}

#[test]
fn nesting_up_to_the_limit() {
    let out = ShaderSource::load_file(&chain(ngl::shader::MAX_NESTING), "f1").unwrap();
    assert!(out.starts_with("end\n"));
    match ShaderSource::load_file(&chain(ngl::shader::MAX_NESTING + 1), "f1") {
        Err(ShaderError::NestingTooDeep(p)) => assert_eq!(p, "glsl/f17"),
        other => panic!("unexpected {:?}", other),
    }
}
