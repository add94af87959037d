use alacritty::shader::{
    assemble_expanded, cursor_upload_count, expand_includes_with, include_plan, include_target,
    preprocess_shader, source_lines, CustomShaderPipeline, CustomShaderProgram, FboAllocation,
    FboRequest, GlObject, PingPongAllocation, ShaderPass, FRAGMENT_HEADER, FRAGMENT_MAIN_WRAPPER,
    MAX_INCLUDE_DEPTH,
};

fn program(id: u32) -> CustomShaderProgram {
    CustomShaderProgram {
        program: id,
        u_channel0: 0,
        u_resolution: 1,
        u_time: 2,
        u_time_cursor_change: 3,
        u_current_cursor: 4,
        u_previous_cursor: 5,
        u_current_cursor_color: 6,
        u_cursor_visible: 7,
        u_cell_size: 8,
        u_cursors: 9,
        u_prev_cursors: 10,
        u_cursor_types: 11,
        u_cursor_count: 12,
        u_prev_cursor_count: 13,
        u_time_mode_change: 14,
        u_mouse_pos: 15,
    }
}

#[test]
fn standalone_shader_is_kept() {
    let source = "\u{feff}  \n#version 330 core\nvoid main() {}\n";
    assert_eq!(preprocess_shader(source), source);
}

#[test]
fn shadertoy_shader_is_wrapped() {
    let source = "void mainImage(out vec4 c, in vec2 p) { c = vec4(1.0); }\n";
    let expected = format!("{FRAGMENT_HEADER}{source}{FRAGMENT_MAIN_WRAPPER}");
    let processed = preprocess_shader(source);
    assert_eq!(processed, expected);
    // Preprocessing again changes nothing.
    assert_eq!(preprocess_shader(&processed), processed);
}

#[test]
fn version_must_lead() {
    let source = "// #version 330\n";
    assert!(preprocess_shader(source).starts_with("#version 330 core"));
    assert!(preprocess_shader(source).ends_with(FRAGMENT_MAIN_WRAPPER));
}

#[test]
fn include_directives() {
    assert_eq!(include_target("#pragma include \"common.glsl\""), Some("common.glsl".to_string()));
    assert_eq!(include_target("   #pragma include   \"a b.glsl\"  \t"), Some("a b.glsl".to_string()));
    assert_eq!(include_target("#pragma include \"\""), Some(String::new()));
    assert_eq!(include_target("#pragma include \""), None);
    assert_eq!(include_target("#pragma include common.glsl"), None);
    assert_eq!(include_target("#pragma once"), None);
    assert_eq!(include_target("// #pragma include \"x\""), None);
}

#[test]
fn lines_and_assembly() {
    let source = "a\r\n#pragma include \"x\"\n\nb";
    let lines = source_lines(source);
    assert_eq!(lines, vec!["a", "#pragma include \"x\"", "", "b"]);
    let expansions = vec![None, Some("included".to_string()), None, None];
    assert_eq!(assemble_expanded(&lines, &expansions), "a\nincluded\n\nb\n");

    assert!(source_lines("").is_empty());
    assert_eq!(source_lines("one\n"), vec!["one"]);
    assert_eq!(source_lines("\n"), vec![""]);
    assert_eq!(source_lines("x\r"), vec!["x\r"]);
}

#[test]
fn upload_count() {
    assert_eq!(cursor_upload_count(3, 5), 5);
    assert_eq!(cursor_upload_count(100, 5), 64);
    assert_eq!(cursor_upload_count(0, 0), 0);
}

#[test]
fn pipeline_needs_programs() {
    assert!(CustomShaderPipeline::new(Vec::new(), 1, 2).is_none());
    let pipeline = CustomShaderPipeline::new(vec![program(7)], 1, 2).unwrap();
    assert_eq!(pipeline.shader_count(), 1);
    assert_eq!(pipeline.program(0).program, 7);
    assert_eq!(pipeline.vao(), 1);
    assert_eq!(pipeline.vertex_shader(), 2);
    assert!(!pipeline.has_fbo());
    assert!(!pipeline.needs_ping_pong());
}

#[test]
fn fbo_lifecycle() {
    let mut pipeline = CustomShaderPipeline::new(vec![program(7), program(8)], 1, 2).unwrap();
    assert!(pipeline.needs_ping_pong());
    assert!(!pipeline.fbo_matches(100, 50));
    pipeline.attach_fbo(11, 12);
    assert!(pipeline.has_fbo());
    pipeline.attach_ping_pong([21, 22], [31, 32]);
    pipeline.set_fbo_size(100, 50);
    assert!(pipeline.fbo_matches(100, 50));
    assert!(!pipeline.fbo_matches(100, 51));

    let released = pipeline.delete_fbo();
    assert_eq!(
        released,
        vec![
            GlObject::Framebuffer(11),
            GlObject::Texture(12),
            GlObject::Framebuffer(21),
            GlObject::Framebuffer(22),
            GlObject::Texture(31),
            GlObject::Texture(32),
        ]
    );
    assert!(!pipeline.has_fbo());
    assert_eq!(pipeline.fbo(), 0);
    assert_eq!(pipeline.fbo_texture(), 0);
    assert_eq!(pipeline.ping_fbos(), [0, 0]);
    assert_eq!(pipeline.ping_textures(), [0, 0]);
    assert!(pipeline.delete_fbo().is_empty());
}

#[test]
fn ping_pong_release_skips_unallocated() {
    let mut pipeline = CustomShaderPipeline::new(vec![program(7), program(8)], 1, 2).unwrap();
    pipeline.attach_ping_pong([21, 0], [0, 32]);
    assert_eq!(pipeline.delete_ping_pong(), vec![GlObject::Framebuffer(21), GlObject::Texture(32)]);
}

#[test]
fn single_pass_reads_scene() {
    let mut pipeline = CustomShaderPipeline::new(vec![program(7)], 1, 2).unwrap();
    pipeline.attach_fbo(11, 12);
    assert_eq!(
        pipeline.draw_passes(),
        vec![ShaderPass { program: 0, input_texture: 12, input_unit: 1, target: None }]
    );
}

#[test]
fn chain_ping_pongs() {
    let programs = vec![program(7), program(8), program(9), program(10)];
    let mut pipeline = CustomShaderPipeline::new(programs, 1, 2).unwrap();
    pipeline.attach_fbo(11, 12);
    pipeline.attach_ping_pong([21, 22], [31, 32]);
    assert_eq!(
        pipeline.draw_passes(),
        vec![
            ShaderPass { program: 0, input_texture: 12, input_unit: 1, target: Some(21) },
            ShaderPass { program: 1, input_texture: 31, input_unit: 2, target: Some(22) },
            ShaderPass { program: 2, input_texture: 32, input_unit: 3, target: Some(21) },
            ShaderPass { program: 3, input_texture: 31, input_unit: 2, target: Some(0) },
        ]
    );
}

#[test]
fn include_plan_names_include_lines() {
    let source = "a\n#pragma include \"x.glsl\"\n  #pragma include  \"y\"  \nb";
    let plan = include_plan(source, 0).unwrap();
    assert_eq!(plan, vec![None, Some("x.glsl".to_string()), Some("y".to_string()), None]);
    assert!(include_plan(source, MAX_INCLUDE_DEPTH).is_some());
    assert!(include_plan(source, MAX_INCLUDE_DEPTH + 1).is_none());
}

#[test]
fn expand_includes_with_replaces_only_read_includes() {
    let source = "a\n#pragma include \"x\"\n#pragma include \"y\"\nb";
    let expansions = vec![
        Some("ignored".to_string()),
        Some("X1\nX2\n".to_string()),
        None,
        None,
    ];
    assert_eq!(
        expand_includes_with(source, 0, &expansions),
        "a\nX1\nX2\n\n#pragma include \"y\"\nb\n"
    );
    // Too deep: the source stays as it is.
    assert_eq!(expand_includes_with(source, MAX_INCLUDE_DEPTH + 1, &expansions), source);
    // No expansions at all: every line kept, each ending with a line feed.
    assert_eq!(expand_includes_with("p\r\nq", 0, &[]), "p\nq\n");
}

#[test]
fn building_a_built_shader_changes_nothing() {
    let source = "void mainImage(out vec4 c, in vec2 p) { c = vec4(1.0); }";
    let built = preprocess_shader(&expand_includes_with(source, 0, &[]));
    let again = preprocess_shader(&expand_includes_with(&built, 0, &[]));
    assert_eq!(again, built);
}

#[test]
fn ensure_fbo_sequence() {
    let mut pipeline = CustomShaderPipeline::new(vec![program(7), program(8)], 1, 2).unwrap();
    let release = match pipeline.begin_ensure_fbo(800, 600) {
        FboRequest::Allocate { release, ping_pong } => {
            assert!(ping_pong);
            release
        },
        FboRequest::Ready => panic!("nothing allocated yet"),
    };
    assert!(release.is_empty());
    let ping = PingPongAllocation { fbos: [21, 22], textures: [23, 24], complete: true };
    let alloc = FboAllocation { fbo: 11, texture: 12, complete: true, ping_pong: Some(ping) };
    let (ok, released) = pipeline.finish_ensure_fbo(800, 600, alloc);
    assert!(ok && released.is_empty());
    assert!(pipeline.fbo_matches(800, 600));
    assert!(matches!(pipeline.begin_ensure_fbo(800, 600), FboRequest::Ready));

    // A new size: everything is released, and a failing ping-pong buffer
    // releases what was created.
    let release = match pipeline.begin_ensure_fbo(1024, 768) {
        FboRequest::Allocate { release, .. } => release,
        FboRequest::Ready => panic!("size changed"),
    };
    assert_eq!(
        release,
        vec![
            GlObject::Framebuffer(11),
            GlObject::Texture(12),
            GlObject::Framebuffer(21),
            GlObject::Framebuffer(22),
            GlObject::Texture(23),
            GlObject::Texture(24),
        ]
    );
    let ping = PingPongAllocation { fbos: [31, 32], textures: [33, 34], complete: false };
    let alloc = FboAllocation { fbo: 13, texture: 14, complete: true, ping_pong: Some(ping) };
    let (ok, released) = pipeline.finish_ensure_fbo(1024, 768, alloc);
    assert!(!ok);
    assert_eq!(
        released,
        vec![
            GlObject::Framebuffer(31),
            GlObject::Framebuffer(32),
            GlObject::Texture(33),
            GlObject::Texture(34),
            GlObject::Framebuffer(13),
            GlObject::Texture(14),
        ]
    );
    assert!(!pipeline.has_fbo());
}

#[test]
fn ensure_fbo_incomplete_scene() {
    let mut pipeline = CustomShaderPipeline::new(vec![program(7)], 1, 2).unwrap();
    let _ = pipeline.begin_ensure_fbo(10, 10);
    let alloc = FboAllocation { fbo: 5, texture: 6, complete: false, ping_pong: None };
    let (ok, released) = pipeline.finish_ensure_fbo(10, 10, alloc);
    assert!(!ok);
    assert_eq!(released, vec![GlObject::Framebuffer(5), GlObject::Texture(6)]);
    assert!(!pipeline.has_fbo());
}

#[test]
fn stale_fbo_is_released_without_effects() {
    let mut pipeline = CustomShaderPipeline::new(vec![program(7)], 1, 2).unwrap();
    assert!(pipeline.release_when_idle(false).is_empty());
    let _ = pipeline.begin_ensure_fbo(10, 10);
    let alloc = FboAllocation { fbo: 5, texture: 6, complete: true, ping_pong: None };
    assert!(pipeline.finish_ensure_fbo(10, 10, alloc).0);
    assert!(pipeline.has_fbo());
    // While effects run, the framebuffer stays.
    assert!(pipeline.release_when_idle(true).is_empty());
    assert!(pipeline.has_fbo());
    assert_eq!(pipeline.release_when_idle(false), vec![GlObject::Framebuffer(5), GlObject::Texture(6)]);
    assert!(!pipeline.has_fbo());
}
