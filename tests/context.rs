use ngl::currency::{Binding, SafeContext};
use ngl::debug::{self, debug_callback, debug_filters};
use ngl::negotiate::{context_attempt, glsl_version, window_dimension, GlVersion};
use ngl::queue::{Message, MessageQueue};
use ngl::render::{Context, GlCommand};
use ngl::text::{decimal, trim_chars};

#[test]
fn drain_keeps_post_order() {
    let mut q = MessageQueue::new();
    q.enqueue(Message::DeleteTexture(3));
    q.enqueue(Message::DeleteBuffer(1));
    q.enqueue(Message::DeleteProgram(7));
    q.enqueue(Message::DeleteBuffer(2));
    assert_eq!(q.len(), 4);
    let out = q.drain();
    assert_eq!(
        out,
        vec![
            Message::DeleteTexture(3),
            Message::DeleteBuffer(1),
            Message::DeleteProgram(7),
            Message::DeleteBuffer(2)
        ]
    );
    assert_eq!(q.len(), 0);
    assert!(q.drain().is_empty());
}

#[test]
fn one_guard_at_a_time() {
    let mut sc = SafeContext::new(1);
    assert_eq!(sc.binding(), Binding::Uncurrent);
    let g = sc.lock(2).unwrap();
    assert_eq!(g.thread(), 2);
    assert_eq!(sc.binding(), Binding::CurrentTo(2));
    assert!(sc.lock(3).is_none());
    assert!(!sc.hand_back());
    assert!(sc.release(g));
    assert_eq!(sc.binding(), Binding::Uncurrent);
    let g = sc.lock(3).unwrap();
    assert!(sc.release(g));
    assert!(sc.hand_back());
    assert_eq!(sc.binding(), Binding::CurrentTo(1));
}

#[test]
fn negotiation_retries_once() {
    assert_eq!(context_attempt(0), Some(GlVersion { major: 4, minor: 6 }));
    assert_eq!(context_attempt(1), Some(GlVersion { major: 3, minor: 3 }));
    assert_eq!(context_attempt(2), None);
    assert_eq!(context_attempt(9), None);
}

#[test]
fn glsl_versions() {
    assert_eq!(glsl_version(GlVersion { major: 4, minor: 6 }), 460);
    assert_eq!(glsl_version(GlVersion { major: 3, minor: 3 }), 330);
    assert_eq!(glsl_version(GlVersion { major: 3, minor: 2 }), 150);
    assert_eq!(window_dimension(100, 640), 640);
    assert_eq!(window_dimension(1280, 640), 1280);
}

fn ctx() -> Context {
    Context {
        main_thread: 1,
        window_width: 800,
        window_height: 600,
        program_texture: 10,
        buffer_texture: 11,
        program_solid: 12,
        buffer_solid: 13,
        vbo_square: 14,
        vao_square: 15,
        vbo_center: 16,
        vao_center: 17,
        vbo_triangle: 18,
        vao_triangle: 19,
        vao_core: 20,
    }
}

#[test]
fn draw_rect_makes_one_draw() {
    let c = ctx();
    let plan = c.draw_rect_ex();
    assert_eq!(
        plan,
        vec![
            GlCommand::WriteUniform(13),
            GlCommand::UseProgram(12),
            GlCommand::BindVertexArray(15),
            GlCommand::BindUniformBase(0, 13),
            GlCommand::DrawTriangleStrip(4),
            GlCommand::UnbindVertexArray,
            GlCommand::UnbindUniform,
        ]
    );
    assert_eq!(plan.iter().filter(|c| matches!(c, GlCommand::DrawTriangleStrip(_))).count(), 1);
    assert!(c.is_main_thread(1));
    assert!(!c.is_main_thread(2));
}

#[test]
fn debug_enums_match_glow() {
    assert_eq!(debug::GL_DEBUG_SOURCE_API, glow::DEBUG_SOURCE_API);
    assert_eq!(debug::GL_DEBUG_SOURCE_WINDOW_SYSTEM, glow::DEBUG_SOURCE_WINDOW_SYSTEM);
    assert_eq!(debug::GL_DEBUG_SOURCE_SHADER_COMPILER, glow::DEBUG_SOURCE_SHADER_COMPILER);
    assert_eq!(debug::GL_DEBUG_SOURCE_THIRD_PARTY, glow::DEBUG_SOURCE_THIRD_PARTY);
    assert_eq!(debug::GL_DEBUG_SOURCE_APPLICATION, glow::DEBUG_SOURCE_APPLICATION);
    assert_eq!(debug::GL_DEBUG_SOURCE_OTHER, glow::DEBUG_SOURCE_OTHER);
    assert_eq!(debug::GL_DEBUG_TYPE_ERROR, glow::DEBUG_TYPE_ERROR);
    assert_eq!(debug::GL_DEBUG_TYPE_DEPRECATED_BEHAVIOR, glow::DEBUG_TYPE_DEPRECATED_BEHAVIOR);
    assert_eq!(debug::GL_DEBUG_TYPE_UNDEFINED_BEHAVIOR, glow::DEBUG_TYPE_UNDEFINED_BEHAVIOR);
    assert_eq!(debug::GL_DEBUG_TYPE_PORTABILITY, glow::DEBUG_TYPE_PORTABILITY);
    assert_eq!(debug::GL_DEBUG_TYPE_PERFORMANCE, glow::DEBUG_TYPE_PERFORMANCE);
    assert_eq!(debug::GL_DEBUG_TYPE_OTHER, glow::DEBUG_TYPE_OTHER);
    assert_eq!(debug::GL_DEBUG_TYPE_MARKER, glow::DEBUG_TYPE_MARKER);
    assert_eq!(debug::GL_DEBUG_TYPE_PUSH_GROUP, glow::DEBUG_TYPE_PUSH_GROUP);
    assert_eq!(debug::GL_DEBUG_TYPE_POP_GROUP, glow::DEBUG_TYPE_POP_GROUP);
    assert_eq!(debug::GL_DEBUG_SEVERITY_NOTIFICATION, glow::DEBUG_SEVERITY_NOTIFICATION);
    assert_eq!(debug::GL_DEBUG_SEVERITY_HIGH, glow::DEBUG_SEVERITY_HIGH);
    assert_eq!(debug::GL_DEBUG_SEVERITY_MEDIUM, glow::DEBUG_SEVERITY_MEDIUM);
    assert_eq!(debug::GL_DEBUG_SEVERITY_LOW, glow::DEBUG_SEVERITY_LOW);
    assert_eq!(debug::GL_DONT_CARE, glow::DONT_CARE);
}

#[test]
fn debug_report_text() {
    let r = debug_callback(
        glow::DEBUG_SOURCE_API,
        glow::DEBUG_TYPE_PERFORMANCE,
        131218,
        glow::DEBUG_SEVERITY_MEDIUM,
        "slow",
    );
    assert!(!r.quiet);
    assert_eq!(
        r.text,
        "OpenGL debug( source=api, type=performance, id=131218, severity=medium ): slow"
    );
    let r = debug_callback(7, 8, 0, glow::DEBUG_SEVERITY_LOW, "");
    assert!(r.quiet);
    assert_eq!(r.text, "OpenGL debug( source=7, type=8, id=0, severity=low ): ");
}

#[test]
fn debug_filters_list() {
    let f = debug_filters();
    assert_eq!(f.len(), 5);
    assert_eq!(f[0].msg_type, glow::DEBUG_TYPE_PUSH_GROUP);
    assert_eq!(f[3].severity, glow::DEBUG_SEVERITY_NOTIFICATION);
    assert_eq!(f[4].ids, vec![131218]);
    assert!(f[..4].iter().all(|x| x.ids.is_empty()));
}

#[test]
fn decimal_numerals() {
    assert_eq!(decimal(0), "0");
    assert_eq!(decimal(7), "7");
    assert_eq!(decimal(150), "150");
    assert_eq!(decimal(u32::MAX), "4294967295");
}

#[test]
fn trim_of_chars() {
    let v: Vec<char> = " \t ab c\r\n".chars().collect();
    assert_eq!(trim_chars(&v), vec!['a', 'b', ' ', 'c']);
    assert_eq!(trim_chars(&vec![' ', '\u{2003}']), Vec::<char>::new());
}

