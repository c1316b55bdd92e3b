use vstd::prelude::*;

verus! {

/// One OpenGL call of a drawing plan.
#[derive(Debug, Clone, Copy, PartialEq, Eq, Structural)]
pub enum GlCommand {
    /// Fill this uniform buffer with the uniform data of the draw; the only call
    /// that can fail.
    WriteUniform(u32),
    UseProgram(u32),
    BindVertexArray(u32),
    /// Bind the uniform buffer (second) to the binding index (first).
    BindUniformBase(u32, u32),
    /// Draw a triangle strip of this many vertices, from vertex 0.
    DrawTriangleStrip(i32),
    UnbindVertexArray,
    UnbindUniform,
}

/// The long-lived objects of the context, by native handle.
#[derive(Debug, Clone, Copy)]
pub struct Context {
    pub main_thread: u64,
    pub window_width: u32,
    pub window_height: u32,
    pub program_texture: u32,
    pub buffer_texture: u32,
    pub program_solid: u32,
    pub buffer_solid: u32,
    pub vbo_square: u32,
    pub vao_square: u32,
    pub vbo_center: u32,
    pub vao_center: u32,
    pub vbo_triangle: u32,
    pub vao_triangle: u32,
    pub vao_core: u32,
}

/// What the calls of a plan leave bound.
pub struct GlBindings {
    pub program: Option<u32>,
    pub vertex_array: Option<u32>,
    pub uniform: Option<u32>,
}

pub open spec fn unbound() -> GlBindings {
    GlBindings { program: None, vertex_array: None, uniform: None }
}

pub open spec fn apply(b: GlBindings, c: GlCommand) -> GlBindings {
    match c {
        GlCommand::UseProgram(p) => GlBindings { program: Some(p), ..b },
        GlCommand::BindVertexArray(v) => GlBindings { vertex_array: Some(v), ..b },
        GlCommand::BindUniformBase(_, u) => GlBindings { uniform: Some(u), ..b },
        GlCommand::UnbindVertexArray => GlBindings { vertex_array: None, ..b },
        GlCommand::UnbindUniform => GlBindings { uniform: None, ..b },
        _ => b,
    }
}

pub open spec fn bindings_after(b: GlBindings, cmds: Seq<GlCommand>) -> GlBindings
    decreases cmds.len(),
{
    if cmds.len() == 0 {
        b
    } else {
        apply(bindings_after(b, cmds.drop_last()), cmds.last())
    }
}

pub open spec fn is_draw(c: GlCommand) -> bool {
    c is DrawTriangleStrip
}

/// The calls that draw a rectangle with the solid program: write the uniform
/// block first, so that nothing is bound when it fails, then bind, draw once,
/// and unbind.
pub open spec fn rect_plan(ctx: Context) -> Seq<GlCommand> {
    seq![
        GlCommand::WriteUniform(ctx.buffer_solid),
        GlCommand::UseProgram(ctx.program_solid),
        GlCommand::BindVertexArray(ctx.vao_square),
        GlCommand::BindUniformBase(0, ctx.buffer_solid),
        GlCommand::DrawTriangleStrip(4),
        GlCommand::UnbindVertexArray,
        GlCommand::UnbindUniform,
    ]
}

impl Context {
    pub fn is_main_thread(&self, thread: u64) -> (r: bool)
        ensures
            r == (thread == self.main_thread),
    {
        self.main_thread == thread
    }

    /// The calls that draw the unit square with the solid program and the
    /// uniform data that the caller writes.
    pub fn draw_rect_ex(&self) -> (r: Vec<GlCommand>)
        ensures
            r@ == rect_plan(*self),
    {
        let r = vec![
            GlCommand::WriteUniform(self.buffer_solid),
            GlCommand::UseProgram(self.program_solid),
            GlCommand::BindVertexArray(self.vao_square),
            GlCommand::BindUniformBase(0, self.buffer_solid),
            GlCommand::DrawTriangleStrip(4),
            GlCommand::UnbindVertexArray,
            GlCommand::UnbindUniform,
        ];
        assert(r@ =~= rect_plan(*self));
        r
    }
}

/// Drawing a rectangle makes exactly one draw call, with the solid program,
/// the square vertex array and the solid uniform buffer bound; afterwards no
/// vertex array and no uniform buffer is bound. When the uniform write, the
/// first call, fails, nothing has been bound.
pub proof fn lemma_rect_plan(ctx: Context)
    ensures
        is_draw(rect_plan(ctx)[4]),
        forall|k: int| 0 <= k < rect_plan(ctx).len() && k != 4 ==> !is_draw(#[trigger] rect_plan(ctx)[k]),
        bindings_after(unbound(), rect_plan(ctx).take(4)) == (GlBindings {
            program: Some(ctx.program_solid),
            vertex_array: Some(ctx.vao_square),
            uniform: Some(ctx.buffer_solid),
        }),
        bindings_after(unbound(), rect_plan(ctx)).vertex_array is None,
        bindings_after(unbound(), rect_plan(ctx)).uniform is None,
        bindings_after(unbound(), rect_plan(ctx).take(1)) == unbound(),
{
    let p = rect_plan(ctx);
    let b = unbound();
    assert(bindings_after(b, p.take(0)) == b);
    assert(p.take(1).drop_last() =~= p.take(0));
    assert(p.take(1).last() == p[0]);
    assert(bindings_after(b, p.take(1)) == apply(bindings_after(b, p.take(0)), p[0]));
    assert(p.take(2).drop_last() =~= p.take(1));
    assert(p.take(2).last() == p[1]);
    assert(bindings_after(b, p.take(2)) == apply(bindings_after(b, p.take(1)), p[1]));
    assert(p.take(3).drop_last() =~= p.take(2));
    assert(p.take(3).last() == p[2]);
    assert(bindings_after(b, p.take(3)) == apply(bindings_after(b, p.take(2)), p[2]));
    assert(p.take(4).drop_last() =~= p.take(3));
    assert(p.take(4).last() == p[3]);
    assert(bindings_after(b, p.take(4)) == apply(bindings_after(b, p.take(3)), p[3]));
    assert(p.take(5).drop_last() =~= p.take(4));
    assert(p.take(5).last() == p[4]);
    assert(bindings_after(b, p.take(5)) == apply(bindings_after(b, p.take(4)), p[4]));
    assert(p.take(6).drop_last() =~= p.take(5));
    assert(p.take(6).last() == p[5]);
    assert(bindings_after(b, p.take(6)) == apply(bindings_after(b, p.take(5)), p[5]));
    assert(p.take(7).drop_last() =~= p.take(6));
    assert(p.take(7).last() == p[6]);
    assert(bindings_after(b, p.take(7)) == apply(bindings_after(b, p.take(6)), p[6]));
    assert(p.take(7) =~= p);
}

} // verus!
