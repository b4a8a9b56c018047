use vstd::prelude::*;

use crate::circle::{Circle, Rgba};
use crate::linear_samplers::{
    check_ok, eval_node, lemma_ok1_mono_holder, ok1, Ctx, Movesampler1D, Node1, SamplerData,
};
use crate::movement::{eval2, ok2, Movesampler2D, Node2};
use crate::scalar::{Scalar, ScalarArith};
use crate::variable_holder::{lemma_grew_refl, lemma_grew_trans};

verus! {

// ---------------------------------------------------------------------------
// What a frame hands to the renderer.
// ---------------------------------------------------------------------------

/// The resolved payload of a shape: every parameter a plain value, ready for
/// a rasterizer. Producing it is the library's job; rasterizing it is the
/// embedding program's.
pub enum ShapeCmd {
    Circle { radius: Scalar, inner_color: Rgba, outer_color: Rgba },
    Rect {
        width: Scalar,
        height: Scalar,
        color_tl: Rgba,
        color_tr: Rgba,
        color_bl: Rgba,
        color_br: Rgba,
    },
    Nothing,
}

/// One draw order: a window-relative pixel position and a resolved payload.
pub struct DrawCmd {
    pub x: i32,
    pub y: i32,
    pub shape: ShapeCmd,
}

// ---------------------------------------------------------------------------
// The spec-level shape and its evaluator.
// ---------------------------------------------------------------------------

/// Spec-level image of a drawable payload.
pub enum RawModel {
    Circle { radius: Scalar, inner_color: Rgba, outer_color: Rgba },
    Rect {
        width: Node1,
        height: Node1,
        color_tl: Rgba,
        color_tr: Rgba,
        color_bl: Rgba,
        color_br: Rgba,
    },
    NoDraw,
}

/// Spec-level image of a shape.
pub struct ShapeModel {
    pub enabled: Node1,
    pub movement: Seq<Node2>,
    pub shape: RawModel,
}

/// Fitness of a payload: fitness of any embedded scalar samplers.
pub open spec fn ok_raw(n: RawModel, nbuttons: int, nvars: int) -> bool {
    match n {
        RawModel::Rect { width, height, .. } => ok1(width, nbuttons, nvars) && ok1(
            height,
            nbuttons,
            nvars,
        ),
        _ => true,
    }
}

/// Fitness of every vector node of a list.
pub open spec fn ok2_list(ms: Seq<Node2>, nbuttons: int, nvars: int) -> bool {
    forall|i: int| 0 <= i < ms.len() ==> #[trigger] ok2(ms[i], nbuttons, nvars)
}

/// Fitness of a whole shape.
pub open spec fn shape_ok(s: ShapeModel, nbuttons: int, nvars: int) -> bool {
    &&& ok1(s.enabled, nbuttons, nvars)
    &&& ok2_list(s.movement, nbuttons, nvars)
    &&& ok_raw(s.shape, nbuttons, nvars)
}

/// What evaluating a movement list yields.
pub struct OutMove {
    pub nodes: Seq<Node2>,
    pub names: Seq<Seq<char>>,
    pub values: Seq<Scalar>,
    pub x: Scalar,
    pub y: Scalar,
}

/// The meaning of the movement fold: each vector node sampled left to
/// right, its pair added onto the running offset, starting from the
/// accumulators given.
pub open spec fn eval_movement<A: ScalarArith>(
    ms: Seq<Node2>,
    c: Ctx<A>,
    ax: Scalar,
    ay: Scalar,
) -> OutMove
    decreases ms.len(),
{
    if ms.len() == 0 {
        OutMove { nodes: Seq::empty(), names: c.names, values: c.values, x: ax, y: ay }
    } else {
        let o = eval2(ms[0], c);
        let rest = eval_movement(
            ms.drop_first(),
            Ctx { names: o.names, values: o.values, ..c },
            c.arith.add_spec(ax, o.x),
            c.arith.add_spec(ay, o.y),
        );
        OutMove {
            nodes: seq![o.node] + rest.nodes,
            names: rest.names,
            values: rest.values,
            x: rest.x,
            y: rest.y,
        }
    }
}

/// What resolving a payload yields.
pub struct OutRaw {
    pub node: RawModel,
    pub names: Seq<Seq<char>>,
    pub values: Seq<Scalar>,
    pub cmd: ShapeCmd,
}

/// The meaning of resolving a payload at draw time: a rectangle samples its
/// width and then its height, once each; the other payloads sample nothing.
pub open spec fn eval_raw<A: ScalarArith>(n: RawModel, c: Ctx<A>) -> OutRaw {
    match n {
        RawModel::Circle { radius, inner_color, outer_color } => OutRaw {
            node: n,
            names: c.names,
            values: c.values,
            cmd: ShapeCmd::Circle { radius, inner_color, outer_color },
        },
        RawModel::Rect { width, height, color_tl, color_tr, color_bl, color_br } => {
            let ow = eval_node(width, c);
            let oh = eval_node(height, Ctx { names: ow.names, values: ow.values, ..c });
            OutRaw {
                node: RawModel::Rect {
                    width: ow.node,
                    height: oh.node,
                    color_tl,
                    color_tr,
                    color_bl,
                    color_br,
                },
                names: oh.names,
                values: oh.values,
                cmd: ShapeCmd::Rect {
                    width: ow.val,
                    height: oh.val,
                    color_tl,
                    color_tr,
                    color_bl,
                    color_br,
                },
            }
        },
        RawModel::NoDraw => OutRaw {
            node: n,
            names: c.names,
            values: c.values,
            cmd: ShapeCmd::Nothing,
        },
    }
}

/// What drawing a shape yields.
pub struct OutDraw {
    pub shape: ShapeModel,
    pub names: Seq<Seq<char>>,
    pub values: Seq<Scalar>,
    pub cmd: DrawCmd,
}

/// The meaning of drawing a shape: fold-sum the movement list from (0, 0),
/// truncate each axis to a pixel delta, add the window-relative origin with
/// wrapping machine arithmetic, and resolve the payload at that position.
pub open spec fn eval_draw<A: ScalarArith>(s: ShapeModel, c: Ctx<A>, win: (i32, i32)) -> OutDraw {
    let om = eval_movement(s.movement, c, Scalar::zero_spec(), Scalar::zero_spec());
    let px = c.arith.to_i32_spec(om.x).wrapping_add(win.0);
    let py = c.arith.to_i32_spec(om.y).wrapping_add(win.1);
    let oraw = eval_raw(s.shape, Ctx { names: om.names, values: om.values, ..c });
    OutDraw {
        shape: ShapeModel { enabled: s.enabled, movement: om.nodes, shape: oraw.node },
        names: oraw.names,
        values: oraw.values,
        cmd: DrawCmd { x: px, y: py, shape: oraw.cmd },
    }
}

/// What one frame of a shape yields.
pub struct OutFrame {
    pub shape: ShapeModel,
    pub names: Seq<Seq<char>>,
    pub values: Seq<Scalar>,
    pub cmd: Option<DrawCmd>,
}

/// The meaning of one frame: sample the enable node; when its value
/// reaches one, draw;
/// otherwise skip the shape entirely — the movement list and the payload,
/// side effects included, are not evaluated that frame and keep their state.
pub open spec fn eval_frame<A: ScalarArith>(s: ShapeModel, c: Ctx<A>, win: (i32, i32)) -> OutFrame {
    let og = eval_node(s.enabled, c);
    if c.arith.ge_spec(og.val, c.arith.one_spec()) {
        let od = eval_draw(
            ShapeModel { enabled: og.node, movement: s.movement, shape: s.shape },
            Ctx { names: og.names, values: og.values, ..c },
            win,
        );
        OutFrame { shape: od.shape, names: od.names, values: od.values, cmd: Some(od.cmd) }
    } else {
        OutFrame {
            shape: ShapeModel { enabled: og.node, movement: s.movement, shape: s.shape },
            names: og.names,
            values: og.values,
            cmd: None,
        }
    }
}

/// An enable value below one short-circuits the whole frame: only the
/// enable node itself advances; the movement list and the payload stay
/// exactly as they were, and nothing is drawn.
pub proof fn lemma_disabled_shape_skips_movement<A: ScalarArith>(s: ShapeModel, c: Ctx<A>, win: (i32, i32))
    requires
        !c.arith.ge_spec(eval_node(s.enabled, c).val, c.arith.one_spec()),
    ensures
        eval_frame(s, c, win).shape.movement == s.movement,
        eval_frame(s, c, win).shape.shape == s.shape,
        eval_frame(s, c, win).cmd is None,
        eval_frame(s, c, win).names == eval_node(s.enabled, c).names,
        eval_frame(s, c, win).values == eval_node(s.enabled, c).values,
{
}

// ---------------------------------------------------------------------------
// The exec shapes.
// ---------------------------------------------------------------------------

/// A payload that draws nothing.
pub struct NoDraw;

/// A rectangle with per-corner colors whose width and height are sampled at
/// every draw.
pub struct Rect {
    pub width: Movesampler1D,
    pub height: Movesampler1D,
    pub color_tl: Rgba,
    pub color_tr: Rgba,
    pub color_bl: Rgba,
    pub color_br: Rgba,
}

/// A drawable payload.
pub enum ShapeRaw {
    Circle(Circle),
    Rect(Rect),
    NoDraw(NoDraw),
}

/// A renderable entity: an enabling scalar sampler, a movement list whose sum positions
/// it, and a drawable payload.
pub struct Shape {
    pub enabled: Movesampler1D,
    pub movement: Vec<Movesampler2D>,
    pub shape: ShapeRaw,
}

impl NoDraw {
    pub fn draw<A: ScalarArith>(&mut self, data: &mut SamplerData<A>, pos: (i32, i32)) -> (cmd:
        DrawCmd)
        ensures
            *final(self) == *old(self),
            *final(data) == *old(data),
            cmd == (DrawCmd { x: pos.0, y: pos.1, shape: ShapeCmd::Nothing }),
    {
        DrawCmd { x: pos.0, y: pos.1, shape: ShapeCmd::Nothing }
    }
}

impl Rect {
    pub open spec fn model(&self) -> RawModel {
        RawModel::Rect {
            width: self.width.model(),
            height: self.height.model(),
            color_tl: self.color_tl,
            color_tr: self.color_tr,
            color_bl: self.color_bl,
            color_br: self.color_br,
        }
    }

    /// Resolves the rectangle at `pos`, sampling its width and height once
    /// each, in that order.
    pub fn draw<A: ScalarArith>(&mut self, data: &mut SamplerData<A>, pos: (i32, i32)) -> (cmd:
        DrawCmd)
        requires
            old(data).vars.wf(),
            ok_raw(
                old(self).model(),
                old(data).input.buttons@.len() as int,
                old(data).vars.names().len() as int,
            ),
        ensures
            raw_draw_ens(old(self).model(), *old(data), final(self).model(), *final(data), pos, cmd),
    {
        let ghost d0 = *old(data);
        let ghost b = old(data).input.buttons@.len() as int;
        let w = self.width.sample(data);
        let ghost v1 = data.vars;
        proof {
            lemma_ok1_mono_holder(old(self).height.model(), b, d0.vars, data.vars);
        }
        let h = self.height.sample(data);
        proof {
            lemma_grew_trans(d0.vars, v1, data.vars);
            lemma_ok1_mono_holder(self.width.model(), b, v1, data.vars);
        }
        DrawCmd {
            x: pos.0,
            y: pos.1,
            shape: ShapeCmd::Rect {
                width: w,
                height: h,
                color_tl: self.color_tl,
                color_tr: self.color_tr,
                color_bl: self.color_bl,
                color_br: self.color_br,
            },
        }
    }
}

/// What resolving a payload ensures, through [`eval_raw`].
pub open spec fn raw_draw_ens<A: ScalarArith>(
    n0: RawModel,
    d0: SamplerData<A>,
    n1: RawModel,
    d1: SamplerData<A>,
    pos: (i32, i32),
    cmd: DrawCmd,
) -> bool {
    let o = eval_raw(n0, d0.model());
    &&& d1.vars.wf()
    &&& d1.t == d0.t
    &&& d1.input == d0.input
    &&& d1.arith == d0.arith
    &&& d1.vars.grew_from(d0.vars)
    &&& n1 == o.node
    &&& d1.vars.names() == o.names
    &&& d1.vars.values() == o.values
    &&& cmd == (DrawCmd { x: pos.0, y: pos.1, shape: o.cmd })
    &&& ok_raw(n1, d1.input.buttons@.len() as int, d1.vars.names().len() as int)
}

impl ShapeRaw {
    pub open spec fn model(&self) -> RawModel {
        match self {
            ShapeRaw::Circle(c) => RawModel::Circle {
                radius: c.radius,
                inner_color: c.inner_color,
                outer_color: c.outer_color,
            },
            ShapeRaw::Rect(r) => r.model(),
            ShapeRaw::NoDraw(n) => RawModel::NoDraw,
        }
    }

    /// Resolves this payload at `pos` against the context.
    pub fn draw<A: ScalarArith>(&mut self, data: &mut SamplerData<A>, pos: (i32, i32)) -> (cmd:
        DrawCmd)
        requires
            old(data).vars.wf(),
            ok_raw(
                old(self).model(),
                old(data).input.buttons@.len() as int,
                old(data).vars.names().len() as int,
            ),
        ensures
            raw_draw_ens(old(self).model(), *old(data), final(self).model(), *final(data), pos, cmd),
    {
        match self {
            ShapeRaw::Circle(c) => {
                proof {
                    lemma_grew_refl(data.vars);
                }
                c.draw(data, pos)
            },
            ShapeRaw::Rect(r) => r.draw(data, pos),
            ShapeRaw::NoDraw(n) => {
                proof {
                    lemma_grew_refl(data.vars);
                }
                n.draw(data, pos)
            },
        }
    }
}

/// The spec-level images of a movement list, in order.
pub open spec fn models2_of(ms: Seq<Movesampler2D>) -> Seq<Node2> {
    ms.map(|i: int, m: Movesampler2D| m.model())
}

impl Shape {
    pub open spec fn model(&self) -> ShapeModel {
        ShapeModel {
            enabled: self.enabled.model(),
            movement: models2_of(self.movement@),
            shape: self.shape.model(),
        }
    }

    /// Draws the shape against `win`: fold-sums the movement list from
    /// (0, 0), truncates the sum to pixel deltas, adds the origin with
    /// wrapping machine arithmetic, and resolves the payload there.
    #[verifier::rlimit(100)]
    pub fn draw<A: ScalarArith>(&mut self, data: &mut SamplerData<A>, win: (i32, i32)) -> (cmd:
        DrawCmd)
        requires
            old(data).vars.wf(),
            ok2_list(
                models2_of(old(self).movement@),
                old(data).input.buttons@.len() as int,
                old(data).vars.names().len() as int,
            ),
            ok_raw(
                old(self).shape.model(),
                old(data).input.buttons@.len() as int,
                old(data).vars.names().len() as int,
            ),
        ensures
            shape_draw_ens(old(self).model(), *old(data), final(self).model(), *final(data), win, cmd),
            final(self).enabled == old(self).enabled,
    {
        let ghost s0 = old(self).model();
        let ghost d0 = *old(data);
        let ghost c0 = old(data).model();
        let ghost b = old(data).input.buttons@.len() as int;
        let ghost ms = models2_of(old(self).movement@);
        let ghost full = eval_movement(ms, c0, Scalar::zero_spec(), Scalar::zero_spec());
        proof {
            assert(ms.skip(0) =~= ms);
            lemma_grew_refl(data.vars);
            lemma_eval_movement_shape(ms, c0, Scalar::zero_spec(), Scalar::zero_spec());
            assert(full.nodes.skip(0) =~= full.nodes);
        }
        let ghost shape0 = self.shape;
        let ghost enabled0 = self.enabled;
        let mut sx = Scalar::zero();
        let mut sy = Scalar::zero();
        let mut j: usize = 0;
        while j < self.movement.len()
            invariant
                self.shape == shape0,
                self.enabled == enabled0,
                data.vars.wf(),
                data.t == d0.t,
                data.input == d0.input,
                data.arith == d0.arith,
                data.vars.grew_from(d0.vars),
                b == d0.input.buttons@.len() as int,
                j <= self.movement@.len(),
                self.movement@.len() == ms.len(),
                full == eval_movement(ms, c0, Scalar::zero_spec(), Scalar::zero_spec()),
                full.nodes.len() == ms.len(),
                forall|i: int| 0 <= i < j ==> #[trigger] self.movement@[i].model() == full.nodes[i],
                forall|i: int|
                    0 <= i < j ==> #[trigger] ok2(
                        self.movement@[i].model(),
                        b,
                        data.vars.names().len() as int,
                    ),
                forall|i: int| j <= i < ms.len() ==> #[trigger] self.movement@[i].model() == ms[i],
                ok2_list(ms, b, data.vars.names().len() as int),
                eval_movement(ms.skip(j as int), data.model(), sx, sy) == (OutMove {
                    nodes: full.nodes.skip(j as int),
                    names: full.names,
                    values: full.values,
                    x: full.x,
                    y: full.y,
                }),
            decreases ms.len() - j,
        {
            let ghost pre_vars = data.vars;
            let ghost cj = data.model();
            let ghost pre_sx = sx;
            let ghost pre_sy = sy;
            proof {
                assert(ms.skip(j as int)[0] == ms[j as int]);
                assert(ms.skip(j as int).drop_first() =~= ms.skip(j as int + 1));
                assert(ok2(ms[j as int], b, data.vars.names().len() as int));
            }
            let (dx, dy) = self.movement[j].sample(data);
            sx = data.arith.add(sx, dx);
            sy = data.arith.add(sy, dy);
            proof {
                let o = eval2(ms[j as int], cj);
                let remj = eval_movement(ms.skip(j as int), cj, pre_sx, pre_sy);
                let cn = data.model();
                assert(cn == Ctx { names: o.names, values: o.values, ..cj });
                let rest = eval_movement(ms.skip(j as int + 1), cn, cj.arith.add_spec(pre_sx, o.x), cj.arith.add_spec(pre_sy, o.y));
                assert(remj.nodes =~= seq![o.node] + rest.nodes);
                assert((seq![o.node] + rest.nodes).drop_first() =~= rest.nodes);
                assert(full.nodes.skip(j as int).drop_first() =~= full.nodes.skip(j as int + 1));
                assert(rest.nodes =~= full.nodes.skip(j as int + 1));
                assert(remj.nodes[0] == full.nodes[j as int]);
                crate::variable_holder::lemma_grew_trans(d0.vars, pre_vars, data.vars);
                assert forall|i: int| 0 <= i < j + 1 implies #[trigger] ok2(
                    self.movement@[i].model(),
                    b,
                    data.vars.names().len() as int,
                ) by {
                    if i < j {
                        assert(ok2(self.movement@[i].model(), b, pre_vars.names().len() as int));
                        lemma_ok2_mono_holder(self.movement@[i].model(), b, pre_vars, data.vars);
                    }
                }
                assert forall|i: int|
                    0 <= i < ms.len() implies #[trigger] ok2(
                    ms[i],
                    b,
                    data.vars.names().len() as int,
                ) by {
                    assert(ok2(ms[i], b, pre_vars.names().len() as int));
                    lemma_ok2_mono_holder(ms[i], b, pre_vars, data.vars);
                }
            }
            j += 1;
        }
        proof {
            assert(ms.skip(ms.len() as int) =~= Seq::<Node2>::empty());
            assert(full.nodes.skip(ms.len() as int) =~= Seq::<Node2>::empty());
            assert(models2_of(self.movement@) =~= full.nodes);
        }
        let px = data.arith.to_i32(sx).wrapping_add(win.0);
        let py = data.arith.to_i32(sy).wrapping_add(win.1);
        let ghost pre_raw_vars = data.vars;
        proof {
            lemma_ok_raw_mono_holder(old(self).shape.model(), b, d0.vars, data.vars);
        }
        let cmd = self.shape.draw(data, (px, py));
        proof {
            crate::variable_holder::lemma_grew_trans(d0.vars, pre_raw_vars, data.vars);
            assert forall|i: int|
                0 <= i < full.nodes.len() implies #[trigger] ok2(
                full.nodes[i],
                b,
                data.vars.names().len() as int,
            ) by {
                assert(self.movement@[i].model() == full.nodes[i]);
                lemma_ok2_mono_holder(full.nodes[i], b, pre_raw_vars, data.vars);
            }
        }
        cmd
    }

    /// Runs one frame of this shape: samples the enable node, and when its
    /// value reaches one, draws; an enable value below one skips the
    /// movement list and the payload entirely — their state, side effects
    /// included, is untouched that frame.
    #[verifier::rlimit(100)]
    pub fn frame<A: ScalarArith>(&mut self, data: &mut SamplerData<A>, win: (i32, i32)) -> (cmd:
        Option<DrawCmd>)
        requires
            old(data).vars.wf(),
            shape_ok(
                old(self).model(),
                old(data).input.buttons@.len() as int,
                old(data).vars.names().len() as int,
            ),
        ensures
            frame_ens(old(self).model(), *old(data), final(self).model(), *final(data), win, cmd),
    {
        let ghost d0 = *old(data);
        let ghost b = old(data).input.buttons@.len() as int;
        let enable_value = self.enabled.sample(data);
        let ghost v1 = data.vars;
        if data.arith.ge(enable_value, data.arith.one()) {
            proof {
                assert forall|i: int|
                    0 <= i < models2_of(self.movement@).len() implies #[trigger] ok2(
                    models2_of(self.movement@)[i],
                    b,
                    data.vars.names().len() as int,
                ) by {
                    lemma_ok2_mono_holder(models2_of(self.movement@)[i], b, d0.vars, data.vars);
                }
                lemma_ok_raw_mono_holder(self.shape.model(), b, d0.vars, data.vars);
            }
            let cmd = self.draw(data, win);
            proof {
                crate::variable_holder::lemma_grew_trans(d0.vars, v1, data.vars);
                lemma_ok1_mono_holder(self.enabled.model(), b, v1, data.vars);
            }
            Some(cmd)
        } else {
            proof {
                assert forall|i: int|
                    0 <= i < models2_of(self.movement@).len() implies #[trigger] ok2(
                    models2_of(self.movement@)[i],
                    b,
                    data.vars.names().len() as int,
                ) by {
                    lemma_ok2_mono_holder(models2_of(self.movement@)[i], b, d0.vars, data.vars);
                }
                lemma_ok_raw_mono_holder(self.shape.model(), b, d0.vars, data.vars);
            }
            None
        }
    }
}

/// What [`Shape::draw`] ensures, through [`eval_draw`].
pub open spec fn shape_draw_ens<A: ScalarArith>(
    s0: ShapeModel,
    d0: SamplerData<A>,
    s1: ShapeModel,
    d1: SamplerData<A>,
    win: (i32, i32),
    cmd: DrawCmd,
) -> bool {
    let o = eval_draw(s0, d0.model(), win);
    &&& d1.vars.wf()
    &&& d1.t == d0.t
    &&& d1.input == d0.input
    &&& d1.arith == d0.arith
    &&& d1.vars.grew_from(d0.vars)
    &&& s1 == o.shape
    &&& d1.vars.names() == o.names
    &&& d1.vars.values() == o.values
    &&& cmd == o.cmd
    &&& ok2_list(s1.movement, d1.input.buttons@.len() as int, d1.vars.names().len() as int)
    &&& ok_raw(s1.shape, d1.input.buttons@.len() as int, d1.vars.names().len() as int)
}

/// What [`Shape::frame`] ensures, through [`eval_frame`].
pub open spec fn frame_ens<A: ScalarArith>(
    s0: ShapeModel,
    d0: SamplerData<A>,
    s1: ShapeModel,
    d1: SamplerData<A>,
    win: (i32, i32),
    cmd: Option<DrawCmd>,
) -> bool {
    let o = eval_frame(s0, d0.model(), win);
    &&& d1.vars.wf()
    &&& d1.t == d0.t
    &&& d1.input == d0.input
    &&& d1.arith == d0.arith
    &&& d1.vars.grew_from(d0.vars)
    &&& s1 == o.shape
    &&& d1.vars.names() == o.names
    &&& d1.vars.values() == o.values
    &&& cmd == o.cmd
    &&& shape_ok(s1, d1.input.buttons@.len() as int, d1.vars.names().len() as int)
}

/// The movement evaluator yields one node per listed node and leaves their
/// count alone.
pub proof fn lemma_eval_movement_shape<A: ScalarArith>(
    ms: Seq<Node2>,
    c: Ctx<A>,
    ax: Scalar,
    ay: Scalar,
)
    ensures
        eval_movement(ms, c, ax, ay).nodes.len() == ms.len(),
    decreases ms.len(),
{
    if ms.len() > 0 {
        let o = eval2(ms[0], c);
        lemma_eval_movement_shape(
            ms.drop_first(),
            Ctx { names: o.names, values: o.values, ..c },
            c.arith.add_spec(ax, o.x),
            c.arith.add_spec(ay, o.y),
        );
    }
}

/// Vector-node fitness survives any growth of the registry.
pub proof fn lemma_ok2_mono_holder(
    n: Node2,
    nbuttons: int,
    pre: crate::variable_holder::DataHolder,
    post: crate::variable_holder::DataHolder,
)
    requires
        ok2(n, nbuttons, pre.names().len() as int),
        post.grew_from(pre),
    ensures
        ok2(n, nbuttons, post.names().len() as int),
{
    match n {
        Node2::Orbit { speed, eccentricity, angle_top, angle_bottom, radius } => {
            lemma_ok1_mono_holder(speed, nbuttons, pre, post);
            lemma_ok1_mono_holder(eccentricity, nbuttons, pre, post);
            lemma_ok1_mono_holder(angle_top, nbuttons, pre, post);
            lemma_ok1_mono_holder(angle_bottom, nbuttons, pre, post);
            lemma_ok1_mono_holder(radius, nbuttons, pre, post);
        },
        Node2::Offset { x, y } => {
            lemma_ok1_mono_holder(x, nbuttons, pre, post);
            lemma_ok1_mono_holder(y, nbuttons, pre, post);
        },
        Node2::Mouse { scale_center_x, scale_center_y, scale } => {
            lemma_ok1_mono_holder(scale_center_x, nbuttons, pre, post);
            lemma_ok1_mono_holder(scale_center_y, nbuttons, pre, post);
            lemma_ok1_mono_holder(scale, nbuttons, pre, post);
        },
    }
}

/// Payload fitness survives any growth of the registry.
pub proof fn lemma_ok_raw_mono_holder(
    n: RawModel,
    nbuttons: int,
    pre: crate::variable_holder::DataHolder,
    post: crate::variable_holder::DataHolder,
)
    requires
        ok_raw(n, nbuttons, pre.names().len() as int),
        post.grew_from(pre),
    ensures
        ok_raw(n, nbuttons, post.names().len() as int),
{
    match n {
        RawModel::Rect { width, height, .. } => {
            lemma_ok1_mono_holder(width, nbuttons, pre, post);
            lemma_ok1_mono_holder(height, nbuttons, pre, post);
        },
        _ => {},
    }
}

/// Whether a vector node is fit for sampling: the executable mirror of
/// [`ok2`].
pub fn check_ok2(n: &Movesampler2D, nbuttons: usize, nvars: usize) -> (b: bool)
    ensures
        b == ok2(n.model(), nbuttons as int, nvars as int),
{
    match n {
        Movesampler2D::Orbit(o) => check_ok(&o.speed, nbuttons, nvars) && check_ok(
            &o.eccentricity,
            nbuttons,
            nvars,
        ) && check_ok(&o.angle_top, nbuttons, nvars) && check_ok(&o.angle_bottom, nbuttons, nvars)
            && check_ok(&o.radius, nbuttons, nvars),
        Movesampler2D::Offset(o) => check_ok(&o.x, nbuttons, nvars) && check_ok(
            &o.y,
            nbuttons,
            nvars,
        ),
        Movesampler2D::Mouse(m) => check_ok(&m.scale_center_x, nbuttons, nvars) && check_ok(
            &m.scale_center_y,
            nbuttons,
            nvars,
        ) && check_ok(&m.scale, nbuttons, nvars),
    }
}

impl Shape {
    /// Whether this shape is fit for the given snapshot width and registry
    /// size: the executable mirror of [`shape_ok`].
    pub fn check_fit(&self, nbuttons: usize, nvars: usize) -> (b: bool)
        ensures
            b == shape_ok(self.model(), nbuttons as int, nvars as int),
    {
        if !check_ok(&self.enabled, nbuttons, nvars) {
            return false;
        }
        let mut i: usize = 0;
        while i < self.movement.len()
            invariant
                i <= self.movement@.len(),
                forall|j: int|
                    0 <= j < i ==> #[trigger] ok2(
                        models2_of(self.movement@)[j],
                        nbuttons as int,
                        nvars as int,
                    ),
            decreases self.movement@.len() - i,
        {
            if !check_ok2(&self.movement[i], nbuttons, nvars) {
                proof {
                    assert(!ok2(models2_of(self.movement@)[i as int], nbuttons as int, nvars as int));
                }
                return false;
            }
            i += 1;
        }
        match &self.shape {
            ShapeRaw::Rect(r) => check_ok(&r.width, nbuttons, nvars) && check_ok(
                &r.height,
                nbuttons,
                nvars,
            ),
            _ => true,
        }
    }

    /// Runs one frame of this shape if it is fit for the context, and
    /// reports an unfit shape instead of sampling anything: the entry for a
    /// driver that has not established fitness itself.
    pub fn try_frame<A: ScalarArith>(
        &mut self,
        data: &mut SamplerData<A>,
        win: (i32, i32),
    ) -> (r: Option<Option<DrawCmd>>)
        requires
            old(data).vars.wf(),
        ensures
            match r {
                Some(cmd) => shape_ok(
                    old(self).model(),
                    old(data).input.buttons@.len() as int,
                    old(data).vars.names().len() as int,
                ) && frame_ens(old(self).model(), *old(data), final(self).model(), *final(data), win, cmd),
                None => !shape_ok(
                    old(self).model(),
                    old(data).input.buttons@.len() as int,
                    old(data).vars.names().len() as int,
                ) && *final(self) == *old(self) && *final(data) == *old(data),
            },
    {
        let fit = self.check_fit(data.input.buttons.len(), data.vars.len());
        if fit {
            Some(self.frame(data, win))
        } else {
            None
        }
    }
}


/// The drawing interface of payloads: resolve to a draw command at a pixel
/// position, against the frame's context.
pub trait Drawable<A: ScalarArith>: Sized {
    /// The spec-level image of this payload.
    spec fn raw(&self) -> RawModel;

    /// Resolves this payload at `pos`, as [`eval_raw`] describes.
    fn draw(&mut self, data: &mut SamplerData<A>, pos: (i32, i32)) -> (cmd: DrawCmd)
        requires
            old(data).vars.wf(),
            ok_raw(
                old(self).raw(),
                old(data).input.buttons@.len() as int,
                old(data).vars.names().len() as int,
            ),
        ensures
            raw_draw_ens(old(self).raw(), *old(data), final(self).raw(), *final(data), pos, cmd),
    ;
}

impl<A: ScalarArith> Drawable<A> for ShapeRaw {
    open spec fn raw(&self) -> RawModel {
        self.model()
    }

    fn draw(&mut self, data: &mut SamplerData<A>, pos: (i32, i32)) -> (cmd: DrawCmd) {
        ShapeRaw::draw(self, data, pos)
    }
}

impl<A: ScalarArith> Drawable<A> for Rect {
    open spec fn raw(&self) -> RawModel {
        self.model()
    }

    fn draw(&mut self, data: &mut SamplerData<A>, pos: (i32, i32)) -> (cmd: DrawCmd) {
        Rect::draw(self, data, pos)
    }
}

impl<A: ScalarArith> Drawable<A> for crate::circle::Circle {
    open spec fn raw(&self) -> RawModel {
        RawModel::Circle {
            radius: self.radius,
            inner_color: self.inner_color,
            outer_color: self.outer_color,
        }
    }

    fn draw(&mut self, data: &mut SamplerData<A>, pos: (i32, i32)) -> (cmd: DrawCmd) {
        proof {
            lemma_grew_refl(data.vars);
        }
        crate::circle::Circle::draw(self, data, pos)
    }
}

impl<A: ScalarArith> Drawable<A> for NoDraw {
    open spec fn raw(&self) -> RawModel {
        RawModel::NoDraw
    }

    fn draw(&mut self, data: &mut SamplerData<A>, pos: (i32, i32)) -> (cmd: DrawCmd) {
        proof {
            lemma_grew_refl(data.vars);
        }
        NoDraw::draw(self, data, pos)
    }
}

} // verus!
