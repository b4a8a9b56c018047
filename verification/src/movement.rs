use vstd::prelude::*;

use crate::linear_samplers::{
    eval_node, lemma_ok1_mono_holder, ok1, Ctx, Movesampler1D, Node1, SamplerData,
};
use crate::scalar::{Scalar, ScalarArith};
use crate::variable_holder::lemma_grew_trans;

verus! {

/// Spec-level image of a vector sampler node: each variant is parameterized
/// by scalar sampler trees.
pub enum Node2 {
    Orbit {
        speed: Node1,
        eccentricity: Node1,
        angle_top: Node1,
        angle_bottom: Node1,
        radius: Node1,
    },
    Offset { x: Node1, y: Node1 },
    Mouse { scale_center_x: Node1, scale_center_y: Node1, scale: Node1 },
}

/// What evaluating one vector node yields.
pub struct Out2 {
    pub node: Node2,
    pub names: Seq<Seq<char>>,
    pub values: Seq<Scalar>,
    pub x: Scalar,
    pub y: Scalar,
}

/// Fitness of a vector node: fitness of each scalar child.
pub open spec fn ok2(n: Node2, nbuttons: int, nvars: int) -> bool {
    match n {
        Node2::Orbit { speed, eccentricity, angle_top, angle_bottom, radius } => ok1(
            speed,
            nbuttons,
            nvars,
        ) && ok1(eccentricity, nbuttons, nvars) && ok1(angle_top, nbuttons, nvars) && ok1(
            angle_bottom,
            nbuttons,
            nvars,
        ) && ok1(radius, nbuttons, nvars),
        Node2::Offset { x, y } => ok1(x, nbuttons, nvars) && ok1(y, nbuttons, nvars),
        Node2::Mouse { scale_center_x, scale_center_y, scale } => ok1(
            scale_center_x,
            nbuttons,
            nvars,
        ) && ok1(scale_center_y, nbuttons, nvars) && ok1(scale, nbuttons, nvars),
    }
}

/// The meaning of sampling one vector node: scalar children evaluated left
/// to right through [`eval_node`], with each formula's sampling
/// multiplicities load-bearing — an orbit samples its speed twice (once per
/// trigonometric argument) and its radius twice (once per axis), and the
/// pointer node samples its scale twice; each later sample works on the
/// child as the earlier one left it.
pub open spec fn eval2<A: ScalarArith>(n: Node2, c: Ctx<A>) -> Out2 {
    match n {
        Node2::Orbit { speed, eccentricity, angle_top, angle_bottom, radius } => {
            let os1 = eval_node(speed, c);
            let oe = eval_node(eccentricity, Ctx { names: os1.names, values: os1.values, ..c });
            let os2 = eval_node(os1.node, Ctx { names: oe.names, values: oe.values, ..c });
            let ot = eval_node(angle_top, Ctx { names: os2.names, values: os2.values, ..c });
            let ob = eval_node(angle_bottom, Ctx { names: ot.names, values: ot.values, ..c });
            let or1 = eval_node(radius, Ctx { names: ob.names, values: ob.values, ..c });
            let or2 = eval_node(or1.node, Ctx { names: or1.names, values: or1.values, ..c });
            let pre_x = c.arith.mul_spec(c.arith.cos_spec(c.arith.mul_spec(os1.val, c.t)), oe.val);
            let pre_y = c.arith.sin_spec(c.arith.mul_spec(os2.val, c.t));
            let angle = c.arith.mul_spec(
                c.arith.mul_spec(c.arith.div_spec(ot.val, ob.val), c.arith.two_spec()),
                c.arith.pi_spec(),
            );
            let cos_v = c.arith.cos_spec(angle);
            let sin_v = c.arith.sin_spec(angle);
            Out2 {
                node: Node2::Orbit {
                    speed: os2.node,
                    eccentricity: oe.node,
                    angle_top: ot.node,
                    angle_bottom: ob.node,
                    radius: or2.node,
                },
                names: or2.names,
                values: or2.values,
                x: c.arith.mul_spec(
                    c.arith.sub_spec(
                        c.arith.mul_spec(pre_x, cos_v),
                        c.arith.mul_spec(pre_y, sin_v),
                    ),
                    or1.val,
                ),
                y: c.arith.mul_spec(
                    c.arith.add_spec(
                        c.arith.mul_spec(pre_y, cos_v),
                        c.arith.mul_spec(pre_x, sin_v),
                    ),
                    or2.val,
                ),
            }
        },
        Node2::Offset { x, y } => {
            let ox = eval_node(x, c);
            let oy = eval_node(y, Ctx { names: ox.names, values: ox.values, ..c });
            Out2 {
                node: Node2::Offset { x: ox.node, y: oy.node },
                names: oy.names,
                values: oy.values,
                x: ox.val,
                y: oy.val,
            }
        },
        Node2::Mouse { scale_center_x, scale_center_y, scale } => {
            let ocx = eval_node(scale_center_x, c);
            let os1 = eval_node(scale, Ctx { names: ocx.names, values: ocx.values, ..c });
            let ocy = eval_node(scale_center_y, Ctx { names: os1.names, values: os1.values, ..c });
            let os2 = eval_node(os1.node, Ctx { names: ocy.names, values: ocy.values, ..c });
            Out2 {
                node: Node2::Mouse {
                    scale_center_x: ocx.node,
                    scale_center_y: ocy.node,
                    scale: os2.node,
                },
                names: os2.names,
                values: os2.values,
                x: c.arith.mul_spec(
                    c.arith.sub_spec(c.arith.of_i32_spec(c.input.mouse_x), ocx.val),
                    os1.val,
                ),
                y: c.arith.mul_spec(
                    c.arith.sub_spec(c.arith.of_i32_spec(c.input.mouse_y), ocy.val),
                    os2.val,
                ),
            }
        },
    }
}

/// What sampling a vector node requires.
pub open spec fn sample2_req<A: ScalarArith>(n: Node2, d: SamplerData<A>) -> bool {
    &&& d.vars.wf()
    &&& ok2(n, d.input.buttons@.len() as int, d.vars.names().len() as int)
}

/// What sampling a vector node ensures, mirroring the scalar engine's
/// [`sample_ens`] through [`eval2`].
pub open spec fn sample2_ens<A: ScalarArith>(
    n0: Node2,
    d0: SamplerData<A>,
    n1: Node2,
    d1: SamplerData<A>,
    x: Scalar,
    y: Scalar,
) -> bool {
    let o = eval2(n0, d0.model());
    &&& d1.vars.wf()
    &&& d1.t == d0.t
    &&& d1.input == d0.input
    &&& d1.arith == d0.arith
    &&& d1.vars.grew_from(d0.vars)
    &&& n1 == o.node
    &&& d1.vars.names() == o.names
    &&& d1.vars.values() == o.values
    &&& x == o.x
    &&& y == o.y
    &&& ok2(n1, d1.input.buttons@.len() as int, d1.vars.names().len() as int)
}

/// A vector sampler: produces one (x, y) pair of scalars per frame.
pub enum Movesampler2D {
    Orbit(Orbit),
    Offset(Offset),
    Mouse(Mouse),
}

/// Elliptic orbital motion: a point on an ellipse spun by time, rotated by
/// an angle given as a fraction of a full turn, and scaled by a radius.
pub struct Orbit {
    pub speed: Movesampler1D,
    pub eccentricity: Movesampler1D,
    pub angle_top: Movesampler1D,
    pub angle_bottom: Movesampler1D,
    pub radius: Movesampler1D,
}

/// A plain displacement: the pair of its two scalar samples.
pub struct Offset {
    pub x: Movesampler1D,
    pub y: Movesampler1D,
}

/// Pointer-relative motion: the pointer position, shifted by a sampled
/// center and scaled.
pub struct Mouse {
    pub scale_center_x: Movesampler1D,
    pub scale_center_y: Movesampler1D,
    pub scale: Movesampler1D,
}

impl Movesampler2D {
    /// The spec-level image of this node.
    pub open spec fn model(&self) -> Node2 {
        match self {
            Movesampler2D::Orbit(o) => o.model(),
            Movesampler2D::Offset(o) => o.model(),
            Movesampler2D::Mouse(m) => m.model(),
        }
    }

    /// Samples this vector node against the context.
    pub fn sample<A: ScalarArith>(&mut self, data: &mut SamplerData<A>) -> (r: (Scalar, Scalar))
        requires
            sample2_req(old(self).model(), *old(data)),
        ensures
            sample2_ens(old(self).model(), *old(data), final(self).model(), *final(data), r.0, r.1),
    {
        match self {
            Movesampler2D::Orbit(o) => o.sample(data),
            Movesampler2D::Offset(o) => o.sample(data),
            Movesampler2D::Mouse(m) => m.sample(data),
        }
    }
}

impl Orbit {
    pub open spec fn model(&self) -> Node2 {
        Node2::Orbit {
            speed: self.speed.model(),
            eccentricity: self.eccentricity.model(),
            angle_top: self.angle_top.model(),
            angle_bottom: self.angle_bottom.model(),
            radius: self.radius.model(),
        }
    }

    pub fn sample<A: ScalarArith>(&mut self, data: &mut SamplerData<A>) -> (r: (Scalar, Scalar))
        requires
            sample2_req(old(self).model(), *old(data)),
        ensures
            sample2_ens(old(self).model(), *old(data), final(self).model(), *final(data), r.0, r.1),
    {
        let ghost d0 = *old(data);
        let ghost b = old(data).input.buttons@.len() as int;
        let s1 = self.speed.sample(data);
        let ghost v1 = data.vars;
        proof {
            lemma_ok1_mono_holder(old(self).eccentricity.model(), b, d0.vars, data.vars);
        }
        let ec = self.eccentricity.sample(data);
        let ghost v2 = data.vars;
        proof {
            lemma_grew_trans(d0.vars, v1, data.vars);
            lemma_ok1_mono_holder(self.speed.model(), b, v1, data.vars);
        }
        let s2 = self.speed.sample(data);
        let ghost v3 = data.vars;
        proof {
            lemma_grew_trans(d0.vars, v2, data.vars);
            lemma_ok1_mono_holder(old(self).angle_top.model(), b, d0.vars, data.vars);
        }
        let top = self.angle_top.sample(data);
        let ghost v4 = data.vars;
        proof {
            lemma_grew_trans(d0.vars, v3, data.vars);
            lemma_ok1_mono_holder(old(self).angle_bottom.model(), b, d0.vars, data.vars);
        }
        let bottom = self.angle_bottom.sample(data);
        let ghost v5 = data.vars;
        proof {
            lemma_grew_trans(d0.vars, v4, data.vars);
            lemma_ok1_mono_holder(old(self).radius.model(), b, d0.vars, data.vars);
        }
        let r1 = self.radius.sample(data);
        let ghost v6 = data.vars;
        proof {
            lemma_grew_trans(d0.vars, v5, data.vars);
        }
        let r2 = self.radius.sample(data);
        proof {
            lemma_grew_trans(d0.vars, v6, data.vars);
            lemma_ok1_mono_holder(self.speed.model(), b, v3, data.vars);
            lemma_ok1_mono_holder(self.eccentricity.model(), b, v2, data.vars);
            lemma_ok1_mono_holder(self.angle_top.model(), b, v4, data.vars);
            lemma_ok1_mono_holder(self.angle_bottom.model(), b, v5, data.vars);
        }
        let pre_x = data.arith.mul(data.arith.cos(data.arith.mul(s1, data.t)), ec);
        let pre_y = data.arith.sin(data.arith.mul(s2, data.t));
        let angle = data.arith.mul(
            data.arith.mul(data.arith.div(top, bottom), data.arith.two()),
            data.arith.pi(),
        );
        let cos_v = data.arith.cos(angle);
        let sin_v = data.arith.sin(angle);
        let x = data.arith.mul(
            data.arith.sub(data.arith.mul(pre_x, cos_v), data.arith.mul(pre_y, sin_v)),
            r1,
        );
        let y = data.arith.mul(
            data.arith.add(data.arith.mul(pre_y, cos_v), data.arith.mul(pre_x, sin_v)),
            r2,
        );
        (x, y)
    }
}

impl Offset {
    pub open spec fn model(&self) -> Node2 {
        Node2::Offset { x: self.x.model(), y: self.y.model() }
    }

    pub fn sample<A: ScalarArith>(&mut self, data: &mut SamplerData<A>) -> (r: (Scalar, Scalar))
        requires
            sample2_req(old(self).model(), *old(data)),
        ensures
            sample2_ens(old(self).model(), *old(data), final(self).model(), *final(data), r.0, r.1),
    {
        let ghost d0 = *old(data);
        let ghost b = old(data).input.buttons@.len() as int;
        let x = self.x.sample(data);
        let ghost v1 = data.vars;
        proof {
            lemma_ok1_mono_holder(old(self).y.model(), b, d0.vars, data.vars);
        }
        let y = self.y.sample(data);
        proof {
            lemma_grew_trans(d0.vars, v1, data.vars);
            lemma_ok1_mono_holder(self.x.model(), b, v1, data.vars);
        }
        (x, y)
    }
}

impl Mouse {
    pub open spec fn model(&self) -> Node2 {
        Node2::Mouse {
            scale_center_x: self.scale_center_x.model(),
            scale_center_y: self.scale_center_y.model(),
            scale: self.scale.model(),
        }
    }

    pub fn sample<A: ScalarArith>(&mut self, data: &mut SamplerData<A>) -> (r: (Scalar, Scalar))
        requires
            sample2_req(old(self).model(), *old(data)),
        ensures
            sample2_ens(old(self).model(), *old(data), final(self).model(), *final(data), r.0, r.1),
    {
        let ghost d0 = *old(data);
        let ghost b = old(data).input.buttons@.len() as int;
        let cx = self.scale_center_x.sample(data);
        let ghost v1 = data.vars;
        proof {
            lemma_ok1_mono_holder(old(self).scale.model(), b, d0.vars, data.vars);
        }
        let sc1 = self.scale.sample(data);
        let ghost v2 = data.vars;
        proof {
            lemma_grew_trans(d0.vars, v1, data.vars);
            lemma_ok1_mono_holder(old(self).scale_center_y.model(), b, d0.vars, data.vars);
        }
        let cy = self.scale_center_y.sample(data);
        let ghost v3 = data.vars;
        proof {
            lemma_grew_trans(d0.vars, v2, data.vars);
            lemma_ok1_mono_holder(self.scale.model(), b, v2, data.vars);
        }
        let sc2 = self.scale.sample(data);
        proof {
            lemma_grew_trans(d0.vars, v3, data.vars);
            lemma_ok1_mono_holder(self.scale_center_x.model(), b, v1, data.vars);
            lemma_ok1_mono_holder(self.scale_center_y.model(), b, v3, data.vars);
        }
        let x = data.arith.mul(data.arith.sub(data.arith.of_i32(data.input.mouse_x), cx), sc1);
        let y = data.arith.mul(data.arith.sub(data.arith.of_i32(data.input.mouse_y), cy), sc2);
        (x, y)
    }
}


/// The sampling interface of vector samplers.
pub trait Sampler2D<A: ScalarArith>: Sized {
    /// The spec-level image of this sampler.
    spec fn node(&self) -> Node2;

    /// Samples this node against the context, as [`eval2`] describes.
    fn sample(&mut self, data: &mut SamplerData<A>) -> (r: (Scalar, Scalar))
        requires
            sample2_req(old(self).node(), *old(data)),
        ensures
            sample2_ens(old(self).node(), *old(data), final(self).node(), *final(data), r.0, r.1),
    ;
}

impl<A: ScalarArith> Sampler2D<A> for Movesampler2D {
    open spec fn node(&self) -> Node2 {
        self.model()
    }

    fn sample(&mut self, data: &mut SamplerData<A>) -> (r: (Scalar, Scalar)) {
        Movesampler2D::sample(self, data)
    }
}

} // verus!
