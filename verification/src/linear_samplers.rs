use vstd::prelude::*;

use crate::scalar::{Scalar, ScalarArith};
use crate::variable_holder::{index_of_key, DataHolder};

verus! {

// ---------------------------------------------------------------------------
// The per-frame evaluation context.
// ---------------------------------------------------------------------------

/// What the input devices read this frame: pointer position, one flag per
/// mouse button, and the codes of the keys currently held. The embedding
/// program polls the devices once per frame and hands the readings in as
/// plain values, so the engine itself has no platform dependency and tests
/// can drive it from scripted snapshots.
pub struct InputSnapshot {
    pub mouse_x: i32,
    pub mouse_y: i32,
    pub buttons: Vec<bool>,
    pub keys_held: Vec<u16>,
}

/// Spec-level image of an [`InputSnapshot`].
pub struct Snap {
    pub mouse_x: i32,
    pub mouse_y: i32,
    pub buttons: Seq<bool>,
    pub keys_held: Seq<u16>,
}

impl InputSnapshot {
    pub open spec fn model(&self) -> Snap {
        Snap {
            mouse_x: self.mouse_x,
            mouse_y: self.mouse_y,
            buttons: self.buttons@,
            keys_held: self.keys_held@,
        }
    }
}

/// The evaluation context handed to every sampler once per frame: the
/// elapsed time in seconds (as a scalar word), the shared variable registry,
/// the input snapshot of the frame, and the arithmetic port. Sampling
/// mutates only the registry (and the sampled nodes' own state); time,
/// snapshot and arithmetic stay as the driver set them.
pub struct SamplerData<A: ScalarArith> {
    pub t: Scalar,
    pub vars: DataHolder,
    pub input: InputSnapshot,
    pub arith: A,
}

/// Spec-level image of a [`SamplerData`].
pub struct Ctx<A: ScalarArith> {
    pub t: Scalar,
    pub names: Seq<Seq<char>>,
    pub values: Seq<Scalar>,
    pub input: Snap,
    pub arith: A,
}

impl<A: ScalarArith> SamplerData<A> {
    pub open spec fn model(&self) -> Ctx<A> {
        Ctx {
            t: self.t,
            names: self.vars.names(),
            values: self.vars.values(),
            input: self.input.model(),
            arith: self.arith,
        }
    }
}

// ---------------------------------------------------------------------------
// Key-name resolution.
// ---------------------------------------------------------------------------

/// The platform key code (if any) that a key name resolves to. The name is
/// resolved by its characters alone, so the outcome is the same on every
/// frame; which names resolve is the key table of the input backend.
pub uninterp spec fn keycode_id(name: Seq<char>) -> Option<u16>;

/// Relies on `device_query::Keycode::from_str`: a key name is parsed to a
/// key code (carried here as its discriminant) by the characters of the
/// name alone, and an unknown name fails to parse.
#[verifier::external_body]
fn resolve_keycode(name: &String) -> (r: Option<u16>)
    ensures
        r == keycode_id(name@),
{
    match <device_query::Keycode as core::str::FromStr>::from_str(name.as_str()) {
        Ok(k) => Some(k as u16),
        Err(_) => None,
    }
}

// ---------------------------------------------------------------------------
// The spec-level tree and its evaluator.
// ---------------------------------------------------------------------------

/// Whether the snapshot reads `button` as pressed; a button beyond the
/// snapshot's list reads unpressed (sampling requires it in range).
pub open spec fn button_pressed(s: Snap, button: usize) -> bool {
    button < s.buttons.len() && s.buttons[button as int]
}

/// Spec-level image of a scalar sampler node, children and all. Exec nodes
/// project onto this type through their `model` functions, and the one
/// evaluator [`eval1`] below is the meaning of sampling.
pub enum Node1 {
    Constant(Scalar),
    Time { speed: Scalar },
    MouseClick { decrease: Box<Node1>, button: usize, force_full_cycle: bool, value: Scalar },
    Remap {
        before_min: Scalar,
        before_max: Scalar,
        after_min: Scalar,
        after_max: Scalar,
        inner: Box<Node1>,
    },
    Add { terms: Seq<Node1> },
    Subtract { pos: Box<Node1>, neg: Box<Node1> },
    Multiply { factors: Seq<Node1> },
    Divide { top: Box<Node1>, bottom: Box<Node1> },
    Power { base: Box<Node1>, exponent: Box<Node1> },
    Modulo { base: Box<Node1>, divisor: Box<Node1> },
    MouseClickCounter { button: usize, counter: u32 },
    CounterReset { counter: Box<Node1>, reset: Box<Node1>, offset: Scalar },
    Switch { enable: Box<Node1>, disable: Box<Node1>, enabled: Scalar },
    KeyPress { keys: Seq<Seq<char>>, fixed_keys: Seq<u16> },
    DeltaTime { multiplier: Scalar, last_time: Scalar },
    VariableGet { name: Seq<char>, id: Option<usize> },
    VariableSet { name: Seq<char>, value: Box<Node1>, id: Option<usize> },
    Expressions { exprs: Seq<Node1> },
}

/// What evaluating one node yields: the node with its state advanced, the
/// registry contents after the node's side effects, and the sampled value.
pub struct Out1 {
    pub node: Node1,
    pub names: Seq<Seq<char>>,
    pub values: Seq<Scalar>,
    pub val: Scalar,
}

/// What evaluating a list of nodes left to right yields.
pub struct OutList {
    pub nodes: Seq<Node1>,
    pub names: Seq<Seq<char>>,
    pub values: Seq<Scalar>,
    pub vals: Seq<Scalar>,
}

/// The left fold of addition over sampled values, starting from `acc`; the
/// meaning of an `Add` node's summation.
pub open spec fn fold_add<A: ScalarArith>(a: A, vals: Seq<Scalar>, acc: Scalar) -> Scalar
    decreases vals.len(),
{
    if vals.len() == 0 {
        acc
    } else {
        fold_add(a, vals.drop_first(), a.add_spec(acc, vals[0]))
    }
}

/// The left fold of multiplication over sampled values, starting from `acc`.
pub open spec fn fold_mul<A: ScalarArith>(a: A, vals: Seq<Scalar>, acc: Scalar) -> Scalar
    decreases vals.len(),
{
    if vals.len() == 0 {
        acc
    } else {
        fold_mul(a, vals.drop_first(), a.mul_spec(acc, vals[0]))
    }
}

/// One unit added to `acc` for every listed key code currently held; the
/// meaning of a `KeyPress` node's count.
pub open spec fn count_held<A: ScalarArith>(
    a: A,
    codes: Seq<u16>,
    held: Seq<u16>,
    acc: Scalar,
) -> Scalar
    decreases codes.len(),
{
    if codes.len() == 0 {
        acc
    } else {
        count_held(
            a,
            codes.drop_first(),
            held,
            if held.contains(codes[0]) {
                a.add_spec(acc, a.one_spec())
            } else {
                acc
            },
        )
    }
}

/// The key codes a `KeyPress` node's names resolve to, in order.
pub open spec fn resolve_all(keys: Seq<Seq<char>>) -> Seq<u16> {
    Seq::new(keys.len(), |i: int| keycode_id(keys[i]).unwrap())
}

/// The slot a variable name resolves to, together with the registry after
/// resolving: the slot the name already owns, or else a fresh zero-valued
/// slot under the next dense index.
pub open spec fn resolve_slot(names: Seq<Seq<char>>, values: Seq<Scalar>, name: Seq<char>) -> (
    int,
    Seq<Seq<char>>,
    Seq<Scalar>,
) {
    if index_of_key(names, name) >= 0 {
        (index_of_key(names, name), names, values)
    } else {
        (names.len() as int, names.push(name), values.push(Scalar::zero_spec()))
    }
}


/// The height of a node: how deep the deepest chain of children goes. Used
/// as the recursion budget of the evaluator, since sampling never changes a
/// tree's height.
pub open spec fn depth1(n: Node1) -> nat
    decreases n,
{
    match n {
        Node1::Constant(v) => 1,
        Node1::Time { speed } => 1,
        Node1::MouseClick { decrease, button, force_full_cycle, value } => 1 + depth1(*decrease),
        Node1::Remap { before_min, before_max, after_min, after_max, inner } => 1 + depth1(*inner),
        Node1::Add { terms } => 1 + depth_list(terms),
        Node1::Subtract { pos, neg } => 1 + max_nat(depth1(*pos), depth1(*neg)),
        Node1::Multiply { factors } => 1 + depth_list(factors),
        Node1::Divide { top, bottom } => 1 + max_nat(depth1(*top), depth1(*bottom)),
        Node1::Power { base, exponent } => 1 + max_nat(depth1(*base), depth1(*exponent)),
        Node1::Modulo { base, divisor } => 1 + max_nat(depth1(*base), depth1(*divisor)),
        Node1::MouseClickCounter { button, counter } => 1,
        Node1::CounterReset { counter, reset, offset } => 1 + max_nat(
            depth1(*counter),
            depth1(*reset),
        ),
        Node1::Switch { enable, disable, enabled } => 1 + max_nat(
            depth1(*enable),
            depth1(*disable),
        ),
        Node1::KeyPress { keys, fixed_keys } => 1,
        Node1::DeltaTime { multiplier, last_time } => 1,
        Node1::VariableGet { name, id } => 1,
        Node1::VariableSet { name, value, id } => 1 + depth1(*value),
        Node1::Expressions { exprs } => 1 + depth_list(exprs),
    }
}

/// The largest height among the nodes of a list.
pub open spec fn depth_list(ts: Seq<Node1>) -> nat
    decreases ts,
{
    if ts.len() == 0 {
        0
    } else {
        max_nat(depth1(ts[0]), depth_list(ts.drop_first()))
    }
}

pub open spec fn max_nat(a: nat, b: nat) -> nat {
    if a >= b {
        a
    } else {
        b
    }
}

/// The meaning of sampling one scalar node against a context: an eager,
/// depth-first, left-to-right walk. Each variant advances its own state and
/// the registry exactly as the corresponding exec sampler does; the
/// arithmetic port supplies every numeric step.
pub open spec fn eval1<A: ScalarArith>(n: Node1, c: Ctx<A>, fuel: nat) -> Out1
    decreases fuel, 0nat,
{
    if fuel == 0 {
        Out1 { node: n, names: c.names, values: c.values, val: Scalar::zero_spec() }
    } else {
    let f = (fuel - 1) as nat;
    match n {
        Node1::Constant(v) => Out1 { node: n, names: c.names, values: c.values, val: v },
        Node1::Time { speed } => Out1 {
            node: n,
            names: c.names,
            values: c.values,
            val: c.arith.mul_spec(speed, c.t),
        },
        Node1::MouseClick { decrease, button, force_full_cycle, value } => {
            let pressed = button_pressed(c.input, button);
            let armed = if pressed && c.arith.le_spec(value, Scalar::zero_spec()) {
                c.arith.one_spec()
            } else {
                value
            };
            if c.arith.gt_spec(armed, Scalar::zero_spec()) {
                let o = eval1(*decrease, c, f);
                let ticked = c.arith.sub_spec(armed, o.val);
                Out1 {
                    node: Node1::MouseClick {
                        decrease: Box::new(o.node),
                        button,
                        force_full_cycle,
                        value: ticked,
                    },
                    names: o.names,
                    values: o.values,
                    val: ticked,
                }
            } else {
                Out1 {
                    node: Node1::MouseClick { decrease, button, force_full_cycle, value: armed },
                    names: c.names,
                    values: c.values,
                    val: armed,
                }
            }
        },
        Node1::Remap { before_min, before_max, after_min, after_max, inner } => {
            let o = eval1(*inner, c, f);
            let before_range = c.arith.sub_spec(before_max, before_min);
            let after_range = c.arith.sub_spec(after_max, after_min);
            let normalized = c.arith.div_spec(c.arith.sub_spec(o.val, before_min), before_range);
            let after = c.arith.add_spec(c.arith.mul_spec(normalized, after_range), after_min);
            Out1 {
                node: Node1::Remap {
                    before_min,
                    before_max,
                    after_min,
                    after_max,
                    inner: Box::new(o.node),
                },
                names: o.names,
                values: o.values,
                val: after,
            }
        },
        Node1::Add { terms } => {
            let o = eval_list(terms, c, f);
            Out1 {
                node: Node1::Add { terms: o.nodes },
                names: o.names,
                values: o.values,
                val: fold_add(c.arith, o.vals, Scalar::zero_spec()),
            }
        },
        Node1::Subtract { pos, neg } => {
            let op = eval1(*pos, c, f);
            let on = eval1(*neg, Ctx { names: op.names, values: op.values, ..c }, f);
            Out1 {
                node: Node1::Subtract { pos: Box::new(op.node), neg: Box::new(on.node) },
                names: on.names,
                values: on.values,
                val: c.arith.sub_spec(op.val, on.val),
            }
        },
        Node1::Multiply { factors } => {
            let o = eval_list(factors, c, f);
            Out1 {
                node: Node1::Multiply { factors: o.nodes },
                names: o.names,
                values: o.values,
                val: fold_mul(c.arith, o.vals, c.arith.one_spec()),
            }
        },
        Node1::Divide { top, bottom } => {
            let ot = eval1(*top, c, f);
            let ob = eval1(*bottom, Ctx { names: ot.names, values: ot.values, ..c }, f);
            Out1 {
                node: Node1::Divide { top: Box::new(ot.node), bottom: Box::new(ob.node) },
                names: ob.names,
                values: ob.values,
                val: c.arith.div_spec(ot.val, ob.val),
            }
        },
        Node1::Power { base, exponent } => {
            let ob = eval1(*base, c, f);
            let oe = eval1(*exponent, Ctx { names: ob.names, values: ob.values, ..c }, f);
            Out1 {
                node: Node1::Power { base: Box::new(ob.node), exponent: Box::new(oe.node) },
                names: oe.names,
                values: oe.values,
                val: c.arith.pow_spec(ob.val, oe.val),
            }
        },
        Node1::Modulo { base, divisor } => {
            let ob = eval1(*base, c, f);
            let od = eval1(*divisor, Ctx { names: ob.names, values: ob.values, ..c }, f);
            Out1 {
                node: Node1::Modulo { base: Box::new(ob.node), divisor: Box::new(od.node) },
                names: od.names,
                values: od.values,
                val: c.arith.rem_spec(ob.val, od.val),
            }
        },
        Node1::MouseClickCounter { button, counter } => {
            let pressed = button_pressed(c.input, button);
            let bumped = if pressed {
                counter.wrapping_add(1)
            } else {
                counter
            };
            Out1 {
                node: Node1::MouseClickCounter { button, counter: bumped },
                names: c.names,
                values: c.values,
                val: c.arith.of_u32_spec(bumped),
            }
        },
        Node1::CounterReset { counter, reset, offset } => {
            let orst = eval1(*reset, c, f);
            let c1 = Ctx { names: orst.names, values: orst.values, ..c };
            if c.arith.ge_spec(orst.val, c.arith.one_spec()) {
                let olatch = eval1(*counter, c1, f);
                let c2 = Ctx { names: olatch.names, values: olatch.values, ..c };
                let ocnt = eval1(olatch.node, c2, f);
                Out1 {
                    node: Node1::CounterReset {
                        counter: Box::new(ocnt.node),
                        reset: Box::new(orst.node),
                        offset: olatch.val,
                    },
                    names: ocnt.names,
                    values: ocnt.values,
                    val: c.arith.sub_spec(ocnt.val, olatch.val),
                }
            } else {
                let ocnt = eval1(*counter, c1, f);
                Out1 {
                    node: Node1::CounterReset {
                        counter: Box::new(ocnt.node),
                        reset: Box::new(orst.node),
                        offset,
                    },
                    names: ocnt.names,
                    values: ocnt.values,
                    val: c.arith.sub_spec(ocnt.val, offset),
                }
            }
        },
        Node1::Switch { enable, disable, enabled } => {
            let oe = eval1(*enable, c, f);
            let od = eval1(*disable, Ctx { names: oe.names, values: oe.values, ..c }, f);
            let after_enable = if c.arith.ge_spec(oe.val, c.arith.one_spec()) {
                oe.val
            } else {
                enabled
            };
            let after_disable = if c.arith.ge_spec(od.val, c.arith.one_spec()) {
                Scalar::zero_spec()
            } else {
                after_enable
            };
            Out1 {
                node: Node1::Switch {
                    enable: Box::new(oe.node),
                    disable: Box::new(od.node),
                    enabled: after_disable,
                },
                names: od.names,
                values: od.values,
                val: after_disable,
            }
        },
        Node1::KeyPress { keys, fixed_keys } => {
            let fixed = if fixed_keys.len() == 0 {
                resolve_all(keys)
            } else {
                fixed_keys
            };
            Out1 {
                node: Node1::KeyPress { keys, fixed_keys: fixed },
                names: c.names,
                values: c.values,
                val: count_held(c.arith, fixed, c.input.keys_held, Scalar::zero_spec()),
            }
        },
        Node1::DeltaTime { multiplier, last_time } => Out1 {
            node: Node1::DeltaTime { multiplier, last_time: c.t },
            names: c.names,
            values: c.values,
            val: c.arith.mul_spec(c.arith.sub_spec(c.t, last_time), multiplier),
        },
        Node1::VariableGet { name, id } => {
            let (slot, names, values) = match id {
                Some(i) => (i as int, c.names, c.values),
                None => resolve_slot(c.names, c.values, name),
            };
            Out1 {
                node: Node1::VariableGet { name, id: Some(slot as usize) },
                names,
                values,
                val: values[slot],
            }
        },
        Node1::VariableSet { name, value, id } => {
            let (slot, names, values) = match id {
                Some(i) => (i as int, c.names, c.values),
                None => resolve_slot(c.names, c.values, name),
            };
            let o = eval1(*value, Ctx { names, values, ..c }, f);
            Out1 {
                node: Node1::VariableSet { name, value: Box::new(o.node), id: Some(slot as usize) },
                names: o.names,
                values: o.values.update(slot, o.val),
                val: o.val,
            }
        },
        Node1::Expressions { exprs } => {
            let o = eval_list(exprs, c, f);
            Out1 {
                node: Node1::Expressions { exprs: o.nodes },
                names: o.names,
                values: o.values,
                val: if o.vals.len() == 0 {
                    Scalar::zero_spec()
                } else {
                    o.vals.last()
                },
            }
        },
    }
    }
}

/// The meaning of sampling a list of nodes left to right, threading the
/// registry from each node to the next. The budget is shared: every node of
/// the list is evaluated under the same `fuel`.
pub open spec fn eval_list<A: ScalarArith>(ts: Seq<Node1>, c: Ctx<A>, fuel: nat) -> OutList
    decreases fuel, ts.len() + 1,
{
    if ts.len() == 0 {
        OutList { nodes: Seq::empty(), names: c.names, values: c.values, vals: Seq::empty() }
    } else {
        let o = eval1(ts[0], c, fuel);
        let rest = eval_list(ts.drop_first(), Ctx { names: o.names, values: o.values, ..c }, fuel);
        OutList {
            nodes: seq![o.node] + rest.nodes,
            names: rest.names,
            values: rest.values,
            vals: seq![o.val] + rest.vals,
        }
    }
}

/// The meaning of sampling a node: the evaluator run with the node's own
/// height as its budget, which [`lemma_eval1_fuel`] shows is always enough.
pub open spec fn eval_node<A: ScalarArith>(n: Node1, c: Ctx<A>) -> Out1 {
    eval1(n, c, depth1(n))
}

/// The meaning of sampling a list of nodes.
pub open spec fn eval_nodes<A: ScalarArith>(ts: Seq<Node1>, c: Ctx<A>) -> OutList {
    eval_list(ts, c, depth_list(ts))
}


/// Any budget at least the node's height runs the evaluator to the same
/// outcome as the canonical budget, and sampling keeps the tree's height.
pub proof fn lemma_eval1_fuel<A: ScalarArith>(n: Node1, c: Ctx<A>, fuel: nat)
    requires
        fuel >= depth1(n),
    ensures
        eval1(n, c, fuel) == eval_node(n, c),
        depth1(eval1(n, c, fuel).node) == depth1(n),
    decreases fuel, 0nat,
{
    let d = depth1(n);
    let f = (fuel - 1) as nat;
    let fd = (d - 1) as nat;
    match n {
        Node1::Constant(v) => {},
        Node1::Time { speed } => {},
        Node1::MouseClick { decrease, button, force_full_cycle, value } => {
            lemma_eval1_fuel(*decrease, c, f);
            lemma_eval1_fuel(*decrease, c, fd);
        },
        Node1::Remap { before_min, before_max, after_min, after_max, inner } => {
            lemma_eval1_fuel(*inner, c, f);
            lemma_eval1_fuel(*inner, c, fd);
        },
        Node1::Add { terms } => {
            lemma_eval_list_fuel(terms, c, f);
            lemma_eval_list_fuel(terms, c, fd);
        },
        Node1::Subtract { pos, neg } => {
            lemma_eval1_fuel(*pos, c, f);
            lemma_eval1_fuel(*pos, c, fd);
            let c1 = Ctx { names: eval_node(*pos, c).names, values: eval_node(*pos, c).values, ..c };
            lemma_eval1_fuel(*neg, c1, f);
            lemma_eval1_fuel(*neg, c1, fd);
        },
        Node1::Multiply { factors } => {
            lemma_eval_list_fuel(factors, c, f);
            lemma_eval_list_fuel(factors, c, fd);
        },
        Node1::Divide { top, bottom } => {
            lemma_eval1_fuel(*top, c, f);
            lemma_eval1_fuel(*top, c, fd);
            let c1 = Ctx { names: eval_node(*top, c).names, values: eval_node(*top, c).values, ..c };
            lemma_eval1_fuel(*bottom, c1, f);
            lemma_eval1_fuel(*bottom, c1, fd);
        },
        Node1::Power { base, exponent } => {
            lemma_eval1_fuel(*base, c, f);
            lemma_eval1_fuel(*base, c, fd);
            let c1 = Ctx { names: eval_node(*base, c).names, values: eval_node(*base, c).values, ..c };
            lemma_eval1_fuel(*exponent, c1, f);
            lemma_eval1_fuel(*exponent, c1, fd);
        },
        Node1::Modulo { base, divisor } => {
            lemma_eval1_fuel(*base, c, f);
            lemma_eval1_fuel(*base, c, fd);
            let c1 = Ctx { names: eval_node(*base, c).names, values: eval_node(*base, c).values, ..c };
            lemma_eval1_fuel(*divisor, c1, f);
            lemma_eval1_fuel(*divisor, c1, fd);
        },
        Node1::MouseClickCounter { button, counter } => {},
        Node1::CounterReset { counter, reset, offset } => {
            lemma_eval1_fuel(*reset, c, f);
            lemma_eval1_fuel(*reset, c, fd);
            let orst = eval_node(*reset, c);
            let c1 = Ctx { names: orst.names, values: orst.values, ..c };
            lemma_eval1_fuel(*counter, c1, f);
            lemma_eval1_fuel(*counter, c1, fd);
            let olatch = eval_node(*counter, c1);
            let c2 = Ctx { names: olatch.names, values: olatch.values, ..c };
            lemma_eval1_fuel(olatch.node, c2, f);
            lemma_eval1_fuel(olatch.node, c2, fd);
        },
        Node1::Switch { enable, disable, enabled } => {
            lemma_eval1_fuel(*enable, c, f);
            lemma_eval1_fuel(*enable, c, fd);
            let c1 = Ctx {
                names: eval_node(*enable, c).names,
                values: eval_node(*enable, c).values,
                ..c
            };
            lemma_eval1_fuel(*disable, c1, f);
            lemma_eval1_fuel(*disable, c1, fd);
        },
        Node1::KeyPress { keys, fixed_keys } => {},
        Node1::DeltaTime { multiplier, last_time } => {},
        Node1::VariableGet { name, id } => {},
        Node1::VariableSet { name, value, id } => {
            let (slot, names, values) = match id {
                Some(i) => (i as int, c.names, c.values),
                None => resolve_slot(c.names, c.values, name),
            };
            let c1 = Ctx { names, values, ..c };
            lemma_eval1_fuel(*value, c1, f);
            lemma_eval1_fuel(*value, c1, fd);
        },
        Node1::Expressions { exprs } => {
            lemma_eval_list_fuel(exprs, c, f);
            lemma_eval_list_fuel(exprs, c, fd);
        },
    }
}

/// The list form of [`lemma_eval1_fuel`]: a shared budget at least the
/// list's height yields the canonical outcome, one node and one value per
/// listed node, with every height kept.
pub proof fn lemma_eval_list_fuel<A: ScalarArith>(ts: Seq<Node1>, c: Ctx<A>, fuel: nat)
    requires
        fuel >= depth_list(ts),
    ensures
        eval_list(ts, c, fuel) == eval_nodes(ts, c),
        eval_list(ts, c, fuel).nodes.len() == ts.len(),
        eval_list(ts, c, fuel).vals.len() == ts.len(),
        depth_list(eval_list(ts, c, fuel).nodes) == depth_list(ts),
    decreases fuel, ts.len() + 1,
{
    if ts.len() == 0 {
    } else {
        lemma_eval1_fuel(ts[0], c, fuel);
        lemma_eval1_fuel(ts[0], c, depth_list(ts));
        let o = eval_node(ts[0], c);
        let c1 = Ctx { names: o.names, values: o.values, ..c };
        lemma_eval_list_fuel(ts.drop_first(), c1, fuel);
        lemma_eval_list_fuel(ts.drop_first(), c1, depth_list(ts));
        let rest = eval_nodes(ts.drop_first(), c1);
        assert((seq![o.node] + rest.nodes).drop_first() =~= rest.nodes);
        assert((seq![o.node] + rest.nodes)[0] == o.node);
        assert(depth_list(seq![o.node] + rest.nodes) == depth_list(ts));
    }
}

// ---------------------------------------------------------------------------
// Well-formedness of a node against a context.
// ---------------------------------------------------------------------------

/// What sampling needs of a node: every mouse-button index lies within the
/// snapshot's button list, every key name of a not-yet-resolved `KeyPress`
/// resolves, and every cached variable slot lies within the registry. The
/// driver establishes this once; sampling preserves it, since the registry
/// only grows and resolution is cached.
pub open spec fn ok1(n: Node1, nbuttons: int, nvars: int) -> bool
    decreases n,
{
    match n {
        Node1::Constant(v) => true,
        Node1::Time { speed } => true,
        Node1::MouseClick { decrease, button, force_full_cycle, value } => (button as int)
            < nbuttons && ok1(*decrease, nbuttons, nvars),
        Node1::Remap { before_min, before_max, after_min, after_max, inner } => ok1(
            *inner,
            nbuttons,
            nvars,
        ),
        Node1::Add { terms } => ok_list(terms, nbuttons, nvars),
        Node1::Subtract { pos, neg } => ok1(*pos, nbuttons, nvars) && ok1(*neg, nbuttons, nvars),
        Node1::Multiply { factors } => ok_list(factors, nbuttons, nvars),
        Node1::Divide { top, bottom } => ok1(*top, nbuttons, nvars) && ok1(
            *bottom,
            nbuttons,
            nvars,
        ),
        Node1::Power { base, exponent } => ok1(*base, nbuttons, nvars) && ok1(
            *exponent,
            nbuttons,
            nvars,
        ),
        Node1::Modulo { base, divisor } => ok1(*base, nbuttons, nvars) && ok1(
            *divisor,
            nbuttons,
            nvars,
        ),
        Node1::MouseClickCounter { button, counter } => (button as int) < nbuttons,
        Node1::CounterReset { counter, reset, offset } => ok1(*counter, nbuttons, nvars) && ok1(
            *reset,
            nbuttons,
            nvars,
        ),
        Node1::Switch { enable, disable, enabled } => ok1(*enable, nbuttons, nvars) && ok1(
            *disable,
            nbuttons,
            nvars,
        ),
        Node1::KeyPress { keys, fixed_keys } => fixed_keys.len() == 0 ==> forall|i: int|
            0 <= i < keys.len() ==> keycode_id(keys[i]).is_some(),
        Node1::DeltaTime { multiplier, last_time } => true,
        Node1::VariableGet { name, id } => match id {
            Some(i) => (i as int) < nvars,
            None => true,
        },
        Node1::VariableSet { name, value, id } => (match id {
            Some(i) => (i as int) < nvars,
            None => true,
        }) && ok1(*value, nbuttons, nvars),
        Node1::Expressions { exprs } => ok_list(exprs, nbuttons, nvars),
    }
}

/// [`ok1`] over every node of a list.
pub open spec fn ok_list(ts: Seq<Node1>, nbuttons: int, nvars: int) -> bool
    decreases ts,
{
    if ts.len() == 0 {
        true
    } else {
        ok1(ts[0], nbuttons, nvars) && ok_list(ts.drop_first(), nbuttons, nvars)
    }
}


/// [`ok1`] is monotone in the registry size: a node fit for a registry stays
/// fit as the registry grows.
pub proof fn lemma_ok1_mono(n: Node1, nbuttons: int, v1: int, v2: int)
    requires
        ok1(n, nbuttons, v1),
        v2 >= v1,
    ensures
        ok1(n, nbuttons, v2),
    decreases n,
{
    match n {
        Node1::MouseClick { decrease, .. } => lemma_ok1_mono(*decrease, nbuttons, v1, v2),
        Node1::Remap { inner, .. } => lemma_ok1_mono(*inner, nbuttons, v1, v2),
        Node1::Add { terms } => lemma_ok_list_mono(terms, nbuttons, v1, v2),
        Node1::Subtract { pos, neg } => {
            lemma_ok1_mono(*pos, nbuttons, v1, v2);
            lemma_ok1_mono(*neg, nbuttons, v1, v2);
        },
        Node1::Multiply { factors } => lemma_ok_list_mono(factors, nbuttons, v1, v2),
        Node1::Divide { top, bottom } => {
            lemma_ok1_mono(*top, nbuttons, v1, v2);
            lemma_ok1_mono(*bottom, nbuttons, v1, v2);
        },
        Node1::Power { base, exponent } => {
            lemma_ok1_mono(*base, nbuttons, v1, v2);
            lemma_ok1_mono(*exponent, nbuttons, v1, v2);
        },
        Node1::Modulo { base, divisor } => {
            lemma_ok1_mono(*base, nbuttons, v1, v2);
            lemma_ok1_mono(*divisor, nbuttons, v1, v2);
        },
        Node1::CounterReset { counter, reset, .. } => {
            lemma_ok1_mono(*counter, nbuttons, v1, v2);
            lemma_ok1_mono(*reset, nbuttons, v1, v2);
        },
        Node1::Switch { enable, disable, .. } => {
            lemma_ok1_mono(*enable, nbuttons, v1, v2);
            lemma_ok1_mono(*disable, nbuttons, v1, v2);
        },
        Node1::VariableSet { value, .. } => lemma_ok1_mono(*value, nbuttons, v1, v2),
        Node1::Expressions { exprs } => lemma_ok_list_mono(exprs, nbuttons, v1, v2),
        _ => {},
    }
}

/// The list form of [`lemma_ok1_mono`].
pub proof fn lemma_ok_list_mono(ts: Seq<Node1>, nbuttons: int, v1: int, v2: int)
    requires
        ok_list(ts, nbuttons, v1),
        v2 >= v1,
    ensures
        ok_list(ts, nbuttons, v2),
    decreases ts,
{
    if ts.len() > 0 {
        lemma_ok1_mono(ts[0], nbuttons, v1, v2);
        lemma_ok_list_mono(ts.drop_first(), nbuttons, v1, v2);
    }
}

/// Every node of a list is at most as tall as the list.
pub proof fn lemma_depth_list_elem(ms: Seq<Node1>, i: int)
    requires
        0 <= i < ms.len(),
    ensures
        depth1(ms[i]) <= depth_list(ms),
    decreases ms.len(),
{
    if i > 0 {
        lemma_depth_list_elem(ms.drop_first(), i - 1);
    }
}

/// [`ok1`] holds of every node of a list exactly when it holds listwise.
pub proof fn lemma_ok_list_index(ts: Seq<Node1>, nbuttons: int, nvars: int)
    ensures
        ok_list(ts, nbuttons, nvars) <==> forall|i: int|
            0 <= i < ts.len() ==> #[trigger] ok1(ts[i], nbuttons, nvars),
    decreases ts.len(),
{
    if ts.len() > 0 {
        lemma_ok_list_index(ts.drop_first(), nbuttons, nvars);
        assert forall|i: int|
            0 <= i < ts.len() && ok1(ts[0], nbuttons, nvars) && ok_list(
                ts.drop_first(),
                nbuttons,
                nvars,
            ) implies #[trigger] ok1(ts[i], nbuttons, nvars) by {
            if i > 0 {
                assert(ts.drop_first()[i - 1] == ts[i]);
            }
        }
        if forall|i: int| 0 <= i < ts.len() ==> #[trigger] ok1(ts[i], nbuttons, nvars) {
            assert forall|i: int| 0 <= i < ts.drop_first().len() implies #[trigger] ok1(
                ts.drop_first()[i],
                nbuttons,
                nvars,
            ) by {
                assert(ts.drop_first()[i] == ts[i + 1]);
            }
            assert(ok1(ts[0], nbuttons, nvars));
        }
    }
}

// ---------------------------------------------------------------------------
// The exec sampler tree.
// ---------------------------------------------------------------------------

/// A scalar sampler: a tree of composable nodes that produces one scalar per
/// frame, possibly advancing its own state and the variable registry.
pub enum Movesampler1D {
    Constant(Scalar),
    Time(Time),
    MouseClick(MouseClick),
    Remap(Remap),
    Add(Add),
    Subtract(Subtract),
    Multiply(Multiply),
    Divide(Divide),
    Power(Power),
    Modulo(Modulo),
    MouseClickCounter(MouseClickCounter),
    CounterReset(CounterReset),
    Switch(Switch),
    KeyPress(KeyPress),
    DeltaTime(DeltaTime),
    VariableGet(VariableGet),
    VariableSet(VariableSet),
    Expressions(Expressions),
}

/// Scales the elapsed time: `speed * t`.
pub struct Time {
    pub speed: Scalar,
}

/// A decaying pulse armed by a mouse button: arming sets the value to one, and
/// while the value is positive each sample subtracts the nested rate. The
/// value may drift below zero; no floor is applied (`force_full_cycle` is
/// carried but not read, as a configuration may still name it).
pub struct MouseClick {
    pub mouse_timer_decrease: Box<Movesampler1D>,
    pub mouse_button: usize,
    pub force_full_cycle: bool,
    pub value: Scalar,
}

/// Linear remap of the inner sample from one range onto another. An empty
/// input range is not guarded: the arithmetic's division decides (IEEE-754
/// yields a non-finite value, which propagates).
pub struct Remap {
    pub before_min: Scalar,
    pub before_max: Scalar,
    pub after_min: Scalar,
    pub after_max: Scalar,
    pub sampler: Box<Movesampler1D>,
}

/// The left-fold sum of every term, starting from zero.
pub struct Add {
    pub terms: Vec<Movesampler1D>,
}

/// `pos - neg`.
pub struct Subtract {
    pub pos: Box<Movesampler1D>,
    pub neg: Box<Movesampler1D>,
}

/// The left-fold product of every factor, starting from one.
pub struct Multiply {
    pub factors: Vec<Movesampler1D>,
}

/// `top / bottom`; a zero divisor is the arithmetic's business.
pub struct Divide {
    pub top: Box<Movesampler1D>,
    pub bottom: Box<Movesampler1D>,
}

/// `base` raised to `exponent`.
pub struct Power {
    pub base: Box<Movesampler1D>,
    pub exponent: Box<Movesampler1D>,
}

/// The remainder of `base` by `divisor`.
pub struct Modulo {
    pub base: Box<Movesampler1D>,
    pub divisor: Box<Movesampler1D>,
}

/// Counts every sample taken while the button reads pressed (one more per
/// frame held, not edge-triggered), and returns the count as a scalar.
pub struct MouseClickCounter {
    pub mouse_click_counter_button: usize,
    pub counter: u32,
}

/// Offsets a nested counter so it can be reset: when `reset` samples at one
/// or above, the current counter sample is latched as the offset (sampling
/// the counter an extra time, side effects included); the result is the
/// counter sample minus the offset.
pub struct CounterReset {
    pub counter: Box<Movesampler1D>,
    pub reset: Box<Movesampler1D>,
    pub offset: Scalar,
}

/// A latch: when `enable` samples at one or above its value is held; when
/// `disable` samples at one or above (checked after `enable`, every frame)
/// the latch drops to zero; otherwise the held value persists.
pub struct Switch {
    pub enable: Box<Movesampler1D>,
    pub disable: Box<Movesampler1D>,
    pub enabled: Scalar,
}

/// Counts how many of the named keys are currently held. The names are
/// resolved to key codes on the first sample only and cached; an
/// unresolvable name makes that first sample impossible (the driver must
/// check a tree before sampling it).
pub struct KeyPress {
    pub keys: Vec<String>,
    pub fixed_keys: Vec<u16>,
}

/// The time elapsed since this node's previous sample, scaled. The stored
/// time starts at zero, so the first sample spans from zero to the current
/// time.
pub struct DeltaTime {
    pub delta_time_multiplier: Scalar,
    pub last_time: Scalar,
}

/// Reads a named registry slot; the name is resolved to a slot index on the
/// first sample and the index cached.
pub struct VariableGet {
    pub variable_name: String,
    pub variable_id: Option<usize>,
}

/// Samples the nested value and writes it to a named registry slot,
/// returning the value; name resolution is cached as in [`VariableGet`].
pub struct VariableSet {
    pub set_variable_name: String,
    pub value: Box<Movesampler1D>,
    pub variable_id: Option<usize>,
}

/// Samples every element in order for its side effects; the result is the
/// value of the last element alone (zero when empty).
pub struct Expressions {
    pub expressions: Vec<Movesampler1D>,
}

impl Movesampler1D {
    /// The spec-level image of this node.
    pub open spec fn model(&self) -> Node1
        decreases self,
    {
        match self {
            Movesampler1D::Constant(v) => Node1::Constant(*v),
            Movesampler1D::Time(t) => t.model(),
            Movesampler1D::MouseClick(m) => m.model(),
            Movesampler1D::Remap(m) => m.model(),
            Movesampler1D::Add(a) => a.model(),
            Movesampler1D::Subtract(s) => s.model(),
            Movesampler1D::Multiply(m) => m.model(),
            Movesampler1D::Divide(d) => d.model(),
            Movesampler1D::Power(p) => p.model(),
            Movesampler1D::Modulo(m) => m.model(),
            Movesampler1D::MouseClickCounter(m) => m.model(),
            Movesampler1D::CounterReset(c) => c.model(),
            Movesampler1D::Switch(s) => s.model(),
            Movesampler1D::KeyPress(k) => k.model(),
            Movesampler1D::DeltaTime(d) => d.model(),
            Movesampler1D::VariableGet(v) => v.model(),
            Movesampler1D::VariableSet(v) => v.model(),
            Movesampler1D::Expressions(e) => e.model(),
        }
    }
}

impl Time {
    pub open spec fn model(&self) -> Node1 {
        Node1::Time { speed: self.speed }
    }
}

impl MouseClick {
    pub open spec fn model(&self) -> Node1
        decreases self,
    {
        Node1::MouseClick {
            decrease: Box::new(self.mouse_timer_decrease.model()),
            button: self.mouse_button,
            force_full_cycle: self.force_full_cycle,
            value: self.value,
        }
    }
}

impl Remap {
    pub open spec fn model(&self) -> Node1
        decreases self,
    {
        Node1::Remap {
            before_min: self.before_min,
            before_max: self.before_max,
            after_min: self.after_min,
            after_max: self.after_max,
            inner: Box::new(self.sampler.model()),
        }
    }
}

impl Add {
    pub open spec fn model(&self) -> Node1
        decreases self,
    {
        Node1::Add { terms: models_of(self.terms@) }
    }
}

impl Subtract {
    pub open spec fn model(&self) -> Node1
        decreases self,
    {
        Node1::Subtract { pos: Box::new(self.pos.model()), neg: Box::new(self.neg.model()) }
    }
}

impl Multiply {
    pub open spec fn model(&self) -> Node1
        decreases self,
    {
        Node1::Multiply { factors: models_of(self.factors@) }
    }
}

impl Divide {
    pub open spec fn model(&self) -> Node1
        decreases self,
    {
        Node1::Divide { top: Box::new(self.top.model()), bottom: Box::new(self.bottom.model()) }
    }
}

impl Power {
    pub open spec fn model(&self) -> Node1
        decreases self,
    {
        Node1::Power {
            base: Box::new(self.base.model()),
            exponent: Box::new(self.exponent.model()),
        }
    }
}

impl Modulo {
    pub open spec fn model(&self) -> Node1
        decreases self,
    {
        Node1::Modulo {
            base: Box::new(self.base.model()),
            divisor: Box::new(self.divisor.model()),
        }
    }
}

impl MouseClickCounter {
    pub open spec fn model(&self) -> Node1 {
        Node1::MouseClickCounter {
            button: self.mouse_click_counter_button,
            counter: self.counter,
        }
    }
}

impl CounterReset {
    pub open spec fn model(&self) -> Node1
        decreases self,
    {
        Node1::CounterReset {
            counter: Box::new(self.counter.model()),
            reset: Box::new(self.reset.model()),
            offset: self.offset,
        }
    }
}

impl Switch {
    pub open spec fn model(&self) -> Node1
        decreases self,
    {
        Node1::Switch {
            enable: Box::new(self.enable.model()),
            disable: Box::new(self.disable.model()),
            enabled: self.enabled,
        }
    }
}

impl KeyPress {
    pub open spec fn model(&self) -> Node1 {
        Node1::KeyPress {
            keys: self.keys@.map(|i: int, s: String| s@),
            fixed_keys: self.fixed_keys@,
        }
    }
}

impl DeltaTime {
    pub open spec fn model(&self) -> Node1 {
        Node1::DeltaTime { multiplier: self.delta_time_multiplier, last_time: self.last_time }
    }
}

impl VariableGet {
    pub open spec fn model(&self) -> Node1 {
        Node1::VariableGet { name: self.variable_name@, id: self.variable_id }
    }
}

impl VariableSet {
    pub open spec fn model(&self) -> Node1
        decreases self,
    {
        Node1::VariableSet {
            name: self.set_variable_name@,
            value: Box::new(self.value.model()),
            id: self.variable_id,
        }
    }
}

impl Expressions {
    pub open spec fn model(&self) -> Node1
        decreases self,
    {
        Node1::Expressions { exprs: models_of(self.expressions@) }
    }
}

/// The spec-level images of a list of nodes, in order.
pub open spec fn models_of(ts: Seq<Movesampler1D>) -> Seq<Node1>
    decreases ts,
{
    if ts.len() == 0 {
        Seq::empty()
    } else {
        seq![ts[0].model()] + models_of(ts.drop_first())
    }
}

pub proof fn lemma_models_of(ts: Seq<Movesampler1D>)
    ensures
        models_of(ts).len() == ts.len(),
        forall|i: int| 0 <= i < ts.len() ==> models_of(ts)[i] == #[trigger] ts[i].model(),
    decreases ts.len(),
{
    if ts.len() > 0 {
        lemma_models_of(ts.drop_first());
        assert forall|i: int| 0 <= i < ts.len() implies models_of(ts)[i] == #[trigger] ts[i].model() by {
            if i > 0 {
                assert(ts.drop_first()[i - 1] == ts[i]);
                assert(models_of(ts)[i] == models_of(ts.drop_first())[i - 1]);
            }
        }
    }
}

/// What sampling requires of a node and its context.
pub open spec fn sample_req<A: ScalarArith>(n: Node1, d: SamplerData<A>) -> bool {
    &&& d.vars.wf()
    &&& ok1(n, d.input.buttons@.len() as int, d.vars.names().len() as int)
}

/// What sampling ensures: the node, the registry and the returned value are
/// exactly what the evaluator [`eval_node`] yields on the old node and
/// context; time, snapshot and arithmetic are untouched; the registry only
/// grows and stays well formed; the advanced node is again fit for sampling
/// and keeps its height.
pub open spec fn sample_ens<A: ScalarArith>(
    n0: Node1,
    d0: SamplerData<A>,
    n1: Node1,
    d1: SamplerData<A>,
    r: Scalar,
) -> bool {
    let o = eval_node(n0, d0.model());
    &&& d1.vars.wf()
    &&& d1.t == d0.t
    &&& d1.input == d0.input
    &&& d1.arith == d0.arith
    &&& d1.vars.grew_from(d0.vars)
    &&& n1 == o.node
    &&& d1.vars.names() == o.names
    &&& d1.vars.values() == o.values
    &&& r == o.val
    &&& depth1(n1) == depth1(n0)
    &&& ok1(n1, d1.input.buttons@.len() as int, d1.vars.names().len() as int)
}


/// Whether a list of held key codes includes `code`.
fn holds_code(held: &Vec<u16>, code: u16) -> (r: bool)
    ensures
        r == held@.contains(code),
{
    let mut i: usize = 0;
    while i < held.len()
        invariant
            i <= held@.len(),
            forall|j: int| 0 <= j < i ==> held@[j] != code,
        decreases held@.len() - i,
    {
        if held[i] == code {
            return true;
        }
        i += 1;
    }
    proof {
        assert(!held@.contains(code));
    }
    false
}

impl Time {
    pub fn sample<A: ScalarArith>(&mut self, data: &mut SamplerData<A>) -> (r: Scalar)
        requires
            sample_req(old(self).model(), *old(data)),
        ensures
            sample_ens(old(self).model(), *old(data), final(self).model(), *final(data), r),
    {
        proof {
            crate::variable_holder::lemma_grew_refl(data.vars);
        }
        data.arith.mul(self.speed, data.t)
    }
}

impl MouseClickCounter {
    pub fn sample<A: ScalarArith>(&mut self, data: &mut SamplerData<A>) -> (r: Scalar)
        requires
            sample_req(old(self).model(), *old(data)),
        ensures
            sample_ens(old(self).model(), *old(data), final(self).model(), *final(data), r),
    {
        proof {
            crate::variable_holder::lemma_grew_refl(data.vars);
        }
        if data.input.buttons[self.mouse_click_counter_button] {
            self.counter = self.counter.wrapping_add(1);
        }
        data.arith.of_u32(self.counter)
    }
}

impl DeltaTime {
    pub fn sample<A: ScalarArith>(&mut self, data: &mut SamplerData<A>) -> (r: Scalar)
        requires
            sample_req(old(self).model(), *old(data)),
        ensures
            sample_ens(old(self).model(), *old(data), final(self).model(), *final(data), r),
    {
        proof {
            crate::variable_holder::lemma_grew_refl(data.vars);
        }
        let delta = data.arith.sub(data.t, self.last_time);
        self.last_time = data.t;
        data.arith.mul(delta, self.delta_time_multiplier)
    }
}

impl VariableGet {
    pub fn sample<A: ScalarArith>(&mut self, data: &mut SamplerData<A>) -> (r: Scalar)
        requires
            sample_req(old(self).model(), *old(data)),
        ensures
            sample_ens(old(self).model(), *old(data), final(self).model(), *final(data), r),
    {
        if self.variable_id.is_none() {
            let id = data.vars.add_key(&self.variable_name);
            self.variable_id = Some(id);
        } else {
            proof {
                crate::variable_holder::lemma_grew_refl(data.vars);
            }
        }
        let id = self.variable_id.unwrap();
        data.vars.get(id)
    }
}

impl KeyPress {
    pub fn sample<A: ScalarArith>(&mut self, data: &mut SamplerData<A>) -> (r: Scalar)
        requires
            sample_req(old(self).model(), *old(data)),
        ensures
            sample_ens(old(self).model(), *old(data), final(self).model(), *final(data), r),
    {
        proof {
            crate::variable_holder::lemma_grew_refl(data.vars);
        }
        if self.fixed_keys.len() == 0 {
            let ghost names = self.keys@.map(|i: int, s: String| s@);
            let mut resolved: Vec<u16> = Vec::new();
            let mut i: usize = 0;
            while i < self.keys.len()
                invariant
                    *self == *old(self),
                    i <= self.keys@.len(),
                    names == self.keys@.map(|k: int, s: String| s@),
                    forall|j: int| 0 <= j < names.len() ==> #[trigger] keycode_id(names[j]).is_some(),
                    resolved@.len() == i,
                    forall|j: int| 0 <= j < i ==> resolved@[j] == keycode_id(names[j]).unwrap(),
                decreases self.keys@.len() - i,
            {
                proof {
                    assert(names[i as int] == self.keys@[i as int]@);
                }
                match resolve_keycode(&self.keys[i]) {
                    Some(code) => resolved.push(code),
                    None => unreached(),
                }
                i += 1;
            }
            proof {
                assert(resolved@ =~= resolve_all(names));
            }
            self.fixed_keys = resolved;
        }
        let ghost fixed = self.fixed_keys@;
        let ghost held = data.input.keys_held@;
        let ghost a = data.arith;
        let mut pressed = Scalar::zero();
        let mut i: usize = 0;
        proof {
            assert(fixed.skip(0) =~= fixed);
        }
        while i < self.fixed_keys.len()
            invariant
                *data == *old(data),
                fixed == self.fixed_keys@,
                held == data.input.keys_held@,
                a == data.arith,
                i <= fixed.len(),
                count_held(a, fixed.skip(i as int), held, pressed) == count_held(
                    a,
                    fixed,
                    held,
                    Scalar::zero_spec(),
                ),
            decreases fixed.len() - i,
        {
            proof {
                assert(fixed.skip(i as int).drop_first() =~= fixed.skip(i as int + 1));
                assert(fixed.skip(i as int)[0] == fixed[i as int]);
            }
            if holds_code(&data.input.keys_held, self.fixed_keys[i]) {
                pressed = data.arith.add(pressed, data.arith.one());
            }
            i += 1;
        }
        proof {
            assert(fixed.skip(fixed.len() as int) =~= Seq::<u16>::empty());
        }
        pressed
    }
}


/// What sampling a whole list ensures, mirroring [`sample_ens`] through
/// [`eval_nodes`].
pub open spec fn sample_list_ens<A: ScalarArith>(
    ms0: Seq<Node1>,
    d0: SamplerData<A>,
    ms1: Seq<Node1>,
    d1: SamplerData<A>,
    vals: Seq<Scalar>,
) -> bool {
    let o = eval_nodes(ms0, d0.model());
    &&& d1.vars.wf()
    &&& d1.t == d0.t
    &&& d1.input == d0.input
    &&& d1.arith == d0.arith
    &&& d1.vars.grew_from(d0.vars)
    &&& ms1 == o.nodes
    &&& d1.vars.names() == o.names
    &&& d1.vars.values() == o.values
    &&& vals == o.vals
    &&& depth_list(ms1) == depth_list(ms0)
    &&& ok_list(ms1, d1.input.buttons@.len() as int, d1.vars.names().len() as int)
}

/// Samples every node of a list in order, returning the sampled values.
/// `ms` names the models of the handed-in nodes, fixing the recursion budget.
fn sample_all<A: ScalarArith>(
    ts: &mut Vec<Movesampler1D>,
    data: &mut SamplerData<A>,
    Ghost(ms): Ghost<Seq<Node1>>,
) -> (vals: Vec<Scalar>)
    requires
        ms == models_of(old(ts)@),
        old(data).vars.wf(),
        ok_list(
            models_of(old(ts)@),
            old(data).input.buttons@.len() as int,
            old(data).vars.names().len() as int,
        ),
    ensures
        sample_list_ens(models_of(old(ts)@), *old(data), models_of(final(ts)@), *final(data), vals@),
    decreases depth_list(ms), 2nat,
{
    let ghost d0 = *old(data);
    let ghost c0 = old(data).model();
    let ghost full = eval_nodes(ms, c0);
    let ghost b = old(data).input.buttons@.len() as int;
    proof {
        lemma_models_of(old(ts)@);
        lemma_eval_list_fuel(ms, c0, depth_list(ms));
        assert(ms.skip(0) =~= ms);
        crate::variable_holder::lemma_grew_refl(data.vars);
    }
    proof {
        assert(full.nodes.skip(0) =~= full.nodes);
        assert(full.vals.skip(0) =~= full.vals);
        assert(full.vals.subrange(0, 0) =~= Seq::<Scalar>::empty());
    }
    let mut vals: Vec<Scalar> = Vec::new();
    let mut j: usize = 0;
    while j < ts.len()
        invariant
            data.vars.wf(),
            data.t == d0.t,
            data.input == d0.input,
            data.arith == d0.arith,
            data.vars.grew_from(d0.vars),
            b == d0.input.buttons@.len() as int,
            j <= ts@.len(),
            ts@.len() == ms.len(),
            full == eval_nodes(ms, c0),
            full.nodes.len() == ms.len(),
            full.vals.len() == ms.len(),
            vals@.len() == j,
            vals@ == full.vals.subrange(0, j as int),
            forall|i: int| 0 <= i < j ==> #[trigger] ts@[i].model() == full.nodes[i],
            forall|i: int|
                0 <= i < j ==> #[trigger] ok1(
                    ts@[i].model(),
                    b,
                    data.vars.names().len() as int,
                ),
            forall|i: int| j <= i < ms.len() ==> #[trigger] ts@[i].model() == ms[i],
            eval_nodes(ms.skip(j as int), data.model()) == (OutList {
                nodes: full.nodes.skip(j as int),
                names: full.names,
                values: full.values,
                vals: full.vals.skip(j as int),
            }),
            ok_list(ms.skip(j as int), b, data.vars.names().len() as int),
        decreases ms.len() - j,
    {
        let ghost pre_vars = data.vars;
        let ghost cj = data.model();
        let ghost remj = eval_nodes(ms.skip(j as int), cj);
        proof {
            assert(ms.skip(j as int)[0] == ms[j as int]);
            assert(ms.skip(j as int).drop_first() =~= ms.skip(j as int + 1));
            lemma_depth_list_elem(ms, j as int);
            lemma_depth_list_elem(ms.skip(j as int), 0);
            assert(ts@[j as int].model() == ms[j as int]);
            lemma_eval1_fuel(ms[j as int], cj, depth_list(ms.skip(j as int)));
        }
        let ghost oj = eval_node(ms[j as int], cj);
        let v = ts[j].sample(data);
        proof {
            let cn = data.model();
            assert(cn == Ctx { names: oj.names, values: oj.values, ..cj });
            lemma_eval_list_fuel(ms.skip(j as int + 1), cn, depth_list(ms.skip(j as int)));
            let rest = eval_nodes(ms.skip(j as int + 1), cn);
            assert(remj.nodes =~= seq![oj.node] + rest.nodes);
            assert(remj.vals =~= seq![oj.val] + rest.vals);
            assert(remj.names == rest.names);
            assert(remj.values == rest.values);
            assert((seq![oj.node] + rest.nodes).drop_first() =~= rest.nodes);
            assert((seq![oj.val] + rest.vals).drop_first() =~= rest.vals);
            assert(full.nodes.skip(j as int).drop_first() =~= full.nodes.skip(j as int + 1));
            assert(full.vals.skip(j as int).drop_first() =~= full.vals.skip(j as int + 1));
            assert(rest.nodes =~= full.nodes.skip(j as int + 1));
            assert(rest.vals =~= full.vals.skip(j as int + 1));
            assert(remj.nodes[0] == full.nodes[j as int]);
            assert(remj.vals[0] == full.vals[j as int]);
            crate::variable_holder::lemma_grew_trans(d0.vars, pre_vars, data.vars);
            lemma_ok_list_mono(
                ms.skip(j as int + 1),
                b,
                pre_vars.names().len() as int,
                data.vars.names().len() as int,
            );
            assert forall|i: int| 0 <= i < j + 1 implies #[trigger] ok1(
                ts@[i].model(),
                b,
                data.vars.names().len() as int,
            ) by {
                if i < j {
                    lemma_ok1_mono(
                        ts@[i].model(),
                        b,
                        pre_vars.names().len() as int,
                        data.vars.names().len() as int,
                    );
                }
            }
        }
        vals.push(v);
        proof {
            assert(vals@ =~= full.vals.subrange(0, j as int + 1));
        }
        j += 1;
    }
    proof {
        assert(ms.skip(ms.len() as int) =~= Seq::<Node1>::empty());
        assert(full.nodes.skip(ms.len() as int) =~= Seq::<Node1>::empty());
        assert(full.vals.skip(ms.len() as int) =~= Seq::<Scalar>::empty());
        lemma_models_of(ts@);
        assert forall|i: int| 0 <= i < models_of(ts@).len() implies models_of(ts@)[i]
            == full.nodes[i] by {
            assert(models_of(ts@)[i] == ts@[i].model());
        }
        assert(models_of(ts@) =~= full.nodes);
        assert(vals@ =~= full.vals);
        assert forall|i: int| 0 <= i < full.nodes.len() implies #[trigger] ok1(
            full.nodes[i],
            b,
            data.vars.names().len() as int,
        ) by {
            assert(ok1(ts@[i].model(), b, data.vars.names().len() as int));
            assert(ts@[i].model() == full.nodes[i]);
        }
        lemma_ok_list_index(full.nodes, b, data.vars.names().len() as int);
        assert(depth_list(models_of(ts@)) == depth_list(ms));
        assert(ok_list(models_of(ts@), b, data.vars.names().len() as int));
        assert(models_of(ts@) == full.nodes);
        assert(vals@ == full.vals);
        assert(data.vars.names() == full.names);
        assert(data.vars.values() == full.values);
        assert(data.vars.grew_from(d0.vars));
        assert(data.vars.wf());
    }
    vals
}


impl Movesampler1D {
    /// Samples this node against the context: the one public entry of the
    /// scalar engine. The result, the node's advanced state and the
    /// registry's new contents are exactly [`eval_node`] of the old node and
    /// context.
    pub fn sample<A: ScalarArith>(&mut self, data: &mut SamplerData<A>) -> (r: Scalar)
        requires
            sample_req(old(self).model(), *old(data)),
        ensures
            sample_ens(old(self).model(), *old(data), final(self).model(), *final(data), r),
        decreases depth1(old(self).model()), 1nat,
    {
        match self {
            Movesampler1D::Constant(v) => {
                proof {
                    crate::variable_holder::lemma_grew_refl(data.vars);
                }
                *v
            },
            Movesampler1D::Time(t) => t.sample(data),
            Movesampler1D::MouseClick(m) => m.sample(data),
            Movesampler1D::Remap(m) => m.sample(data),
            Movesampler1D::Add(a) => a.sample(data),
            Movesampler1D::Subtract(s) => s.sample(data),
            Movesampler1D::Multiply(m) => m.sample(data),
            Movesampler1D::Divide(d) => d.sample(data),
            Movesampler1D::Power(p) => p.sample(data),
            Movesampler1D::Modulo(m) => m.sample(data),
            Movesampler1D::MouseClickCounter(m) => m.sample(data),
            Movesampler1D::CounterReset(c) => c.sample(data),
            Movesampler1D::Switch(s) => s.sample(data),
            Movesampler1D::KeyPress(k) => k.sample(data),
            Movesampler1D::DeltaTime(d) => d.sample(data),
            Movesampler1D::VariableGet(v) => v.sample(data),
            Movesampler1D::VariableSet(v) => v.sample(data),
            Movesampler1D::Expressions(e) => e.sample(data),
        }
    }
}

impl MouseClick {
    pub fn sample<A: ScalarArith>(&mut self, data: &mut SamplerData<A>) -> (r: Scalar)
        requires
            sample_req(old(self).model(), *old(data)),
        ensures
            sample_ens(old(self).model(), *old(data), final(self).model(), *final(data), r),
        decreases depth1(old(self).model()), 0nat,
    {
        let ghost n0 = old(self).model();
        let ghost c0 = old(data).model();
        let ghost f = (depth1(n0) - 1) as nat;
        let pressed = data.input.buttons[self.mouse_button];
        if pressed && data.arith.le(self.value, Scalar::zero()) {
            self.value = data.arith.one();
        }
        if data.arith.gt(self.value, Scalar::zero()) {
            proof {
                lemma_eval1_fuel(old(self).mouse_timer_decrease.model(), c0, f);
            }
            let dec = self.mouse_timer_decrease.sample(data);
            self.value = data.arith.sub(self.value, dec);
        } else {
            proof {
                crate::variable_holder::lemma_grew_refl(data.vars);
            }
        }
        self.value
    }
}

impl Remap {
    pub fn sample<A: ScalarArith>(&mut self, data: &mut SamplerData<A>) -> (r: Scalar)
        requires
            sample_req(old(self).model(), *old(data)),
        ensures
            sample_ens(old(self).model(), *old(data), final(self).model(), *final(data), r),
        decreases depth1(old(self).model()), 0nat,
    {
        let ghost n0 = old(self).model();
        let ghost c0 = old(data).model();
        let ghost f = (depth1(n0) - 1) as nat;
        proof {
            lemma_eval1_fuel(old(self).sampler.model(), c0, f);
        }
        let before = self.sampler.sample(data);
        let before_range = data.arith.sub(self.before_max, self.before_min);
        let after_range = data.arith.sub(self.after_max, self.after_min);
        let normalized = data.arith.div(data.arith.sub(before, self.before_min), before_range);
        data.arith.add(data.arith.mul(normalized, after_range), self.after_min)
    }
}

impl Subtract {
    pub fn sample<A: ScalarArith>(&mut self, data: &mut SamplerData<A>) -> (r: Scalar)
        requires
            sample_req(old(self).model(), *old(data)),
        ensures
            sample_ens(old(self).model(), *old(data), final(self).model(), *final(data), r),
        decreases depth1(old(self).model()), 0nat,
    {
        let ghost n0 = old(self).model();
        let ghost c0 = old(data).model();
        let ghost f = (depth1(n0) - 1) as nat;
        proof {
            lemma_eval1_fuel(old(self).pos.model(), c0, f);
        }
        let x = self.pos.sample(data);
        let ghost mid = data.vars;
        proof {
            lemma_eval1_fuel(old(self).neg.model(), data.model(), f);
            lemma_ok1_mono(
                old(self).neg.model(),
                data.input.buttons@.len() as int,
                old(data).vars.names().len() as int,
                data.vars.names().len() as int,
            );
        }
        let y = self.neg.sample(data);
        proof {
            crate::variable_holder::lemma_grew_trans(old(data).vars, mid, data.vars);
            lemma_ok1_mono(
                self.pos.model(),
                data.input.buttons@.len() as int,
                mid.names().len() as int,
                data.vars.names().len() as int,
            );
        }
        data.arith.sub(x, y)
    }
}

impl Divide {
    pub fn sample<A: ScalarArith>(&mut self, data: &mut SamplerData<A>) -> (r: Scalar)
        requires
            sample_req(old(self).model(), *old(data)),
        ensures
            sample_ens(old(self).model(), *old(data), final(self).model(), *final(data), r),
        decreases depth1(old(self).model()), 0nat,
    {
        let ghost n0 = old(self).model();
        let ghost c0 = old(data).model();
        let ghost f = (depth1(n0) - 1) as nat;
        proof {
            lemma_eval1_fuel(old(self).top.model(), c0, f);
        }
        let x = self.top.sample(data);
        let ghost mid = data.vars;
        proof {
            lemma_eval1_fuel(old(self).bottom.model(), data.model(), f);
            lemma_ok1_mono(
                old(self).bottom.model(),
                data.input.buttons@.len() as int,
                old(data).vars.names().len() as int,
                data.vars.names().len() as int,
            );
        }
        let y = self.bottom.sample(data);
        proof {
            crate::variable_holder::lemma_grew_trans(old(data).vars, mid, data.vars);
            lemma_ok1_mono(
                self.top.model(),
                data.input.buttons@.len() as int,
                mid.names().len() as int,
                data.vars.names().len() as int,
            );
        }
        data.arith.div(x, y)
    }
}

impl Power {
    pub fn sample<A: ScalarArith>(&mut self, data: &mut SamplerData<A>) -> (r: Scalar)
        requires
            sample_req(old(self).model(), *old(data)),
        ensures
            sample_ens(old(self).model(), *old(data), final(self).model(), *final(data), r),
        decreases depth1(old(self).model()), 0nat,
    {
        let ghost n0 = old(self).model();
        let ghost c0 = old(data).model();
        let ghost f = (depth1(n0) - 1) as nat;
        proof {
            lemma_eval1_fuel(old(self).base.model(), c0, f);
        }
        let x = self.base.sample(data);
        let ghost mid = data.vars;
        proof {
            lemma_eval1_fuel(old(self).exponent.model(), data.model(), f);
            lemma_ok1_mono(
                old(self).exponent.model(),
                data.input.buttons@.len() as int,
                old(data).vars.names().len() as int,
                data.vars.names().len() as int,
            );
        }
        let y = self.exponent.sample(data);
        proof {
            crate::variable_holder::lemma_grew_trans(old(data).vars, mid, data.vars);
            lemma_ok1_mono(
                self.base.model(),
                data.input.buttons@.len() as int,
                mid.names().len() as int,
                data.vars.names().len() as int,
            );
        }
        data.arith.pow(x, y)
    }
}

impl Modulo {
    pub fn sample<A: ScalarArith>(&mut self, data: &mut SamplerData<A>) -> (r: Scalar)
        requires
            sample_req(old(self).model(), *old(data)),
        ensures
            sample_ens(old(self).model(), *old(data), final(self).model(), *final(data), r),
        decreases depth1(old(self).model()), 0nat,
    {
        let ghost n0 = old(self).model();
        let ghost c0 = old(data).model();
        let ghost f = (depth1(n0) - 1) as nat;
        proof {
            lemma_eval1_fuel(old(self).base.model(), c0, f);
        }
        let x = self.base.sample(data);
        let ghost mid = data.vars;
        proof {
            lemma_eval1_fuel(old(self).divisor.model(), data.model(), f);
            lemma_ok1_mono(
                old(self).divisor.model(),
                data.input.buttons@.len() as int,
                old(data).vars.names().len() as int,
                data.vars.names().len() as int,
            );
        }
        let y = self.divisor.sample(data);
        proof {
            crate::variable_holder::lemma_grew_trans(old(data).vars, mid, data.vars);
            lemma_ok1_mono(
                self.base.model(),
                data.input.buttons@.len() as int,
                mid.names().len() as int,
                data.vars.names().len() as int,
            );
        }
        data.arith.rem(x, y)
    }
}

impl Switch {
    pub fn sample<A: ScalarArith>(&mut self, data: &mut SamplerData<A>) -> (r: Scalar)
        requires
            sample_req(old(self).model(), *old(data)),
        ensures
            sample_ens(old(self).model(), *old(data), final(self).model(), *final(data), r),
        decreases depth1(old(self).model()), 0nat,
    {
        let ghost n0 = old(self).model();
        let ghost c0 = old(data).model();
        let ghost f = (depth1(n0) - 1) as nat;
        proof {
            lemma_eval1_fuel(old(self).enable.model(), c0, f);
        }
        let en = self.enable.sample(data);
        let ghost mid = data.vars;
        proof {
            lemma_eval1_fuel(old(self).disable.model(), data.model(), f);
            lemma_ok1_mono(
                old(self).disable.model(),
                data.input.buttons@.len() as int,
                old(data).vars.names().len() as int,
                data.vars.names().len() as int,
            );
        }
        let dis = self.disable.sample(data);
        proof {
            crate::variable_holder::lemma_grew_trans(old(data).vars, mid, data.vars);
            lemma_ok1_mono(
                self.enable.model(),
                data.input.buttons@.len() as int,
                mid.names().len() as int,
                data.vars.names().len() as int,
            );
        }
        if data.arith.ge(en, data.arith.one()) {
            self.enabled = en;
        }
        if data.arith.ge(dis, data.arith.one()) {
            self.enabled = Scalar::zero();
        }
        self.enabled
    }
}

impl CounterReset {
    pub fn sample<A: ScalarArith>(&mut self, data: &mut SamplerData<A>) -> (r: Scalar)
        requires
            sample_req(old(self).model(), *old(data)),
        ensures
            sample_ens(old(self).model(), *old(data), final(self).model(), *final(data), r),
        decreases depth1(old(self).model()), 0nat,
    {
        let ghost n0 = old(self).model();
        let ghost c0 = old(data).model();
        let ghost f = (depth1(n0) - 1) as nat;
        proof {
            lemma_eval1_fuel(old(self).reset.model(), c0, f);
        }
        let reset = self.reset.sample(data);
        let ghost mid1 = data.vars;
        proof {
            lemma_eval1_fuel(old(self).counter.model(), data.model(), f);
            lemma_ok1_mono(
                old(self).counter.model(),
                data.input.buttons@.len() as int,
                old(data).vars.names().len() as int,
                data.vars.names().len() as int,
            );
        }
        if data.arith.ge(reset, data.arith.one()) {
            let latched = self.counter.sample(data);
            self.offset = latched;
            let ghost mid2 = data.vars;
            proof {
                lemma_eval1_fuel(self.counter.model(), data.model(), f);
            }
            let cnt = self.counter.sample(data);
            proof {
                crate::variable_holder::lemma_grew_trans(old(data).vars, mid1, mid2);
                crate::variable_holder::lemma_grew_trans(old(data).vars, mid2, data.vars);
                lemma_ok1_mono(
                    self.reset.model(),
                    data.input.buttons@.len() as int,
                    mid1.names().len() as int,
                    data.vars.names().len() as int,
                );
            }
            data.arith.sub(cnt, self.offset)
        } else {
            let cnt = self.counter.sample(data);
            proof {
                crate::variable_holder::lemma_grew_trans(old(data).vars, mid1, data.vars);
                lemma_ok1_mono(
                    self.reset.model(),
                    data.input.buttons@.len() as int,
                    mid1.names().len() as int,
                    data.vars.names().len() as int,
                );
            }
            data.arith.sub(cnt, self.offset)
        }
    }
}

impl VariableSet {
    pub fn sample<A: ScalarArith>(&mut self, data: &mut SamplerData<A>) -> (r: Scalar)
        requires
            sample_req(old(self).model(), *old(data)),
        ensures
            sample_ens(old(self).model(), *old(data), final(self).model(), *final(data), r),
        decreases depth1(old(self).model()), 0nat,
    {
        let ghost n0 = old(self).model();
        let ghost c0 = old(data).model();
        let ghost f = (depth1(n0) - 1) as nat;
        if self.variable_id.is_none() {
            let id = data.vars.add_key(&self.set_variable_name);
            self.variable_id = Some(id);
        } else {
            proof {
                crate::variable_holder::lemma_grew_refl(data.vars);
            }
        }
        let id = self.variable_id.unwrap();
        let ghost mid = data.vars;
        proof {
            lemma_eval1_fuel(old(self).value.model(), data.model(), f);
            lemma_ok1_mono(
                old(self).value.model(),
                data.input.buttons@.len() as int,
                old(data).vars.names().len() as int,
                data.vars.names().len() as int,
            );
        }
        let value = self.value.sample(data);
        proof {
            crate::variable_holder::lemma_grew_trans(old(data).vars, mid, data.vars);
        }
        data.vars.set(id, value);
        proof {
            crate::variable_holder::lemma_grew_trans(old(data).vars, mid, data.vars);
        }
        value
    }
}

impl Add {
    pub fn sample<A: ScalarArith>(&mut self, data: &mut SamplerData<A>) -> (r: Scalar)
        requires
            sample_req(old(self).model(), *old(data)),
        ensures
            sample_ens(old(self).model(), *old(data), final(self).model(), *final(data), r),
        decreases depth1(old(self).model()), 0nat,
    {
        let ghost a = data.arith;
        let ghost ms0 = models_of(self.terms@);
        let vals = sample_all(&mut self.terms, data, Ghost(ms0));
        let mut acc = Scalar::zero();
        let mut i: usize = 0;
        proof {
            assert(vals@.skip(0) =~= vals@);
        }
        while i < vals.len()
            invariant
                a == data.arith,
                i <= vals@.len(),
                fold_add(a, vals@.skip(i as int), acc) == fold_add(
                    a,
                    vals@,
                    Scalar::zero_spec(),
                ),
            decreases vals@.len() - i,
        {
            proof {
                assert(vals@.skip(i as int)[0] == vals@[i as int]);
                assert(vals@.skip(i as int).drop_first() =~= vals@.skip(i as int + 1));
            }
            acc = data.arith.add(acc, vals[i]);
            i += 1;
        }
        proof {
            assert(vals@.skip(vals@.len() as int) =~= Seq::<Scalar>::empty());
        }
        acc
    }
}

impl Multiply {
    pub fn sample<A: ScalarArith>(&mut self, data: &mut SamplerData<A>) -> (r: Scalar)
        requires
            sample_req(old(self).model(), *old(data)),
        ensures
            sample_ens(old(self).model(), *old(data), final(self).model(), *final(data), r),
        decreases depth1(old(self).model()), 0nat,
    {
        let ghost a = data.arith;
        let ghost ms0 = models_of(self.factors@);
        let vals = sample_all(&mut self.factors, data, Ghost(ms0));
        let mut acc = data.arith.one();
        let mut i: usize = 0;
        proof {
            assert(vals@.skip(0) =~= vals@);
        }
        while i < vals.len()
            invariant
                a == data.arith,
                i <= vals@.len(),
                fold_mul(a, vals@.skip(i as int), acc) == fold_mul(a, vals@, a.one_spec()),
            decreases vals@.len() - i,
        {
            proof {
                assert(vals@.skip(i as int)[0] == vals@[i as int]);
                assert(vals@.skip(i as int).drop_first() =~= vals@.skip(i as int + 1));
            }
            acc = data.arith.mul(acc, vals[i]);
            i += 1;
        }
        proof {
            assert(vals@.skip(vals@.len() as int) =~= Seq::<Scalar>::empty());
        }
        acc
    }
}

impl Expressions {
    pub fn sample<A: ScalarArith>(&mut self, data: &mut SamplerData<A>) -> (r: Scalar)
        requires
            sample_req(old(self).model(), *old(data)),
        ensures
            sample_ens(old(self).model(), *old(data), final(self).model(), *final(data), r),
        decreases depth1(old(self).model()), 0nat,
    {
        let ghost ms0 = models_of(self.expressions@);
        let vals = sample_all(&mut self.expressions, data, Ghost(ms0));
        if vals.len() == 0 {
            Scalar::zero()
        } else {
            vals[vals.len() - 1]
        }
    }
}


/// Whether a node is fit for sampling against a snapshot with `nbuttons`
/// buttons and a registry of `nvars` slots: the executable mirror of
/// [`ok1`], so a driver can test a freshly loaded tree before the engine's
/// samplers (whose contracts require fitness) ever run.
pub fn check_ok(n: &Movesampler1D, nbuttons: usize, nvars: usize) -> (b: bool)
    ensures
        b == ok1(n.model(), nbuttons as int, nvars as int),
    decreases *n,
{
    match n {
        Movesampler1D::Constant(v) => true,
        Movesampler1D::Time(t) => true,
        Movesampler1D::MouseClick(m) => m.mouse_button < nbuttons && check_ok(
            &m.mouse_timer_decrease,
            nbuttons,
            nvars,
        ),
        Movesampler1D::Remap(m) => check_ok(&m.sampler, nbuttons, nvars),
        Movesampler1D::Add(a) => check_ok_all(&a.terms, nbuttons, nvars),
        Movesampler1D::Subtract(s) => check_ok(&s.pos, nbuttons, nvars) && check_ok(
            &s.neg,
            nbuttons,
            nvars,
        ),
        Movesampler1D::Multiply(m) => check_ok_all(&m.factors, nbuttons, nvars),
        Movesampler1D::Divide(d) => check_ok(&d.top, nbuttons, nvars) && check_ok(
            &d.bottom,
            nbuttons,
            nvars,
        ),
        Movesampler1D::Power(p) => check_ok(&p.base, nbuttons, nvars) && check_ok(
            &p.exponent,
            nbuttons,
            nvars,
        ),
        Movesampler1D::Modulo(m) => check_ok(&m.base, nbuttons, nvars) && check_ok(
            &m.divisor,
            nbuttons,
            nvars,
        ),
        Movesampler1D::MouseClickCounter(m) => m.mouse_click_counter_button < nbuttons,
        Movesampler1D::CounterReset(c) => check_ok(&c.counter, nbuttons, nvars) && check_ok(
            &c.reset,
            nbuttons,
            nvars,
        ),
        Movesampler1D::Switch(s) => check_ok(&s.enable, nbuttons, nvars) && check_ok(
            &s.disable,
            nbuttons,
            nvars,
        ),
        Movesampler1D::KeyPress(k) => {
            if k.fixed_keys.len() > 0 {
                true
            } else {
                let ghost names = k.keys@.map(|i: int, s: String| s@);
                let mut i: usize = 0;
                while i < k.keys.len()
                    invariant
                        *n == Movesampler1D::KeyPress(*k),
                        k.fixed_keys@.len() == 0,
                        i <= k.keys@.len(),
                        names == k.keys@.map(|j: int, s: String| s@),
                        forall|j: int| 0 <= j < i ==> #[trigger] keycode_id(names[j]).is_some(),
                    decreases k.keys@.len() - i,
                {
                    proof {
                        assert(names[i as int] == k.keys@[i as int]@);
                    }
                    if resolve_keycode(&k.keys[i]).is_none() {
                        proof {
                            assert(keycode_id(names[i as int]).is_none());
                        }
                        return false;
                    }
                    i += 1;
                }
                true
            }
        },
        Movesampler1D::DeltaTime(d) => true,
        Movesampler1D::VariableGet(v) => match v.variable_id {
            Some(i) => i < nvars,
            None => true,
        },
        Movesampler1D::VariableSet(v) => (match v.variable_id {
            Some(i) => i < nvars,
            None => true,
        }) && check_ok(&v.value, nbuttons, nvars),
        Movesampler1D::Expressions(e) => check_ok_all(&e.expressions, nbuttons, nvars),
    }
}

/// [`check_ok`] over every node of a list.
fn check_ok_all(ts: &Vec<Movesampler1D>, nbuttons: usize, nvars: usize) -> (b: bool)
    ensures
        b == ok_list(models_of(ts@), nbuttons as int, nvars as int),
    decreases ts@,
{
    let ghost ms = models_of(ts@);
    proof {
        lemma_models_of(ts@);
        lemma_ok_list_index(ms, nbuttons as int, nvars as int);
    }
    let mut i: usize = 0;
    while i < ts.len()
        invariant
            i <= ts@.len(),
            ms == models_of(ts@),
            ms.len() == ts@.len(),
            forall|j: int| 0 <= j < ms.len() ==> ms[j] == #[trigger] ts@[j].model(),
            forall|j: int| 0 <= j < i ==> #[trigger] ok1(ms[j], nbuttons as int, nvars as int),
        decreases ts@.len() - i,
    {
        proof {
            assert(decreases_to!(ts@ => ts@[i as int]));
        }
        if !check_ok(&ts[i], nbuttons, nvars) {
            proof {
                lemma_ok_list_index(ms, nbuttons as int, nvars as int);
            }
            return false;
        }
        i += 1;
    }
    proof {
        lemma_ok_list_index(ms, nbuttons as int, nvars as int);
    }
    true
}

impl Movesampler1D {
    /// Samples this node if it is fit for the context, and reports an unfit
    /// tree (an unresolvable key name, a button index beyond the snapshot, a
    /// stale cached slot) instead of sampling: the entry for a driver that
    /// has not established fitness itself.
    pub fn try_sample<A: ScalarArith>(&mut self, data: &mut SamplerData<A>) -> (r: Option<Scalar>)
        requires
            old(data).vars.wf(),
        ensures
            match r {
                Some(v) => ok1(
                    old(self).model(),
                    old(data).input.buttons@.len() as int,
                    old(data).vars.names().len() as int,
                ) && sample_ens(old(self).model(), *old(data), final(self).model(), *final(data), v),
                None => !ok1(
                    old(self).model(),
                    old(data).input.buttons@.len() as int,
                    old(data).vars.names().len() as int,
                ) && *final(self) == *old(self) && *final(data) == *old(data),
            },
    {
        let fit = check_ok(self, data.input.buttons.len(), data.vars.len());
        if fit {
            Some(self.sample(data))
        } else {
            None
        }
    }
}

/// A constant node samples to its payload on every call, in any context,
/// with no effect on the registry or on itself.
pub proof fn lemma_constant_samples_to_itself<A: ScalarArith>(c: Scalar, ctx: Ctx<A>)
    ensures
        eval_node(Node1::Constant(c), ctx) == (Out1 {
            node: Node1::Constant(c),
            names: ctx.names,
            values: ctx.values,
            val: c,
        }),
{
}

/// An expression list samples to the value of its last element alone, while
/// the side effects of every element, in order, stay in the registry.
pub proof fn lemma_expressions_last<A: ScalarArith>(exprs: Seq<Node1>, ctx: Ctx<A>)
    requires
        exprs.len() > 0,
    ensures
        eval_node(Node1::Expressions { exprs }, ctx).val == eval_nodes(exprs, ctx).vals.last(),
        eval_node(Node1::Expressions { exprs }, ctx).names == eval_nodes(exprs, ctx).names,
        eval_node(Node1::Expressions { exprs }, ctx).values == eval_nodes(exprs, ctx).values,
{
    let d = depth1(Node1::Expressions { exprs });
    assert(d == 1 + depth_list(exprs));
    lemma_eval_list_fuel(exprs, ctx, depth_list(exprs));
    assert(eval_node(Node1::Expressions { exprs }, ctx) == eval1(
        Node1::Expressions { exprs },
        ctx,
        d,
    ));
    assert(eval_nodes(exprs, ctx).vals.len() == exprs.len());
}

/// How a switch latches: the `enable` sample is held when it reaches one,
/// the `disable` sample (always evaluated, afterwards) overrides the latch
/// to zero when it reaches one, and otherwise the previous state persists.
pub proof fn lemma_switch_latch<A: ScalarArith>(e: Scalar, d: Scalar, held: Scalar, ctx: Ctx<A>)
    ensures
        eval_node(
            Node1::Switch {
                enable: Box::new(Node1::Constant(e)),
                disable: Box::new(Node1::Constant(d)),
                enabled: held,
            },
            ctx,
        ).val == if ctx.arith.ge_spec(d, ctx.arith.one_spec()) {
            Scalar::zero_spec()
        } else if ctx.arith.ge_spec(e, ctx.arith.one_spec()) {
            e
        } else {
            held
        },
        eval_node(
            Node1::Switch {
                enable: Box::new(Node1::Constant(e)),
                disable: Box::new(Node1::Constant(d)),
                enabled: held,
            },
            ctx,
        ).names == ctx.names,
{
    let n = Node1::Switch {
        enable: Box::new(Node1::Constant(e)),
        disable: Box::new(Node1::Constant(d)),
        enabled: held,
    };
    assert(depth1(Node1::Constant(e)) == 1);
    assert(depth1(Node1::Constant(d)) == 1);
    assert(depth1(n) == 2);
    assert(eval1(Node1::Constant(e), ctx, 1) == (Out1 {
        node: Node1::Constant(e),
        names: ctx.names,
        values: ctx.values,
        val: e,
    }));
    let c1 = Ctx { names: ctx.names, values: ctx.values, ..ctx };
    assert(c1 == ctx);
    assert(eval1(Node1::Constant(d), ctx, 1) == (Out1 {
        node: Node1::Constant(d),
        names: ctx.names,
        values: ctx.values,
        val: d,
    }));
}


/// [`lemma_ok1_mono`], phrased on registries: fitness survives any growth
/// of the registry.
pub proof fn lemma_ok1_mono_holder(n: Node1, nbuttons: int, pre: DataHolder, post: DataHolder)
    requires
        ok1(n, nbuttons, pre.names().len() as int),
        post.grew_from(pre),
    ensures
        ok1(n, nbuttons, post.names().len() as int),
{
    lemma_ok1_mono(n, nbuttons, pre.names().len() as int, post.names().len() as int);
}


/// The sampling interface of scalar samplers, for code written against the
/// interface rather than the node type itself.
pub trait Sampler1D<A: ScalarArith>: Sized {
    /// The spec-level image of this sampler.
    spec fn node(&self) -> Node1;

    /// Samples this node against the context, as [`eval_node`] describes.
    fn sample(&mut self, data: &mut SamplerData<A>) -> (r: Scalar)
        requires
            sample_req(old(self).node(), *old(data)),
        ensures
            sample_ens(old(self).node(), *old(data), final(self).node(), *final(data), r),
    ;
}

impl<A: ScalarArith> Sampler1D<A> for Movesampler1D {
    open spec fn node(&self) -> Node1 {
        self.model()
    }

    fn sample(&mut self, data: &mut SamplerData<A>) -> (r: Scalar) {
        Movesampler1D::sample(self, data)
    }
}

} // verus!
