use cursor_shower::linear_samplers::{
    Add, CounterReset, DeltaTime, Divide, Expressions, InputSnapshot, KeyPress, Modulo, MouseClick,
    MouseClickCounter, Movesampler1D, Multiply, Power, Remap, SamplerData, Subtract, Switch, Time,
    VariableGet, VariableSet,
};
use cursor_shower::scalar::{Scalar, ScalarArith};
use cursor_shower::variable_holder::DataHolder;

/// The intended arithmetic: each word read as an IEEE-754 single.
struct F32;

impl ScalarArith for F32 {
    // The erased spec models of the operations: here, the operations
    // themselves.
    fn one_spec(&self) -> Scalar {
        self.one()
    }
    fn two_spec(&self) -> Scalar {
        self.two()
    }
    fn pi_spec(&self) -> Scalar {
        self.pi()
    }
    fn add_spec(&self, a: Scalar, b: Scalar) -> Scalar {
        self.add(a, b)
    }
    fn sub_spec(&self, a: Scalar, b: Scalar) -> Scalar {
        self.sub(a, b)
    }
    fn mul_spec(&self, a: Scalar, b: Scalar) -> Scalar {
        self.mul(a, b)
    }
    fn div_spec(&self, a: Scalar, b: Scalar) -> Scalar {
        self.div(a, b)
    }
    fn rem_spec(&self, a: Scalar, b: Scalar) -> Scalar {
        self.rem(a, b)
    }
    fn pow_spec(&self, a: Scalar, b: Scalar) -> Scalar {
        self.pow(a, b)
    }
    fn sin_spec(&self, a: Scalar) -> Scalar {
        self.sin(a)
    }
    fn cos_spec(&self, a: Scalar) -> Scalar {
        self.cos(a)
    }
    fn le_spec(&self, a: Scalar, b: Scalar) -> bool {
        self.le(a, b)
    }
    fn gt_spec(&self, a: Scalar, b: Scalar) -> bool {
        self.gt(a, b)
    }
    fn ge_spec(&self, a: Scalar, b: Scalar) -> bool {
        self.ge(a, b)
    }
    fn of_i32_spec(&self, v: i32) -> Scalar {
        self.of_i32(v)
    }
    fn of_u32_spec(&self, v: u32) -> Scalar {
        self.of_u32(v)
    }
    fn to_i32_spec(&self, a: Scalar) -> i32 {
        self.to_i32(a)
    }
    fn one(&self) -> Scalar {
        Scalar { bits: 1.0f32.to_bits() }
    }
    fn two(&self) -> Scalar {
        Scalar { bits: 2.0f32.to_bits() }
    }
    fn pi(&self) -> Scalar {
        Scalar { bits: std::f32::consts::PI.to_bits() }
    }
    fn add(&self, a: Scalar, b: Scalar) -> Scalar {
        Scalar { bits: (f32::from_bits(a.bits) + f32::from_bits(b.bits)).to_bits() }
    }
    fn sub(&self, a: Scalar, b: Scalar) -> Scalar {
        Scalar { bits: (f32::from_bits(a.bits) - f32::from_bits(b.bits)).to_bits() }
    }
    fn mul(&self, a: Scalar, b: Scalar) -> Scalar {
        Scalar { bits: (f32::from_bits(a.bits) * f32::from_bits(b.bits)).to_bits() }
    }
    fn div(&self, a: Scalar, b: Scalar) -> Scalar {
        Scalar { bits: (f32::from_bits(a.bits) / f32::from_bits(b.bits)).to_bits() }
    }
    fn rem(&self, a: Scalar, b: Scalar) -> Scalar {
        Scalar { bits: (f32::from_bits(a.bits) % f32::from_bits(b.bits)).to_bits() }
    }
    fn pow(&self, a: Scalar, b: Scalar) -> Scalar {
        Scalar { bits: f32::from_bits(a.bits).powf(f32::from_bits(b.bits)).to_bits() }
    }
    fn sin(&self, a: Scalar) -> Scalar {
        Scalar { bits: f32::from_bits(a.bits).sin().to_bits() }
    }
    fn cos(&self, a: Scalar) -> Scalar {
        Scalar { bits: f32::from_bits(a.bits).cos().to_bits() }
    }
    fn le(&self, a: Scalar, b: Scalar) -> bool {
        f32::from_bits(a.bits) <= f32::from_bits(b.bits)
    }
    fn gt(&self, a: Scalar, b: Scalar) -> bool {
        f32::from_bits(a.bits) > f32::from_bits(b.bits)
    }
    fn ge(&self, a: Scalar, b: Scalar) -> bool {
        f32::from_bits(a.bits) >= f32::from_bits(b.bits)
    }
    fn of_i32(&self, v: i32) -> Scalar {
        Scalar { bits: (v as f32).to_bits() }
    }
    fn of_u32(&self, v: u32) -> Scalar {
        Scalar { bits: (v as f32).to_bits() }
    }
    fn to_i32(&self, a: Scalar) -> i32 {
        f32::from_bits(a.bits) as i32
    }
}

fn sc(v: f32) -> Scalar {
    Scalar { bits: v.to_bits() }
}

fn fv(s: Scalar) -> f32 {
    f32::from_bits(s.bits)
}

fn quiet_input() -> InputSnapshot {
    InputSnapshot { mouse_x: 0, mouse_y: 0, buttons: vec![false; 6], keys_held: Vec::new() }
}

fn ctx(t: f32) -> SamplerData<F32> {
    SamplerData { t: sc(t), vars: DataHolder::new(), input: quiet_input(), arith: F32 }
}

fn constant(v: f32) -> Movesampler1D {
    Movesampler1D::Constant(sc(v))
}

#[test]
fn constant_samples_to_its_value_every_call() {
    let mut data = ctx(0.0);
    let mut node = constant(5.25);
    assert_eq!(fv(node.sample(&mut data)), 5.25);
    data.t = sc(99.0);
    assert_eq!(fv(node.sample(&mut data)), 5.25);
    let mut neg = constant(-3.5);
    assert_eq!(fv(neg.sample(&mut data)), -3.5);
}

#[test]
fn time_scales_the_clock() {
    let mut data = ctx(4.0);
    let mut node = Movesampler1D::Time(Time { speed: sc(0.5) });
    assert_eq!(fv(node.sample(&mut data)), 2.0);
}

#[test]
fn map_remaps_linearly() {
    let mut data = ctx(0.0);
    let mut node = Movesampler1D::Remap(Remap {
        before_min: sc(0.0),
        before_max: sc(10.0),
        after_min: sc(0.0),
        after_max: sc(100.0),
        sampler: Box::new(constant(5.0)),
    });
    assert_eq!(fv(node.sample(&mut data)), 50.0);
}

#[test]
fn map_with_empty_input_range_is_non_finite_not_a_panic() {
    let mut data = ctx(0.0);
    let mut node = Movesampler1D::Remap(Remap {
        before_min: sc(3.0),
        before_max: sc(3.0),
        after_min: sc(0.0),
        after_max: sc(100.0),
        sampler: Box::new(constant(5.0)),
    });
    let out = fv(node.sample(&mut data));
    assert!(!out.is_finite());
}

#[test]
fn add_sums_terms() {
    let mut data = ctx(0.0);
    let mut node = Movesampler1D::Add(Add { terms: vec![constant(2.0), constant(3.0)] });
    assert_eq!(fv(node.sample(&mut data)), 5.0);
}

#[test]
fn add_of_nothing_is_zero() {
    let mut data = ctx(0.0);
    let mut node = Movesampler1D::Add(Add { terms: Vec::new() });
    assert_eq!(fv(node.sample(&mut data)), 0.0);
}

#[test]
fn subtract_and_divide_and_power_and_modulo() {
    let mut data = ctx(0.0);
    let mut s = Movesampler1D::Subtract(Subtract {
        pos: Box::new(constant(7.0)),
        neg: Box::new(constant(2.5)),
    });
    assert_eq!(fv(s.sample(&mut data)), 4.5);
    let mut d = Movesampler1D::Divide(Divide {
        top: Box::new(constant(7.0)),
        bottom: Box::new(constant(2.0)),
    });
    assert_eq!(fv(d.sample(&mut data)), 3.5);
    let mut p = Movesampler1D::Power(Power {
        base: Box::new(constant(2.0)),
        exponent: Box::new(constant(10.0)),
    });
    assert_eq!(fv(p.sample(&mut data)), 1024.0);
    let mut m = Movesampler1D::Modulo(Modulo {
        base: Box::new(constant(7.5)),
        divisor: Box::new(constant(2.0)),
    });
    assert_eq!(fv(m.sample(&mut data)), 1.5);
}

#[test]
fn divide_by_zero_propagates_ieee_semantics() {
    let mut data = ctx(0.0);
    let mut d = Movesampler1D::Divide(Divide {
        top: Box::new(constant(1.0)),
        bottom: Box::new(constant(0.0)),
    });
    assert!(fv(d.sample(&mut data)).is_infinite());
}

#[test]
fn multiply_folds_from_one() {
    let mut data = ctx(0.0);
    let mut node = Movesampler1D::Multiply(Multiply {
        factors: vec![constant(2.0), constant(3.0), constant(4.0)],
    });
    assert_eq!(fv(node.sample(&mut data)), 24.0);
    let mut empty = Movesampler1D::Multiply(Multiply { factors: Vec::new() });
    assert_eq!(fv(empty.sample(&mut data)), 1.0);
}

#[test]
fn delta_time_spans_since_previous_sample() {
    let mut data = ctx(2.0);
    let mut node = Movesampler1D::DeltaTime(DeltaTime {
        delta_time_multiplier: sc(1.0),
        last_time: sc(0.0),
    });
    assert_eq!(fv(node.sample(&mut data)), 2.0);
    data.t = sc(3.0);
    assert_eq!(fv(node.sample(&mut data)), 1.0);
    data.t = sc(3.5);
    assert_eq!(fv(node.sample(&mut data)), 0.5);
}

#[test]
fn variable_set_then_get_reads_the_written_value() {
    let mut data = ctx(0.0);
    let mut set = Movesampler1D::VariableSet(VariableSet {
        set_variable_name: String::from("x"),
        value: Box::new(constant(7.0)),
        variable_id: None,
    });
    assert_eq!(fv(set.sample(&mut data)), 7.0);
    let mut get = Movesampler1D::VariableGet(VariableGet {
        variable_name: String::from("x"),
        variable_id: None,
    });
    assert_eq!(fv(get.sample(&mut data)), 7.0);
}

#[test]
fn variable_nodes_with_one_name_share_a_slot() {
    let mut data = ctx(0.0);
    let mut a = VariableGet { variable_name: String::from("x"), variable_id: None };
    let mut b = VariableGet { variable_name: String::from("x"), variable_id: None };
    let mut other = VariableGet { variable_name: String::from("y"), variable_id: None };
    a.sample(&mut data);
    other.sample(&mut data);
    b.sample(&mut data);
    assert_eq!(a.variable_id, Some(0));
    assert_eq!(other.variable_id, Some(1));
    assert_eq!(b.variable_id, Some(0));
}

#[test]
fn unwritten_variable_reads_zero() {
    let mut data = ctx(0.0);
    let mut get = Movesampler1D::VariableGet(VariableGet {
        variable_name: String::from("fresh"),
        variable_id: None,
    });
    assert_eq!(fv(get.sample(&mut data)), 0.0);
}

#[test]
fn switch_latches_enable_until_disable_fires() {
    let mut data = ctx(0.0);
    let mut node = Movesampler1D::Switch(Switch {
        enable: Box::new(constant(1.0)),
        disable: Box::new(constant(0.0)),
        enabled: sc(0.0),
    });
    assert_eq!(fv(node.sample(&mut data)), 1.0);
    assert_eq!(fv(node.sample(&mut data)), 1.0);
    if let Movesampler1D::Switch(s) = &mut node {
        s.disable = Box::new(constant(1.0));
    }
    assert_eq!(fv(node.sample(&mut data)), 0.0);
}

#[test]
fn expressions_yield_the_last_value_and_keep_all_side_effects() {
    let mut data = ctx(0.0);
    let mut node = Movesampler1D::Expressions(Expressions {
        expressions: vec![
            Movesampler1D::VariableSet(VariableSet {
                set_variable_name: String::from("y"),
                value: Box::new(constant(1.0)),
                variable_id: None,
            }),
            Movesampler1D::VariableSet(VariableSet {
                set_variable_name: String::from("y"),
                value: Box::new(constant(2.0)),
                variable_id: None,
            }),
        ],
    });
    assert_eq!(fv(node.sample(&mut data)), 2.0);
    let slot = data.vars.get_key(&String::from("y")).unwrap();
    assert_eq!(fv(data.vars.get(slot)), 2.0);
}

#[test]
fn empty_expressions_yield_zero() {
    let mut data = ctx(0.0);
    let mut node = Movesampler1D::Expressions(Expressions { expressions: Vec::new() });
    assert_eq!(fv(node.sample(&mut data)), 0.0);
}

#[test]
fn mouse_click_arms_and_decays_without_a_floor() {
    let mut data = ctx(0.0);
    data.input.buttons[1] = true;
    let mut node = Movesampler1D::MouseClick(MouseClick {
        mouse_timer_decrease: Box::new(constant(0.25)),
        mouse_button: 1,
        force_full_cycle: false,
        value: sc(0.0),
    });
    assert_eq!(fv(node.sample(&mut data)), 0.75);
    assert_eq!(fv(node.sample(&mut data)), 0.5);
    assert_eq!(fv(node.sample(&mut data)), 0.25);
    assert_eq!(fv(node.sample(&mut data)), 0.0);
    // At zero the pulse re-arms while the button is held.
    assert_eq!(fv(node.sample(&mut data)), 0.75);
    // With a larger decrement the value drifts negative and stays there
    // once the button is released.
    let mut deep = Movesampler1D::MouseClick(MouseClick {
        mouse_timer_decrease: Box::new(constant(1.5)),
        mouse_button: 1,
        force_full_cycle: false,
        value: sc(0.0),
    });
    assert_eq!(fv(deep.sample(&mut data)), -0.5);
    data.input.buttons[1] = false;
    assert_eq!(fv(deep.sample(&mut data)), -0.5);
}

#[test]
fn mouse_click_counter_counts_frames_held() {
    let mut data = ctx(0.0);
    data.input.buttons[2] = true;
    let mut node = Movesampler1D::MouseClickCounter(MouseClickCounter {
        mouse_click_counter_button: 2,
        counter: 0,
    });
    assert_eq!(fv(node.sample(&mut data)), 1.0);
    assert_eq!(fv(node.sample(&mut data)), 2.0);
    data.input.buttons[2] = false;
    assert_eq!(fv(node.sample(&mut data)), 2.0);
    data.input.buttons[2] = true;
    assert_eq!(fv(node.sample(&mut data)), 3.0);
}

#[test]
fn counter_reset_latches_and_double_samples_its_counter() {
    let mut data = ctx(0.0);
    data.input.buttons[0] = true;
    let mut node = Movesampler1D::CounterReset(CounterReset {
        counter: Box::new(Movesampler1D::MouseClickCounter(MouseClickCounter {
            mouse_click_counter_button: 0,
            counter: 0,
        })),
        reset: Box::new(constant(1.0)),
        offset: sc(0.0),
    });
    // The reset fires: the counter is sampled once to latch the offset and
    // once more for the result, so its side effect lands twice this frame.
    assert_eq!(fv(node.sample(&mut data)), 1.0);
    if let Movesampler1D::CounterReset(c) = &node {
        assert_eq!(fv(c.offset), 1.0);
        if let Movesampler1D::MouseClickCounter(m) = c.counter.as_ref() {
            assert_eq!(m.counter, 2);
        } else {
            panic!("counter child changed shape");
        }
    } else {
        panic!("node changed shape");
    }
    let mut quiet = Movesampler1D::CounterReset(CounterReset {
        counter: Box::new(Movesampler1D::MouseClickCounter(MouseClickCounter {
            mouse_click_counter_button: 0,
            counter: 0,
        })),
        reset: Box::new(constant(0.0)),
        offset: sc(0.0),
    });
    // Without a reset the counter is sampled exactly once.
    assert_eq!(fv(quiet.sample(&mut data)), 1.0);
    assert_eq!(fv(quiet.sample(&mut data)), 2.0);
}

#[test]
fn key_press_counts_named_keys_currently_held() {
    let mut data = ctx(0.0);
    data.input.keys_held = vec![
        device_query::Keycode::A as u16,
        device_query::Keycode::Space as u16,
    ];
    let mut node = Movesampler1D::KeyPress(KeyPress {
        keys: vec![String::from("A"), String::from("Z"), String::from("Space")],
        fixed_keys: Vec::new(),
    });
    assert_eq!(fv(node.sample(&mut data)), 2.0);
    // The resolution is cached after the first sample.
    if let Movesampler1D::KeyPress(k) = &node {
        assert_eq!(k.fixed_keys.len(), 3);
        assert_eq!(k.fixed_keys[0], device_query::Keycode::A as u16);
    } else {
        panic!("node changed shape");
    }
    data.input.keys_held = Vec::new();
    assert_eq!(fv(node.sample(&mut data)), 0.0);
}

#[test]
fn try_sample_rejects_an_unresolvable_key_name() {
    let mut data = ctx(0.0);
    let mut bad = Movesampler1D::KeyPress(KeyPress {
        keys: vec![String::from("NotAKeyName")],
        fixed_keys: Vec::new(),
    });
    assert!(bad.try_sample(&mut data).is_none());
    let mut good = Movesampler1D::KeyPress(KeyPress {
        keys: vec![String::from("Enter")],
        fixed_keys: Vec::new(),
    });
    assert_eq!(fv(good.try_sample(&mut data).unwrap()), 0.0);
}

#[test]
fn try_sample_rejects_a_button_beyond_the_snapshot() {
    let mut data = ctx(0.0);
    let mut bad = Movesampler1D::MouseClickCounter(MouseClickCounter {
        mouse_click_counter_button: 99,
        counter: 0,
    });
    assert!(bad.try_sample(&mut data).is_none());
    let mut good = Movesampler1D::MouseClickCounter(MouseClickCounter {
        mouse_click_counter_button: 1,
        counter: 0,
    });
    assert_eq!(fv(good.try_sample(&mut data).unwrap()), 0.0);
}

#[test]
fn evaluation_order_is_left_to_right_for_variable_effects() {
    let mut data = ctx(0.0);
    // A write earlier in the frame is visible to a later read...
    let mut read_after_write = Movesampler1D::Add(Add {
        terms: vec![
            Movesampler1D::VariableSet(VariableSet {
                set_variable_name: String::from("v"),
                value: Box::new(constant(4.0)),
                variable_id: None,
            }),
            Movesampler1D::VariableGet(VariableGet {
                variable_name: String::from("v"),
                variable_id: None,
            }),
        ],
    });
    assert_eq!(fv(read_after_write.sample(&mut data)), 8.0);
    // ...while a read ordered before the write still sees the prior value.
    let mut data2 = ctx(0.0);
    let mut write_after_read = Movesampler1D::Add(Add {
        terms: vec![
            Movesampler1D::VariableGet(VariableGet {
                variable_name: String::from("v"),
                variable_id: None,
            }),
            Movesampler1D::VariableSet(VariableSet {
                set_variable_name: String::from("v"),
                value: Box::new(constant(4.0)),
                variable_id: None,
            }),
        ],
    });
    assert_eq!(fv(write_after_read.sample(&mut data2)), 4.0);
}

#[test]
fn switch_holds_the_enable_value_itself() {
    let mut data = ctx(0.0);
    let mut node = Movesampler1D::Switch(Switch {
        enable: Box::new(constant(2.5)),
        disable: Box::new(constant(0.0)),
        enabled: sc(0.0),
    });
    assert_eq!(fv(node.sample(&mut data)), 2.5);
}

#[test]
fn click_counter_wraps_at_the_integer_limit() {
    let mut data = ctx(0.0);
    data.input.buttons[0] = true;
    let mut node = Movesampler1D::MouseClickCounter(MouseClickCounter {
        mouse_click_counter_button: 0,
        counter: u32::MAX,
    });
    assert_eq!(fv(node.sample(&mut data)), 0.0);
}
