use cursor_shower::circle::{Circle, Rgba};
use cursor_shower::gen_shape::{DrawCmd, NoDraw, Rect, Shape, ShapeCmd, ShapeRaw};
use cursor_shower::linear_samplers::{
    InputSnapshot, MouseClickCounter, Movesampler1D, SamplerData, Time,
};
use cursor_shower::movement::{Mouse, Movesampler2D, Offset, Orbit};
use cursor_shower::scalar::{Scalar, ScalarArith};
use cursor_shower::variable_holder::DataHolder;

/// The intended arithmetic: each word read as an IEEE-754 single.
struct F32;

impl ScalarArith for F32 {
    // The erased spec models of the operations: here, the operations
    // themselves.
    fn one_spec(&self) -> Scalar {
        self.one()
    }
    fn two_spec(&self) -> Scalar {
        self.two()
    }
    fn pi_spec(&self) -> Scalar {
        self.pi()
    }
    fn add_spec(&self, a: Scalar, b: Scalar) -> Scalar {
        self.add(a, b)
    }
    fn sub_spec(&self, a: Scalar, b: Scalar) -> Scalar {
        self.sub(a, b)
    }
    fn mul_spec(&self, a: Scalar, b: Scalar) -> Scalar {
        self.mul(a, b)
    }
    fn div_spec(&self, a: Scalar, b: Scalar) -> Scalar {
        self.div(a, b)
    }
    fn rem_spec(&self, a: Scalar, b: Scalar) -> Scalar {
        self.rem(a, b)
    }
    fn pow_spec(&self, a: Scalar, b: Scalar) -> Scalar {
        self.pow(a, b)
    }
    fn sin_spec(&self, a: Scalar) -> Scalar {
        self.sin(a)
    }
    fn cos_spec(&self, a: Scalar) -> Scalar {
        self.cos(a)
    }
    fn le_spec(&self, a: Scalar, b: Scalar) -> bool {
        self.le(a, b)
    }
    fn gt_spec(&self, a: Scalar, b: Scalar) -> bool {
        self.gt(a, b)
    }
    fn ge_spec(&self, a: Scalar, b: Scalar) -> bool {
        self.ge(a, b)
    }
    fn of_i32_spec(&self, v: i32) -> Scalar {
        self.of_i32(v)
    }
    fn of_u32_spec(&self, v: u32) -> Scalar {
        self.of_u32(v)
    }
    fn to_i32_spec(&self, a: Scalar) -> i32 {
        self.to_i32(a)
    }
    fn one(&self) -> Scalar {
        Scalar { bits: 1.0f32.to_bits() }
    }
    fn two(&self) -> Scalar {
        Scalar { bits: 2.0f32.to_bits() }
    }
    fn pi(&self) -> Scalar {
        Scalar { bits: std::f32::consts::PI.to_bits() }
    }
    fn add(&self, a: Scalar, b: Scalar) -> Scalar {
        Scalar { bits: (f32::from_bits(a.bits) + f32::from_bits(b.bits)).to_bits() }
    }
    fn sub(&self, a: Scalar, b: Scalar) -> Scalar {
        Scalar { bits: (f32::from_bits(a.bits) - f32::from_bits(b.bits)).to_bits() }
    }
    fn mul(&self, a: Scalar, b: Scalar) -> Scalar {
        Scalar { bits: (f32::from_bits(a.bits) * f32::from_bits(b.bits)).to_bits() }
    }
    fn div(&self, a: Scalar, b: Scalar) -> Scalar {
        Scalar { bits: (f32::from_bits(a.bits) / f32::from_bits(b.bits)).to_bits() }
    }
    fn rem(&self, a: Scalar, b: Scalar) -> Scalar {
        Scalar { bits: (f32::from_bits(a.bits) % f32::from_bits(b.bits)).to_bits() }
    }
    fn pow(&self, a: Scalar, b: Scalar) -> Scalar {
        Scalar { bits: f32::from_bits(a.bits).powf(f32::from_bits(b.bits)).to_bits() }
    }
    fn sin(&self, a: Scalar) -> Scalar {
        Scalar { bits: f32::from_bits(a.bits).sin().to_bits() }
    }
    fn cos(&self, a: Scalar) -> Scalar {
        Scalar { bits: f32::from_bits(a.bits).cos().to_bits() }
    }
    fn le(&self, a: Scalar, b: Scalar) -> bool {
        f32::from_bits(a.bits) <= f32::from_bits(b.bits)
    }
    fn gt(&self, a: Scalar, b: Scalar) -> bool {
        f32::from_bits(a.bits) > f32::from_bits(b.bits)
    }
    fn ge(&self, a: Scalar, b: Scalar) -> bool {
        f32::from_bits(a.bits) >= f32::from_bits(b.bits)
    }
    fn of_i32(&self, v: i32) -> Scalar {
        Scalar { bits: (v as f32).to_bits() }
    }
    fn of_u32(&self, v: u32) -> Scalar {
        Scalar { bits: (v as f32).to_bits() }
    }
    fn to_i32(&self, a: Scalar) -> i32 {
        f32::from_bits(a.bits) as i32
    }
}

fn sc(v: f32) -> Scalar {
    Scalar { bits: v.to_bits() }
}

fn fv(s: Scalar) -> f32 {
    f32::from_bits(s.bits)
}

fn ctx(t: f32) -> SamplerData<F32> {
    SamplerData {
        t: sc(t),
        vars: DataHolder::new(),
        input: InputSnapshot {
            mouse_x: 0,
            mouse_y: 0,
            buttons: vec![false; 6],
            keys_held: Vec::new(),
        },
        arith: F32,
    }
}

fn constant(v: f32) -> Movesampler1D {
    Movesampler1D::Constant(sc(v))
}

fn gray() -> Rgba {
    Rgba { r: 128, g: 128, b: 128, a: 255 }
}

#[test]
fn offset_returns_its_two_samples() {
    let mut data = ctx(0.0);
    let mut node = Movesampler2D::Offset(Offset { x: constant(10.0), y: constant(-5.0) });
    let (x, y) = node.sample(&mut data);
    assert_eq!(fv(x), 10.0);
    assert_eq!(fv(y), -5.0);
}

#[test]
fn mouse_scales_around_the_sampled_center() {
    let mut data = ctx(0.0);
    data.input.mouse_x = 100;
    data.input.mouse_y = 60;
    let mut node = Movesampler2D::Mouse(Mouse {
        scale_center_x: constant(20.0),
        scale_center_y: constant(20.0),
        scale: constant(2.0),
    });
    let (x, y) = node.sample(&mut data);
    assert_eq!(fv(x), 160.0);
    assert_eq!(fv(y), 80.0);
}

#[test]
fn orbit_matches_the_rotated_ellipse_formula() {
    let t: f32 = 1.25;
    let mut data = ctx(t);
    let mut node = Movesampler2D::Orbit(Orbit {
        speed: constant(0.5),
        eccentricity: constant(0.75),
        angle_top: constant(1.0),
        angle_bottom: constant(8.0),
        radius: constant(3.0),
    });
    let (x, y) = node.sample(&mut data);
    let pre_x = (0.5f32 * t).cos() * 0.75f32;
    let pre_y = (0.5f32 * t).sin();
    let angle = (1.0f32 / 8.0f32) * 2.0f32 * std::f32::consts::PI;
    let cos_v = angle.cos();
    let sin_v = angle.sin();
    assert_eq!(fv(x), (pre_x * cos_v - pre_y * sin_v) * 3.0);
    assert_eq!(fv(y), (pre_y * cos_v + pre_x * sin_v) * 3.0);
}

#[test]
fn enabled_shape_resolves_to_origin_plus_offset() {
    let mut data = ctx(0.0);
    let mut shape = Shape {
        enabled: constant(1.0),
        movement: vec![Movesampler2D::Offset(Offset { x: constant(10.0), y: constant(-5.0) })],
        shape: ShapeRaw::NoDraw(NoDraw),
    };
    let cmd = shape.frame(&mut data, (50, 50)).expect("an enable value of one must draw");
    assert_eq!(cmd.x, 60);
    assert_eq!(cmd.y, 45);
    assert!(matches!(cmd.shape, ShapeCmd::Nothing));
}

#[test]
fn disabled_shape_never_touches_its_movement_counters() {
    let mut data = ctx(0.0);
    data.input.buttons[1] = true;
    let mut shape = Shape {
        enabled: constant(0.0),
        movement: vec![Movesampler2D::Offset(Offset {
            x: Movesampler1D::MouseClickCounter(MouseClickCounter {
                mouse_click_counter_button: 1,
                counter: 0,
            }),
            y: constant(0.0),
        })],
        shape: ShapeRaw::NoDraw(NoDraw),
    };
    for _ in 0..5 {
        assert!(shape.frame(&mut data, (0, 0)).is_none());
    }
    match &shape.movement[0] {
        Movesampler2D::Offset(o) => match &o.x {
            Movesampler1D::MouseClickCounter(m) => assert_eq!(m.counter, 0),
            _ => panic!("movement child changed shape"),
        },
        _ => panic!("movement changed shape"),
    }
}

#[test]
fn enable_below_one_skips_and_at_one_draws() {
    let mut data = ctx(0.0);
    let mut nearly = Shape {
        enabled: constant(0.999),
        movement: Vec::new(),
        shape: ShapeRaw::NoDraw(NoDraw),
    };
    assert!(nearly.frame(&mut data, (0, 0)).is_none());
    let mut exactly = Shape {
        enabled: constant(1.0),
        movement: Vec::new(),
        shape: ShapeRaw::NoDraw(NoDraw),
    };
    assert!(exactly.frame(&mut data, (0, 0)).is_some());
}

#[test]
fn rect_payload_samples_width_and_height_each_draw() {
    let mut data = ctx(6.0);
    let mut shape = Shape {
        enabled: constant(1.0),
        movement: Vec::new(),
        shape: ShapeRaw::Rect(Rect {
            width: constant(12.0),
            height: Movesampler1D::Time(Time { speed: sc(2.0) }),
            color_tl: gray(),
            color_tr: gray(),
            color_bl: gray(),
            color_br: gray(),
        }),
    };
    let cmd = shape.frame(&mut data, (7, 9)).expect("an enable value of one must draw");
    assert_eq!(cmd.x, 7);
    assert_eq!(cmd.y, 9);
    match cmd.shape {
        ShapeCmd::Rect { width, height, .. } => {
            assert_eq!(fv(width), 12.0);
            assert_eq!(fv(height), 12.0);
        },
        _ => panic!("payload resolved to the wrong command"),
    }
}

#[test]
fn circle_payload_carries_its_fixed_parameters() {
    let mut data = ctx(0.0);
    let mut shape = Shape {
        enabled: constant(1.0),
        movement: Vec::new(),
        shape: ShapeRaw::Circle(Circle {
            outer_color: Rgba { r: 1, g: 2, b: 3, a: 4 },
            inner_color: Rgba { r: 5, g: 6, b: 7, a: 8 },
            radius: sc(9.5),
        }),
    };
    let cmd = shape.frame(&mut data, (0, 0)).expect("an enable value of one must draw");
    match cmd.shape {
        ShapeCmd::Circle { radius, inner_color, outer_color } => {
            assert_eq!(fv(radius), 9.5);
            assert_eq!(inner_color, Rgba { r: 5, g: 6, b: 7, a: 8 });
            assert_eq!(outer_color, Rgba { r: 1, g: 2, b: 3, a: 4 });
        },
        _ => panic!("payload resolved to the wrong command"),
    }
}

#[test]
fn try_frame_rejects_an_unfit_shape_untouched() {
    let mut data = ctx(0.0);
    let mut shape = Shape {
        enabled: constant(1.0),
        movement: vec![Movesampler2D::Offset(Offset {
            x: Movesampler1D::MouseClickCounter(MouseClickCounter {
                mouse_click_counter_button: 42,
                counter: 0,
            }),
            y: constant(0.0),
        })],
        shape: ShapeRaw::NoDraw(NoDraw),
    };
    assert!(shape.try_frame(&mut data, (0, 0)).is_none());
    let mut fine = Shape {
        enabled: constant(1.0),
        movement: Vec::new(),
        shape: ShapeRaw::NoDraw(NoDraw),
    };
    let cmd: Option<DrawCmd> = fine.try_frame(&mut data, (3, 4)).expect("a fit shape runs");
    assert_eq!(cmd.map(|c| (c.x, c.y)), Some((3, 4)));
}

#[test]
fn movement_offsets_accumulate() {
    let mut data = ctx(0.0);
    let mut shape = Shape {
        enabled: constant(1.0),
        movement: vec![
            Movesampler2D::Offset(Offset { x: constant(10.0), y: constant(1.0) }),
            Movesampler2D::Offset(Offset { x: constant(-4.0), y: constant(2.5) }),
        ],
        shape: ShapeRaw::NoDraw(NoDraw),
    };
    let cmd = shape.frame(&mut data, (100, 100)).expect("an enable value of one must draw");
    assert_eq!(cmd.x, 106);
    assert_eq!(cmd.y, 103);
}
