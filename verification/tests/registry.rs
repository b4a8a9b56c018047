use cursor_shower::hash_string::HashString;
use cursor_shower::linear_samplers::{Add, InputSnapshot, Movesampler1D, SamplerData};
use cursor_shower::scalar::{IntArith, Scalar};
use cursor_shower::variable_holder::DataHolder;

#[test]
fn registry_assigns_dense_stable_indices() {
    let mut vars = DataHolder::new();
    let a = vars.add_key(&String::from("alpha"));
    let b = vars.add_key(&String::from("beta"));
    let a_again = vars.add_key(&String::from("alpha"));
    assert_eq!(a, 0);
    assert_eq!(b, 1);
    assert_eq!(a_again, 0);
    assert_eq!(vars.len(), 2);
    assert_eq!(vars.get_key(&String::from("beta")), Some(1));
    assert_eq!(vars.get_key(&String::from("gamma")), None);
}

#[test]
fn registry_slots_start_at_zero_and_hold_writes() {
    let mut vars = DataHolder::new();
    let a = vars.add_key(&String::from("alpha"));
    assert_eq!(vars.get(a), Scalar { bits: 0 });
    vars.set(a, Scalar { bits: 0x4000_0000 });
    assert_eq!(vars.get(a), Scalar { bits: 0x4000_0000 });
    let b = vars.add_key(&String::from("beta"));
    assert_eq!(vars.get(b), Scalar { bits: 0 });
    assert_eq!(vars.get(a), Scalar { bits: 0x4000_0000 });
}

#[test]
fn hash_string_keeps_its_text() {
    let h = HashString::new(String::from("hello"));
    assert_eq!(h.as_str(), "hello");
}

#[test]
fn integer_arithmetic_drives_the_engine_deterministically() {
    let mut data = SamplerData {
        t: Scalar { bits: 0 },
        vars: DataHolder::new(),
        input: InputSnapshot {
            mouse_x: 0,
            mouse_y: 0,
            buttons: vec![false; 6],
            keys_held: Vec::new(),
        },
        arith: IntArith,
    };
    let mut node = Movesampler1D::Add(Add {
        terms: vec![
            Movesampler1D::Constant(Scalar { bits: 2 }),
            Movesampler1D::Constant(Scalar { bits: 3 }),
        ],
    });
    assert_eq!(node.sample(&mut data), Scalar { bits: 5 });
}
