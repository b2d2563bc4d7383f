use asciiart::kernel::Kernel;
use asciiart::luma::apply_invert;

fn kernel_of(vals: Vec<u8>) -> Kernel {
    Kernel::from_vals(vals)
}

#[test]
fn distance_is_symmetric() {
    let a = kernel_of(vec![0, 10, 20, 30, 40, 50, 60, 70, 80, 90, 100, 110, 120, 130, 140, 150]);
    let b = kernel_of(vec![5, 5, 25, 25, 45, 45, 65, 65, 85, 85, 105, 105, 125, 125, 145, 145]);
    assert_eq!(a.distance(&b), b.distance(&a));
}

#[test]
fn distance_zero_on_identical_kernels() {
    let a = kernel_of(vec![7; 16]);
    let b = kernel_of(vec![7; 16]);
    assert_eq!(a.distance(&b), 0);
}

#[test]
fn distance_positive_on_different_kernels() {
    let a = kernel_of(vec![7; 16]);
    let mut vals = vec![7u8; 16];
    vals[11] = 8;
    let b = kernel_of(vals);
    assert_eq!(a.distance(&b), 1);
    assert!(b.distance(&a) > 0);
}

#[test]
fn distance_exact_value() {
    let a = kernel_of(vec![0; 16]);
    let b = kernel_of(vec![255; 16]);
    assert_eq!(a.distance(&b), 16 * 255);

    let c = kernel_of(vec![10, 20, 30, 40, 0, 0, 0, 0, 0, 0, 0, 0, 0, 0, 0, 0]);
    let d = kernel_of(vec![0, 0, 0, 0, 0, 0, 0, 0, 0, 0, 0, 0, 0, 0, 0, 100]);
    assert_eq!(c.distance(&d), 10 + 20 + 30 + 40 + 100);
}

#[test]
fn kernel_keeps_its_values() {
    let vals: Vec<u8> = (0..16).map(|i| (i * 16) as u8).collect();
    let k = kernel_of(vals.clone());
    assert_eq!(k.as_bytes(), &vals);
}

#[test]
fn invert_twice_gives_the_value_back() {
    for v in [0u8, 1, 17, 127, 128, 254, 255] {
        assert_eq!(apply_invert(apply_invert(v, true), true), v);
        assert_eq!(apply_invert(v, false), v);
        assert_eq!(apply_invert(v, true), 255 - v);
    }
}
