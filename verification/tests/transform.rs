use recad_core::gr::Pt;
use recad_core::math::Transform;
use recad_core::ErrorKind;

fn mm(v: f64) -> i32 {
    (v * 10000.0).round() as i32
}

fn pts(list: &[(f64, f64)]) -> Vec<Pt> {
    list.iter().map(|p| Pt { x: mm(p.0), y: mm(p.1) }).collect()
}

fn raw(list: &[Pt]) -> Vec<(i32, i32)> {
    list.iter().map(|p| (p.x, p.y)).collect()
}

#[test]
fn test_nop() {
    //The outcome exhibits symmetry about the x-axis, implying both the symbol
    //library and schema coordinates are reflected along this axis.
    let input = pts(&[(2.0, 3.0), (4.0, 5.0), (6.0, 7.0)]);
    let res = pts(&[(2.0, -3.0), (4.0, -5.0), (6.0, -7.0)]);
    let transform = Transform::new();
    let result = transform.transform(&input).unwrap();
    assert_eq!(result, res);
    assert_eq!(raw(&result), raw(&res));
}

#[test]
fn test_translate() {
    let mut transform = Transform::new();
    transform = transform.translation(Pt { x: mm(2.0), y: mm(2.0) });

    let pt = pts(&[(0.0, 5.0), (-5.0, -5.0), (5.0, 5.0), (0.0, 5.0)]);
    let exp = pts(&[(2.0, -3.0), (-3.0, 7.0), (7.0, -3.0), (2.0, -3.0)]);
    let res = transform.transform(&pt).unwrap();
    assert_eq!(exp, res);
    assert_eq!(raw(&exp), raw(&res));
}

#[test]
fn test_rotate() {
    let mut transform = Transform::new();
    transform = transform.rotation(mm(90.0));
    let pt = pts(&[(0.0, 5.0), (-5.0, -5.0), (5.0, 5.0), (0.0, 5.0)]);
    let res = transform.transform(&pt);
    assert!(res.is_ok());
}

#[test]
fn test_mirror() {
    let mut transform = Transform::new();
    transform = transform.mirror(&Some(String::from("x")));
    let pt = pts(&[(0.0, 5.0), (-5.0, -5.0), (5.0, 5.0), (0.0, 5.0)]);
    let res = transform.transform(&pt).unwrap();
    assert_eq!(pt, res);
    assert_eq!(raw(&pt), raw(&res));
}

#[test]
fn rotate_quarter_turns_exact() {
    let p = vec![Pt { x: 10, y: 20 }];
    // without mirror the y axis is flipped first: (10, -20)
    let r0 = Transform::new().rotation(0).transform(&p).unwrap();
    assert_eq!(raw(&r0), vec![(10, -20)]);
    let r90 = Transform::new().rotation(900000).transform(&p).unwrap();
    assert_eq!(raw(&r90), vec![(-20, -10)]);
    let r180 = Transform::new().rotation(1800000).transform(&p).unwrap();
    assert_eq!(raw(&r180), vec![(-10, 20)]);
    let r270 = Transform::new().rotation(2700000).transform(&p).unwrap();
    assert_eq!(raw(&r270), vec![(20, 10)]);
    let back = Transform::new().rotation(-900000).transform(&p).unwrap();
    assert_eq!(raw(&back), raw(&r270));
    let full = Transform::new().rotation(3600000 + 900000).transform(&p).unwrap();
    assert_eq!(raw(&full), raw(&r90));
}

#[test]
fn mirror_axes() {
    let p = vec![Pt { x: 3, y: 5 }];
    let y = Transform::new().mirror(&Some("y".to_string())).transform(&p).unwrap();
    assert_eq!(raw(&y), vec![(-3, -5)]);
    let xy = Transform::new().mirror(&Some("xy".to_string())).transform(&p).unwrap();
    assert_eq!(raw(&xy), vec![(-3, 5)]);
    let none = Transform::new().mirror(&Some(String::new())).transform(&p).unwrap();
    assert_eq!(raw(&none), vec![(3, -5)]);
}

#[test]
fn scale_flips_and_rounds() {
    // scale 2.5 then the default mirror: y is flipped twice
    let p = vec![Pt { x: 3, y: 5 }];
    let r = Transform::new().scale(25000).transform(&p).unwrap();
    // 3 * 2.5 = 7.5 -> 8 ; -(5 * 2.5) = -12.5 -> -13, mirrored to 13
    assert_eq!(raw(&r), vec![(8, 13)]);
}

#[test]
fn transform_errors() {
    let p = vec![Pt { x: 1, y: 1 }];
    let e = Transform::new().mirror(&Some("z".to_string())).transform(&p).unwrap_err();
    assert_eq!(e.0, ErrorKind::UnsupportedMirror);
    let e = Transform::new().rotation(450000).transform(&p).unwrap_err();
    assert_eq!(e.0, ErrorKind::UnsupportedAngle);
    let e = Transform::new()
        .translation(Pt { x: i32::MAX, y: 0 })
        .transform(&p)
        .unwrap_err();
    assert_eq!(e.0, ErrorKind::OutOfRange);
    let e = Transform::new().rotation(450000).apply(Pt { x: 1, y: 1 }).unwrap_err();
    assert_eq!(e.0, ErrorKind::UnsupportedAngle);
    assert_eq!(
        Transform::new().apply(Pt { x: 1, y: 1 }).unwrap(),
        Pt { x: 1, y: -1 }
    );
}

#[test]
fn point_quantization() {
    // within half a hundredth of a grid point: equal, same key
    let grid = Pt { x: mm(179.07), y: mm(49.53) };
    let near = Pt { x: mm(179.07) + 49, y: mm(49.53) - 49 };
    assert_eq!(grid, near);
    assert_eq!(grid.key(), near.key());
    assert_eq!(grid.key(), (17907, 4953));
    // half a hundredth away: the next step
    let far = Pt { x: mm(179.07) + 50, y: mm(49.53) };
    assert_ne!(grid, far);
    assert_eq!(far.key(), (17908, 4953));
    let neg = Pt { x: -50, y: -49 };
    assert_eq!(neg.key(), (-1, 0));
}
