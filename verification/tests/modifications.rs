use p_hash_rust::imagehash::AverageHash;
use p_hash_rust::imagehash::HashMethod;
use p_hash_rust::imagemodify::get_modification;
use p_hash_rust::imagemodify::modify_img;
use p_hash_rust::imagemodify::Angle;
use p_hash_rust::imagemodify::Applied;
use p_hash_rust::imagemodify::Blur;
use p_hash_rust::imagemodify::Modification;
use p_hash_rust::imagemodify::Modifications;
use p_hash_rust::imagemodify::ModifyError;
use p_hash_rust::imagemodify::Rotate;
use p_hash_rust::raster::Image;

fn numbered(width: u32, height: u32) -> Image {
    let mut data = Vec::new();
    for p in 0..width * height {
        let v = (p * 4) as u8;
        data.extend_from_slice(&[v, v + 1, v + 2, v + 3]);
    }
    Image::new(width, height, data).expect("four bytes per pixel")
}

fn unknown_name(r: Result<Modification, ModifyError>) -> String {
    match r {
        Err(ModifyError::UnknownModification(name)) => name,
        other => panic!("expected an unknown modification, got {:?}", other),
    }
}

#[test]
fn resolve_blur_gives_the_default_blur() {
    let m = get_modification("blur").expect("built in");
    assert_eq!(m, Modification::Blur(Blur { sigma_milli: 900 }));
    match m {
        Modification::Blur(blur) => assert_eq!(blur.sigma_milli as f32 / 1000.0, 0.9f32),
        Modification::Rotate(_) => panic!("blur resolved to a rotation"),
    }
}

#[test]
fn resolve_rotate_gives_a_quarter_turn() {
    let m = get_modification("rotate").expect("built in");
    assert_eq!(m, Modification::Rotate(Rotate { angle: Angle::Rot90 }));
}

#[test]
fn resolve_unknown_reports_the_name() {
    assert_eq!(unknown_name(get_modification("unknown")), "unknown");
    assert_eq!(unknown_name(get_modification("")), "");
}

#[test]
fn resolve_is_exact_and_case_sensitive() {
    for name in ["Blur", "BLUR", "blur ", " blur", "blu", "rotate90", "Rotate", "rotat"] {
        assert_eq!(unknown_name(get_modification(name)), name);
    }
}

#[test]
fn defaults() {
    assert_eq!(Blur::default(), Blur { sigma_milli: 900 });
    assert_eq!(Blur::new(), Blur::default());
    assert_eq!(Rotate::default(), Rotate { angle: Angle::Rot90 });
    assert_eq!(Rotate::new(), Rotate::default());
}

#[test]
fn adjusters_replace_one_field() {
    assert_eq!(Blur::new().with_sigma_milli(2500), Blur { sigma_milli: 2500 });
    assert_eq!(Rotate::new().with_angle(Angle::Rot270), Rotate { angle: Angle::Rot270 });
}

#[test]
fn variant_names_tell_the_parameters() {
    assert_eq!(Angle::Rot90.name(), "rotate90");
    assert_eq!(Angle::Rot180.name(), "rotate180");
    assert_eq!(Angle::Rot270.name(), "rotate270");
    assert_eq!(Rotate::new().name(), "rotate90");
    assert_eq!(Rotate::new().with_angle(Angle::Rot180).name(), "rotate180");
    assert_eq!(Blur::new().name(), "blur");
    assert_eq!(Modification::Blur(Blur::new()).name(), "blur");
    assert_eq!(Modification::Rotate(Rotate { angle: Angle::Rot270 }).name(), "rotate270");
}

#[test]
fn registry_key_and_variant_name_differ_for_rotate() {
    let m = get_modification("rotate").expect("built in");
    assert_eq!(m.name(), "rotate90");
    assert_eq!(unknown_name(get_modification(m.name())), "rotate90");
}

#[test]
fn built_in_registry_holds_blur_and_rotate() {
    let registry = Modifications::load();
    assert_eq!(registry.get("blur").expect("built in"), &Modification::Blur(Blur::default()));
    assert_eq!(registry.get("rotate").expect("built in"), &Modification::Rotate(Rotate::default()));
    let mut names = registry.names();
    names.sort();
    assert_eq!(names, vec!["blur".to_string(), "rotate".to_string()]);
}

#[test]
fn built_in_registry_agrees_with_get_modification() {
    let registry = Modifications::load();
    for name in ["blur", "rotate", "unknown", "Blur", ""] {
        match (registry.get(name), get_modification(name)) {
            (Ok(a), Ok(b)) => assert_eq!(*a, b),
            (Err(ModifyError::UnknownModification(a)), Err(ModifyError::UnknownModification(b))) => {
                assert_eq!(a, name);
                assert_eq!(b, name);
            }
            (a, b) => panic!("{:?} and {:?} disagree", a, b),
        }
    }
}

#[test]
fn registry_miss_reports_the_name() {
    let registry = Modifications::load();
    match registry.get("unknown") {
        Err(ModifyError::UnknownModification(name)) => assert_eq!(name, "unknown"),
        other => panic!("expected an unknown modification, got {:?}", other),
    }
    assert!(matches!(
        Modifications::new().get("blur"),
        Err(ModifyError::UnknownModification(_))
    ));
    assert!(Modifications::new().names().is_empty());
}

#[test]
fn registry_takes_more_names() {
    let half = Modification::Rotate(Rotate { angle: Angle::Rot180 });
    let registry = Modifications::load().add("flip", half);
    assert_eq!(registry.get("flip").expect("registered"), &half);
    assert_eq!(registry.get("blur").expect("built in"), &Modification::Blur(Blur::default()));
    assert_eq!(registry.names().len(), 3);
}

#[test]
fn registering_a_name_again_replaces_it() {
    let soft = Modification::Blur(Blur { sigma_milli: 300 });
    let registry = Modifications::load().add("blur", soft);
    assert_eq!(registry.get("blur").expect("registered"), &soft);
    assert_eq!(registry.get("rotate").expect("built in"), &Modification::Rotate(Rotate::default()));
    assert_eq!(registry.names().len(), 2);
}

#[test]
fn angle_apply_turns_the_image() {
    let img = numbered(2, 3);
    assert_eq!(Angle::Rot90.apply(&img), img.rotate90());
    assert_eq!(Angle::Rot180.apply(&img), img.rotate180());
    assert_eq!(Angle::Rot270.apply(&img), img.rotate270());
    assert_eq!(Rotate::new().apply(&img), img.rotate90());
    assert_ne!(Angle::Rot90.apply(&img), img);
}

#[test]
fn rotate_quarter_after_three_quarters_is_identity() {
    let img = numbered(5, 3);
    let there = Rotate { angle: Angle::Rot270 }.apply(&img);
    let back = Rotate { angle: Angle::Rot90 }.apply(&there);
    assert_eq!(back, img);
}

#[test]
fn unknown_modification_message() {
    let text = ModifyError::UnknownModification("sharpen".to_string()).message();
    assert_eq!(text, "Unknown modification sharpen");
}

#[test]
fn image_error_is_wrapped_and_shown() {
    let inner = image::ImageError::IoError(std::io::Error::new(
        std::io::ErrorKind::NotFound,
        "no such picture",
    ));
    let shown = inner.to_string();
    let inner = image::ImageError::IoError(std::io::Error::new(
        std::io::ErrorKind::NotFound,
        "no such picture",
    ));
    let e = ModifyError::from(inner);
    assert!(matches!(e, ModifyError::ImageError(_)));
    assert_eq!(e.message(), format!("Image error {}", shown));
}

#[test]
fn applying_a_rotation_gives_the_turned_image() {
    let img = numbered(2, 3);
    for angle in [Angle::Rot90, Angle::Rot180, Angle::Rot270] {
        let applied = Modification::Rotate(Rotate { angle }).apply(&img);
        assert_eq!(applied, Applied::Done(angle.apply(&img)));
    }
}

#[test]
fn applying_a_blur_of_zero_gives_the_image_back() {
    let img = numbered(3, 2);
    let blur = Blur::new().with_sigma_milli(0);
    assert_eq!(blur.apply(&img), Applied::Done(img.clone()));
    assert_eq!(Modification::Blur(blur).apply(&img), Applied::Done(img.clone()));
}

#[test]
fn blur_of_zero_keeps_the_fingerprint() {
    let img = numbered(9, 7);
    let method = AverageHash::new();
    match Blur::new().with_sigma_milli(0).apply(&img) {
        Applied::Done(out) => {
            let blurred = method.hash(out);
            let plain = method.hash(img);
            assert_eq!(blurred.len(), plain.len());
            assert_eq!(blurred.bits(), plain.bits());
            assert_eq!(blurred.to_hex(), plain.to_hex());
        }
        other => panic!("expected the image back, got {:?}", other),
    }
}

#[test]
fn blur_apply_hands_any_other_blur_to_the_codec() {
    let img = numbered(2, 3);
    for sigma_milli in [1u32, 900, 2500, u32::MAX] {
        let blur = Blur { sigma_milli };
        assert_eq!(blur.apply(&img), Applied::ToBlur(blur));
    }
}

#[test]
fn applying_a_blur_hands_the_blur_to_the_codec() {
    let img = numbered(2, 3);
    let blur = Blur::new().with_sigma_milli(1500);
    assert_eq!(Modification::Blur(blur).apply(&img), Applied::ToBlur(blur));
}

#[test]
fn modify_img_resolves_and_applies() {
    let img = numbered(4, 2);
    assert_eq!(modify_img(&img, "rotate").expect("built in"), Applied::Done(img.rotate90()));
    assert_eq!(modify_img(&img, "blur").expect("built in"), Applied::ToBlur(Blur::default()));
    match modify_img(&img, "unknown") {
        Err(ModifyError::UnknownModification(name)) => assert_eq!(name, "unknown"),
        other => panic!("expected an unknown modification, got {:?}", other),
    }
}
