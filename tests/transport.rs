use pathtracer::transport::{path_step, roulette_applies, Reflection, Step};

#[test]
fn roulette_starts_at_depth_five() {
    assert!(!roulette_applies(0));
    assert!(!roulette_applies(4));
    assert!(roulette_applies(5));
    assert!(roulette_applies(u32::MAX));
}

#[test]
fn miss_is_black_at_any_depth() {
    assert_eq!(path_step(None, 0, true), Step::Miss);
    assert_eq!(path_step(None, 9, false), Step::Miss);
}

#[test]
fn shallow_paths_ignore_the_draw() {
    assert_eq!(path_step(Some(Reflection::Diffuse), 3, false), Step::Diffuse { rescale: false });
    assert_eq!(path_step(Some(Reflection::Specular), 4, false), Step::Specular { rescale: false });
}

#[test]
fn deep_paths_that_survive_are_rescaled() {
    assert_eq!(path_step(Some(Reflection::Diffuse), 5, true), Step::Diffuse { rescale: true });
    assert_eq!(path_step(Some(Reflection::Specular), 12, true), Step::Specular { rescale: true });
}

#[test]
fn deep_paths_that_lose_the_draw_are_absorbed() {
    assert_eq!(path_step(Some(Reflection::Diffuse), 5, false), Step::Absorb);
    assert_eq!(path_step(Some(Reflection::Specular), 6, false), Step::Absorb);
    assert_eq!(path_step(Some(Reflection::Refractive), 6, false), Step::Absorb);
}

#[test]
fn refractive_surfaces_give_the_placeholder() {
    assert_eq!(path_step(Some(Reflection::Refractive), 0, false), Step::Placeholder);
    assert_eq!(path_step(Some(Reflection::Refractive), 8, true), Step::Placeholder);
}

#[test]
fn roulette_mean_over_equally_likely_draws_is_unbiased() {
    // Continuation probability 3/4: draws 0..3 of 0..4 fall below it.
    let p = 0.75f64;
    let f = 0.6f64;
    let mut total = 0.0f64;
    for draw in 0..4u32 {
        let survived = (draw as f64) / 4.0 < p;
        total += match path_step(Some(Reflection::Diffuse), 7, survived) {
            Step::Diffuse { rescale: true } => f / p,
            Step::Diffuse { rescale: false } => f,
            Step::Absorb => 0.0,
            other => panic!("unexpected step {:?}", other),
        };
    }
    assert!((total / 4.0 - f).abs() < 1e-12);
}
