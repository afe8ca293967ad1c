use localbench::oracle::{
    placement, rejection, shape_key, FitAnswer, LiveFitOracle, DEFAULT_FIT_MARGIN_MIB,
};
use localbench::overrides::{Overrides, Setting};
use localbench::tuner::FitPlacement;

fn overrides_of(settings: &[(&str, Setting)]) -> Overrides {
    let mut out = Overrides::new();
    for (key, value) in settings {
        out.set(key, value.copy());
    }
    out
}

#[test]
fn placement_and_threads_do_not_change_the_memory_shape() {
    let text = |t: &str| Setting::Text(t.to_string());
    let a = overrides_of(&[
        ("KvK", text("q8_0")),
        ("NCpuMoe", Setting::Number(35)),
        ("Threads", Setting::Number(12)),
    ]);
    let b = overrides_of(&[("KvK", text("q8_0")), ("NCpuMoe", Setting::Number(38))]);
    let c = overrides_of(&[("KvK", text("f16")), ("NCpuMoe", Setting::Number(35))]);
    assert_eq!(shape_key(&a), shape_key(&b));
    assert_ne!(shape_key(&a), shape_key(&c));
    assert_eq!(shape_key(&a), "KvK=q8_0");
}

#[test]
fn the_fitter_is_asked_once_per_memory_shape() {
    let text = |t: &str| Setting::Text(t.to_string());
    let mut oracle =
        LiveFitOracle::new(Some("/bin/fit".to_string()), DEFAULT_FIT_MARGIN_MIB).unwrap();
    let a = overrides_of(&[("KvK", text("q8_0")), ("NCpuMoe", Setting::Number(35))]);
    let b = overrides_of(&[("KvK", text("q8_0")), ("NGpuLayers", Setting::Number(9))]);
    let c = overrides_of(&[("KvK", text("f16"))]);
    assert_eq!(oracle.answer(&a), None);
    let fit = FitPlacement {
        gpu_layers: -1,
        n_cpu_moe: 3,
        device: None,
    };
    oracle.remember(&a, FitAnswer::Placed(fit.clone()));
    oracle.remember(&c, FitAnswer::Rejected("too large".to_string()));
    assert_eq!(placement(&oracle.answer(&b).unwrap()), Some(fit));
    assert_eq!(rejection(&oracle.answer(&b).unwrap()), None);
    assert_eq!(
        rejection(&oracle.answer(&c).unwrap()),
        Some("too large".to_string())
    );
    assert_eq!(placement(&oracle.answer(&c).unwrap()), None);
    assert_eq!(placement(&FitAnswer::Failed), None);
    assert_eq!(rejection(&FitAnswer::Failed), None);
    assert_eq!(DEFAULT_FIT_MARGIN_MIB, 1024);
}

#[test]
fn an_oracle_stands_only_where_the_engine_ships_a_fitter() {
    assert!(LiveFitOracle::new(None, DEFAULT_FIT_MARGIN_MIB).is_none());
    let mut oracle = LiveFitOracle::new(Some("/opt/llama/fit".to_string()), 512).unwrap();
    assert_eq!(oracle.binary(), "/opt/llama/fit");
    assert_eq!(oracle.margin_mib(), 512);
    let shape = overrides_of(&[("KvK", Setting::Text("f16".to_string()))]);
    assert_eq!(oracle.answer(&shape), None);
    oracle.remember(&shape, FitAnswer::Failed);
    assert_eq!(oracle.answer(&shape), Some(FitAnswer::Failed));
    assert_eq!(oracle.binary(), "/opt/llama/fit");
    assert_eq!(oracle.margin_mib(), 512);
}
