use prover::config::{AssetsDirEnvConfig, AssetsSignal, InitError};

#[test]
fn end_to_end_two_path_signal() {
    let mut switch = AssetsDirEnvConfig::new();
    let mut signal = AssetsSignal::new();
    assert!(!switch.is_initialized());
    assert!(switch.init("/data/v1,/data/v2").is_ok());
    assert!(switch.is_initialized());
    switch.enable_first(&mut signal);
    assert_eq!(signal.read(), "/data/v1");
    switch.enable_second(&mut signal);
    assert_eq!(signal.read(), "/data/v2");
}

#[test]
fn selections_repeat_and_alternate() {
    let mut switch = AssetsDirEnvConfig::new();
    let mut signal = AssetsSignal::new();
    assert!(switch.init("low-dir,high-dir").is_ok());
    switch.enable_second(&mut signal);
    assert_eq!(signal.read(), "high-dir");
    switch.enable_second(&mut signal);
    assert_eq!(signal.read(), "high-dir");
    switch.enable_first(&mut signal);
    assert_eq!(signal.read(), "low-dir");
    switch.enable_first(&mut signal);
    assert_eq!(signal.read(), "low-dir");
    switch.enable_second(&mut signal);
    assert_eq!(signal.read(), "high-dir");
}

#[test]
fn init_twice_keeps_first_values() {
    let mut switch = AssetsDirEnvConfig::new();
    let mut signal = AssetsSignal::new();
    assert!(switch.init("first-low,first-high").is_ok());
    assert!(switch.init("second-low,second-high").is_ok());
    switch.enable_first(&mut signal);
    assert_eq!(signal.read(), "first-low");
    switch.enable_second(&mut signal);
    assert_eq!(signal.read(), "first-high");
}

#[test]
fn init_rejects_one_segment() {
    let mut switch = AssetsDirEnvConfig::new();
    assert_eq!(switch.init("/only/one"), Err(InitError::MalformedSignal));
    assert!(!switch.is_initialized());
}

#[test]
fn init_rejects_three_segments() {
    let mut switch = AssetsDirEnvConfig::new();
    assert_eq!(switch.init("a,b,c"), Err(InitError::MalformedSignal));
    assert!(!switch.is_initialized());
}

#[test]
fn init_rejects_empty_signal() {
    let mut switch = AssetsDirEnvConfig::new();
    assert_eq!(switch.init(""), Err(InitError::MalformedSignal));
    assert!(!switch.is_initialized());
}

#[test]
fn malformed_init_after_success_keeps_state() {
    let mut switch = AssetsDirEnvConfig::new();
    let mut signal = AssetsSignal::new();
    assert!(switch.init("a,b").is_ok());
    assert_eq!(switch.init("x"), Err(InitError::MalformedSignal));
    assert!(switch.is_initialized());
    switch.enable_first(&mut signal);
    assert_eq!(signal.read(), "a");
}

#[test]
fn empty_segments_are_two_segments() {
    let mut switch = AssetsDirEnvConfig::new();
    let mut signal = AssetsSignal::new();
    assert!(switch.init(",").is_ok());
    switch.enable_first(&mut signal);
    assert_eq!(signal.read(), "");
    switch.enable_second(&mut signal);
    assert_eq!(signal.read(), "");
}

#[test]
fn non_ascii_paths_split_on_the_comma() {
    let mut switch = AssetsDirEnvConfig::new();
    let mut signal = AssetsSignal::new();
    assert!(switch.init("/données/v1,/données/v2").is_ok());
    switch.enable_first(&mut signal);
    assert_eq!(signal.read(), "/données/v1");
    switch.enable_second(&mut signal);
    assert_eq!(signal.read(), "/données/v2");
}
