use giss::cfg::{LogLevel, Verbosity};
use giss::dbg::dbg_info;
use giss::ui::channel_capacity;

#[test]
fn the_build_is_described_in_two_sentences() {
    assert_eq!(
        dbg_info("0.1.0", "v0.1.0-3-gabc123", "rustc 1.70.0", "x86_64-unknown-linux-gnu", "release", "[\"default\"]"),
        "Crate version 0.1.0.\nBuilt from commit v0.1.0-3-gabc123 by rustc 1.70.0 for target x86_64-unknown-linux-gnu with profile 'release' and features = [\"default\"]."
    );
}

#[test]
fn verbosity_sets_the_log_level() {
    let levels = [
        LogLevel::Off,
        LogLevel::Error,
        LogLevel::Warn,
        LogLevel::Info,
        LogLevel::Debug,
        LogLevel::Trace,
    ];
    for n in 0..=5u8 {
        assert_eq!(Verbosity::new(n).unwrap().log_level(), levels[n as usize]);
    }
}

#[test]
fn the_channel_holds_twice_the_limit() {
    assert_eq!(channel_capacity(0), 0);
    assert_eq!(channel_capacity(10), 20);
    assert_eq!(channel_capacity(u32::MAX) as u128, (2 * u32::MAX as u128).min(usize::MAX as u128));
}
