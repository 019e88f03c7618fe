use app_frame::dependency_injection::{ProvideA, Provides};
use app_frame::error::{chain_report, compose_error_report, format_anyhow};
use app_frame::service::{failures_after, loop_is_healthy, LoopConfig, SelfConfiguredLoop};
use app_frame::text::{decimal_string, digits_string, replace_all, same_text};
use app_frame::time::{scaled_timestamp, Clock, SystemClock, TokioSleeper};

#[test]
fn decimal_rendering() {
    assert_eq!(decimal_string(0), "0");
    assert_eq!(decimal_string(-12), "-12");
    assert_eq!(decimal_string(1234567890), "1234567890");
    assert_eq!(decimal_string(i64::MIN), i64::MIN.to_string());
    assert_eq!(decimal_string(i64::MAX), i64::MAX.to_string());
    assert_eq!(digits_string(u64::MAX), u64::MAX.to_string());
    assert_eq!(digits_string(7), "7");
}

#[test]
fn replacement_matches_str_replace() {
    for (s, pat, rep) in [
        ("aaa", "aa", "b"),
        ("[\n  x,\n]", ",\n", "\n"),
        ("no match", "zz", "y"),
        ("ééxé", "é", "e"),
        ("", "a", "b"),
        ("abab", "ab", ""),
    ] {
        assert_eq!(replace_all(s, pat, rep), s.replace(pat, rep));
    }
}

#[test]
fn text_comparison() {
    assert!(same_text("abc", "abc"));
    assert!(!same_text("abc", "abd"));
    assert!(!same_text("abc", "ab"));
    assert!(same_text("", ""));
}

#[test]
fn error_reports() {
    let causes = vec!["inner".to_string(), "root".to_string()];
    assert_eq!(
        compose_error_report("outer", &causes, "bt"),
        "outer, caused by: inner, caused by: root\nstack backtrace:\nbt"
    );
    let e = anyhow::Error::msg("root").context("outer");
    let report = format_anyhow(&e);
    assert!(report.starts_with("outer, caused by: root\nstack backtrace:\n"));
    let deep = anyhow::Error::msg("disk").context("read").context("load");
    assert!(format_anyhow(&deep)
        .starts_with("load, caused by: read, caused by: disk\nstack backtrace:\n"));
    let alone = anyhow::Error::msg("only");
    assert!(format_anyhow(&alone).starts_with("only\nstack backtrace:\n"));
}

#[test]
fn loop_configuration() {
    let c = LoopConfig { delay_secs: 10, max_iteration_secs: 20 };
    assert_eq!(c.heartbeat_ttl(), 30);
    assert_eq!(c.pause_secs(), 10);
    assert_eq!(LoopConfig { delay_secs: -1, max_iteration_secs: 0 }.pause_secs(), u64::MAX);
    let job = ("job", c);
    assert_eq!(job.loop_config(), c);
}

#[test]
fn loop_health_follows_the_last_iteration() {
    assert_eq!(failures_after(3, true), 0);
    assert_eq!(failures_after(3, false), 4);
    assert_eq!(failures_after(usize::MAX, false), 0);
    assert!(loop_is_healthy(failures_after(7, true)));
    assert!(!loop_is_healthy(failures_after(0, false)));
}

#[test]
fn clocks_and_sleepers() {
    let real = SystemClock::default().current_timestamp();
    let fast = SystemClock::accelerated(2).current_timestamp();
    assert!(real > 1_600_000_000);
    assert!(fast >= 2 * real);
    assert_eq!(TokioSleeper::default().0, 1);
    assert_eq!(TokioSleeper::accelerated(4).0, 4);
}

#[test]
fn values_provide_themselves() {
    let x: u32 = 5;
    let y: u32 = x.provide();
    assert_eq!(y, 5);
    assert_eq!(String::from("s").provide_a::<String>(), "s");
}

#[test]
fn chain_report_skips_the_error_itself() {
    let chain = vec!["load".to_string(), "read".to_string(), "disk".to_string()];
    assert_eq!(
        chain_report("load", chain, "bt"),
        "load, caused by: read, caused by: disk\nstack backtrace:\nbt"
    );
    assert_eq!(chain_report("only", vec!["only".to_string()], ""), "only\nstack backtrace:\n");
    assert_eq!(chain_report("none", Vec::new(), "x"), "none\nstack backtrace:\nx");
}

#[test]
fn system_clock_scales_the_seconds_read() {
    assert_eq!(scaled_timestamp(Some(1_000), 1), 1_000);
    assert_eq!(scaled_timestamp(Some(1_000), 60), 60_000);
    assert_eq!(scaled_timestamp(None, 60), 0);
    assert_eq!(scaled_timestamp(Some(u64::MAX), 2), u64::MAX.wrapping_mul(2));
    let now = std::time::SystemTime::now()
        .duration_since(std::time::UNIX_EPOCH)
        .unwrap()
        .as_secs();
    let read = SystemClock::default().current_timestamp();
    assert!(read >= now && read <= now + 5);
}
