use std::time::Duration;

use html2pdf::progress::{format_bytes, format_duration, ConversionStats, ProgressStage};

#[test]
fn test_progress_stage_order() {
    let stages = ProgressStage::all_stages();
    assert_eq!(stages[0], ProgressStage::Loading);
    assert_eq!(stages.last(), Some(&ProgressStage::Complete));

    assert_eq!(ProgressStage::Loading.next(), Some(ProgressStage::ParsingHtml));
    assert_eq!(ProgressStage::ParsingHtml.previous(), Some(ProgressStage::Loading));
    assert_eq!(ProgressStage::Complete.next(), None);
}

#[test]
fn test_conversion_stats() {
    let mut stats = ConversionStats::new();
    stats.elements_processed = 100;
    stats.pages_generated = 5;
    stats.add_stage_time(ProgressStage::ParsingHtml, Duration::from_secs(1));
    stats.add_stage_time(ProgressStage::Rendering, Duration::from_secs(2));

    assert_eq!(stats.total_time(), Duration::from_secs(3));
    assert_eq!(stats.stage_time(ProgressStage::ParsingHtml), Duration::from_secs(1));
    assert_eq!(stats.avg_time_per_page(), Some(Duration::from_millis(600)));
}

#[test]
fn test_format_duration() {
    assert_eq!(format_duration(Duration::from_millis(500)), "500ms");
    assert_eq!(format_duration(Duration::from_secs(5)), "5.000s");
    assert_eq!(format_duration(Duration::from_secs(65)), "1m 5s");
}

#[test]
fn test_format_bytes() {
    assert_eq!(format_bytes(0), "0 B");
    assert_eq!(format_bytes(512), "512 B");
    assert_eq!(format_bytes(1024), "1.00 KB");
    assert_eq!(format_bytes(1024 * 1024), "1.00 MB");
}

#[test]
fn format_bytes_rounds_like_float_formatting() {
    let units = ["B", "KB", "MB", "GB"];
    for bytes in [1usize, 1023, 1025, 1152, 1160, 1500, 2047, 5_000_000, 123_456_789, 1_073_741_824, 3_000_000_000] {
        let exp = (bytes as f64).log(1024.0).min(units.len() as f64 - 1.0) as usize;
        let value = bytes as f64 / 1024f64.powi(exp as i32);
        let expected = if exp == 0 { format!("{} B", bytes) } else { format!("{:.2} {}", value, units[exp]) };
        assert_eq!(format_bytes(bytes), expected, "bytes {}", bytes);
    }
}

#[test]
fn stage_after_then_before_is_identity() {
    for stage in ProgressStage::all_stages() {
        if let Some(n) = stage.next() {
            assert_eq!(n.previous(), Some(stage));
        }
    }
    assert_eq!(ProgressStage::Loading.previous(), None);
}

#[test]
fn format_duration_minutes_and_seconds() {
    assert_eq!(format_duration(Duration::from_millis(0)), "0ms");
    assert_eq!(format_duration(Duration::from_millis(1500)), "1.500s");
    assert_eq!(format_duration(Duration::from_secs(3600)), "60m 0s");
}
