use linwatch::chart::{accessible_chart_title, parse_average_peak, ChartTitleDetail};
use linwatch::gpu::{gpu_load_detail, GpuInfo};
use linwatch::panels::{
    alert_block_severity, alert_tone, alerts_to_show, analysis_layout, body_layout, clamp_table_offset,
    footer_compact, footer_help_label, header_layout, kpi_body, overview_row_heights, pressure_meter_compact,
    process_row_style, search_bar, sparkline_ceiling, status_guidance, storage_drive_index,
    storage_section_heights, AnalysisLayout, BodyLayout, HeaderVitals, KpiBody, Tone,
};
use linwatch::severity::{health_status_label, health_status_text, severity_label, Severity};
use linwatch::text::{
    contains, find, is_whitespace, parse_u64, split_once, starts_with, str_eq, strip_prefix, strip_suffix,
    to_ascii_lowercase, to_uppercase, trim, trim_start_matches, u64_to_decimal,
};
use linwatch::theme::{catppuccin_mocha, Rgb};

#[test]
fn trim_removes_unicode_white_space() {
    assert_eq!(trim("  a b \t\n"), "a b");
    assert_eq!(trim("\u{a0}\u{3000}x\u{2028}"), "x");
    assert_eq!(trim("   "), "");
    assert_eq!(trim(""), "");
    assert!(is_whitespace('\u{85}'));
    assert!(!is_whitespace('x'));
    assert!(!is_whitespace('\u{200b}'));
}

#[test]
fn parse_u64_like_std() {
    for s in ["0", "42", "+42", "007", "18446744073709551615", "18446744073709551616", "", "+", "-1", " 1", "1 ", "4x", "\u{0661}"] {
        assert_eq!(parse_u64(s), s.parse::<u64>().ok(), "{s:?}");
    }
}

#[test]
fn decimal_text_like_std() {
    for n in [0u64, 7, 10, 99, 1234, u64::MAX] {
        assert_eq!(u64_to_decimal(n), n.to_string());
    }
}

#[test]
fn pattern_operations() {
    assert_eq!(find("abcabc", "ca"), Some(2));
    assert_eq!(find("abc", ""), Some(0));
    assert_eq!(find("abc", "x"), None);
    assert!(contains("system stable", "stable"));
    assert!(!contains("", "a"));
    assert!(starts_with("--interval=1s", "--interval="));
    assert!(!starts_with("-i", "--interval="));
    assert_eq!(strip_prefix("average 1", "average "), Some("1"));
    assert_eq!(strip_prefix("avg 1", "average "), None);
    assert_eq!(strip_suffix("500ms", "ms"), Some("500"));
    assert_eq!(strip_suffix("ms", "ms"), Some(""));
    assert_eq!(strip_suffix("5s", "ms"), None);
    assert_eq!(split_once("a | peak b | peak c", " | peak "), Some(("a", "b | peak c")));
    assert_eq!(split_once("abc", "x"), None);
    assert_eq!(trim_start_matches("ababc", "ab"), "c");
    assert!(str_eq("héllo", "héllo"));
    assert!(!str_eq("a", "ab"));
}

#[test]
fn case_conversions() {
    assert_eq!(to_ascii_lowercase("500MS Ä"), "500ms Ä");
    assert_eq!(to_uppercase("cpu straße"), "CPU STRASSE");
}

#[test]
fn average_peak_is_read() {
    assert_eq!(
        parse_average_peak("average 12% | peak 40%"),
        Some(("12%".to_string(), "40%".to_string()))
    );
    assert_eq!(parse_average_peak("average 1 | peak 2 | peak 3"), Some(("1".to_string(), "2 | peak 3".to_string())));
    assert_eq!(parse_average_peak("avg 12% | peak 40%"), None);
    assert_eq!(parse_average_peak("average 12%"), None);
}

#[test]
fn chart_title_with_average_and_peak() {
    let t = accessible_chart_title("CPU trend  average 12% | peak 40%");
    assert_eq!(t.heading, " CPU TREND ");
    match t.detail {
        ChartTitleDetail::AveragePeak(a, p) => {
            assert_eq!(a, "12%");
            assert_eq!(p, "40%");
        }
        _ => panic!("expected average and peak"),
    }
}

#[test]
fn chart_title_with_note_or_nothing() {
    let t = accessible_chart_title("Memory trend  rising fast ");
    assert_eq!(t.heading, " MEMORY TREND ");
    match t.detail {
        ChartTitleDetail::Note(n) => assert_eq!(n, " RISING FAST"),
        _ => panic!("expected a note"),
    }
    let t = accessible_chart_title("Swap");
    assert_eq!(t.heading, " SWAP TREND ");
    assert!(matches!(t.detail, ChartTitleDetail::Empty));
    let t = accessible_chart_title("Disk trend");
    assert_eq!(t.heading, " DISK TREND ");
    assert!(matches!(t.detail, ChartTitleDetail::Empty));
}

fn gpu(freq: Option<u64>, max: Option<u64>) -> GpuInfo {
    GpuInfo { kind: "Intel".to_string(), driver: "i915".to_string(), frequency_mhz: freq, max_frequency_mhz: max }
}

#[test]
fn gpu_detail_forms() {
    assert_eq!(gpu_load_detail(&gpu(Some(1200), Some(2400)), "2.40"), "Intel 1200/2.40G");
    assert_eq!(gpu_load_detail(&gpu(Some(300), Some(1000)), "1.00"), "Intel 300/1.00G");
    assert_eq!(gpu_load_detail(&gpu(Some(300), Some(999)), "1.00"), "Intel 300/999M");
    assert_eq!(gpu_load_detail(&gpu(Some(350), None), ""), "Intel 350MHz");
    assert_eq!(gpu_load_detail(&gpu(None, Some(1500)), "1.50"), "Intel i915");
    assert_eq!(gpu_load_detail(&gpu(None, None), ""), "Intel i915");
}

#[test]
fn severity_words() {
    assert_eq!(severity_label(Severity::Okay), "OK");
    assert_eq!(severity_label(Severity::Warn), "WARN");
    assert_eq!(severity_label(Severity::Critical), "CRIT");
    assert_eq!(severity_label(Severity::Neutral), "INFO");
    assert_eq!(health_status_label(Severity::Okay), "Healthy");
    assert_eq!(health_status_label(Severity::Warn), "Attention");
    assert_eq!(health_status_label(Severity::Critical), "Critical");
    assert_eq!(health_status_label(Severity::Neutral), "Monitoring");
    assert_eq!(health_status_text(Severity::Okay), "System healthy. No action needed.");
    assert_eq!(health_status_text(Severity::Critical), "Critical pressure. Investigate now.");
}

#[test]
fn law_scenario_severity_labels_distinct() {
    let all = [Severity::Okay, Severity::Warn, Severity::Critical, Severity::Neutral];
    for a in all {
        assert!(!severity_label(a).is_empty());
        for b in all {
            if a != b {
                assert_ne!(severity_label(a), severity_label(b));
                assert_ne!(health_status_label(a), health_status_label(b));
                assert_ne!(health_status_text(a), health_status_text(b));
            }
        }
    }
}

#[test]
fn theme_palette() {
    let t = catppuccin_mocha();
    assert_eq!(t.base, Rgb { r: 30, g: 30, b: 46 });
    assert_eq!(t.text, Rgb { r: 205, g: 214, b: 244 });
    assert_eq!(t.accent_red, Rgb { r: 243, g: 139, b: 168 });
    assert_eq!(t.border, t.surface1);
    assert_eq!(t.bg_panel, t.base);
}

#[test]
fn overview_layout_decisions() {
    assert_eq!(overview_row_heights(23), (6, 7));
    assert_eq!(overview_row_heights(24), (7, 8));
    assert_eq!(body_layout(200, 11), BodyLayout::AlertsOnly);
    assert_eq!(body_layout(109, 30), BodyLayout::Stacked);
    assert_eq!(body_layout(110, 12), BodyLayout::Columns);
    assert_eq!(analysis_layout(100, 9), AnalysisLayout::AlertsOnly);
    assert_eq!(analysis_layout(69, 10), AnalysisLayout::Vertical);
    assert_eq!(analysis_layout(70, 10), AnalysisLayout::Horizontal);
    assert!(pressure_meter_compact(33));
    assert!(!pressure_meter_compact(34));
    assert_eq!(kpi_body(3), KpiBody::Compact);
    assert_eq!(kpi_body(4), KpiBody::WithSparkArea);
}

#[test]
fn sparkline_scale() {
    assert_eq!(sparkline_ceiling(Some(100), &vec![5, 300]), 100);
    assert_eq!(sparkline_ceiling(None, &vec![5, 300, 7]), 300);
    assert_eq!(sparkline_ceiling(None, &vec![0, 0]), 1);
    assert_eq!(sparkline_ceiling(None, &vec![]), 1);
}

#[test]
fn guidance_text() {
    assert_eq!(status_guidance(Some("Close apps")), "Close apps");
    assert_eq!(status_guidance(None), "Collecting system guidance");
}

#[test]
fn alert_panel_severity() {
    let v = |xs: &[&str]| xs.iter().map(|s| s.to_string()).collect::<Vec<_>>();
    assert_eq!(alert_block_severity(&v(&["\u{26a1} CPU hot", "x"])), Severity::Critical);
    assert_eq!(alert_block_severity(&v(&["\u{26a0} Memory", "x"])), Severity::Warn);
    assert_eq!(alert_block_severity(&v(&["System stable"])), Severity::Okay);
    assert_eq!(alert_block_severity(&v(&["\u{26a1} CPU hot"])), Severity::Warn);
}

#[test]
fn alert_colors_and_count() {
    assert_eq!(alert_tone("\u{26a1} CPU hot"), Tone::AccentRed);
    assert_eq!(alert_tone("\u{26a0} Memory"), Tone::AccentOrange);
    assert_eq!(alert_tone("all fine"), Tone::AccentGreen);
    assert_eq!(alerts_to_show(0), 0);
    assert_eq!(alerts_to_show(4), 0);
    assert_eq!(alerts_to_show(7), 3);
    assert_eq!(alerts_to_show(10), 6);
    assert_eq!(alerts_to_show(u16::MAX), 6);
}

#[test]
fn storage_choices() {
    assert_eq!(storage_drive_index(&vec![Severity::Okay, Severity::Warn, Severity::Critical]), Some(1));
    assert_eq!(storage_drive_index(&vec![Severity::Okay, Severity::Okay]), Some(0));
    assert_eq!(storage_drive_index(&vec![]), None);
    assert_eq!(storage_section_heights(true, false), (6, 0));
    assert_eq!(storage_section_heights(false, true), (0, 6));
}

#[test]
fn process_table_choices() {
    let s = search_bar(false, "");
    assert!(!s.visible && s.header_height == 3 && !s.cursor);
    let s = search_bar(false, "fire");
    assert!(s.visible && s.header_height == 5 && !s.cursor);
    let s = search_bar(true, "");
    assert!(s.visible && s.header_height == 5 && s.cursor);
    let r = process_row_style(true, true, "High CPU");
    assert_eq!(r.pid, Tone::AccentRed);
    assert_eq!(r.name, Tone::AccentRed);
    assert_eq!(r.severity, Severity::Critical);
    assert!(r.cpu_bold && r.name_bold && r.dev_prefix);
    assert_eq!(r.reason, Tone::AccentTeal);
    let r = process_row_style(false, false, "Normal");
    assert_eq!(r.cpu, Tone::AccentTeal);
    assert_eq!(r.name, Tone::Text);
    assert_eq!(r.reason, Tone::Overlay0);
    let r = process_row_style(true, false, "High CPU");
    assert_eq!(r.reason, Tone::OfSeverity(Severity::Critical));
    assert_eq!(clamp_table_offset(5, 3), 2);
    assert_eq!(clamp_table_offset(1, 3), 1);
    assert_eq!(clamp_table_offset(4, 0), 0);
}

#[test]
fn header_and_footer_choices() {
    assert_eq!(footer_help_label(true), " H-hide ");
    assert_eq!(footer_help_label(false), " H-help ");
    assert!(footer_compact(99));
    assert!(!footer_compact(100));
    let h = header_layout(99, true);
    assert_eq!(h.vitals, HeaderVitals::Compact);
    assert!(!h.full_status_line && !h.long_host_line);
    let h = header_layout(105, true);
    assert_eq!(h.vitals, HeaderVitals::WithBattery);
    assert!(h.full_status_line && !h.kernel_details);
    let h = header_layout(110, false);
    assert_eq!(h.vitals, HeaderVitals::WithoutBattery);
    assert!(h.long_host_line && h.kernel_details);
}

#[test]
fn whitespace_matches_std_everywhere() {
    for code in 0u32..=0x10FFFF {
        if let Some(c) = char::from_u32(code) {
            assert_eq!(is_whitespace(c), c.is_whitespace(), "{code:#x}");
        }
    }
    for s in [" a ", "\u{2000}\u{205f}b\u{a0}", "\u{200b}c\u{200b}", "\n\r\t", "x y"] {
        assert_eq!(trim(s), s.trim());
    }
}
