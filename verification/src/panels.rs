//! What the dashboard panels show and how they are laid out, decided from
//! plain values: terminal sizes, flags, and the texts of the readings.

use vstd::prelude::*;
use crate::severity::Severity;
use crate::text::{contains, contains_spec, starts_with, starts_with_spec, str_eq};

verus! {

/// A theme color, named by its role.
#[derive(Debug, Clone, Copy, PartialEq, Eq, Structural)]
pub enum Tone {
    Text,
    Overlay0,
    AccentRed,
    AccentTeal,
    AccentOrange,
    AccentGreen,
    /// The color that stands for a severity.
    OfSeverity(Severity),
}

// ---------------------------------------------------------------- overview

/// Heights of the status strip and of the row of load cards on the
/// overview tab, for a tab `height` rows tall.
pub fn overview_row_heights(height: u16) -> (r: (u16, u16))
    ensures
        r == (if height < 24 {
            (6u16, 7u16)
        } else {
            (7u16, 8u16)
        }),
{
    if height < 24 {
        (6, 7)
    } else {
        (7, 8)
    }
}

/// How the lower part of the overview tab is arranged.
#[derive(Debug, Clone, Copy, PartialEq, Eq, Structural)]
pub enum BodyLayout {
    /// Only the status and guidance panel.
    AlertsOnly,
    /// Charts above, analysis (meters and guidance) below.
    Stacked,
    /// Charts, pressure meters and guidance side by side.
    Columns,
}

/// The arrangement of the overview's lower part for its size.
pub fn body_layout(width: u16, height: u16) -> (r: BodyLayout)
    ensures
        r == (if height < 12 {
            BodyLayout::AlertsOnly
        } else if width < 110 {
            BodyLayout::Stacked
        } else {
            BodyLayout::Columns
        }),
{
    if height < 12 {
        BodyLayout::AlertsOnly
    } else if width < 110 {
        BodyLayout::Stacked
    } else {
        BodyLayout::Columns
    }
}

/// How the analysis part (pressure meters and guidance) is arranged.
#[derive(Debug, Clone, Copy, PartialEq, Eq, Structural)]
pub enum AnalysisLayout {
    /// Only the status and guidance panel.
    AlertsOnly,
    /// Meters above the guidance.
    Vertical,
    /// Meters beside the guidance.
    Horizontal,
}

/// The arrangement of the analysis part for its size.
pub fn analysis_layout(width: u16, height: u16) -> (r: AnalysisLayout)
    ensures
        r == (if height < 10 {
            AnalysisLayout::AlertsOnly
        } else if width < 70 {
            AnalysisLayout::Vertical
        } else {
            AnalysisLayout::Horizontal
        }),
{
    if height < 10 {
        AnalysisLayout::AlertsOnly
    } else if width < 70 {
        AnalysisLayout::Vertical
    } else {
        AnalysisLayout::Horizontal
    }
}

/// Whether a pressure meter `width` columns wide is drawn as one compact
/// line of text in place of a gauge.
pub fn pressure_meter_compact(width: u16) -> (r: bool)
    ensures
        r == (width < 34),
{
    width < 34
}

/// How a load card uses the rows inside its border.
#[derive(Debug, Clone, Copy, PartialEq, Eq, Structural)]
pub enum KpiBody {
    /// Value and detail lines only.
    Compact,
    /// Value and detail lines above a sparkline area.
    WithSparkArea,
}

/// The layout of a load card `inner_height` rows tall inside its border.
pub fn kpi_body(inner_height: u16) -> (r: KpiBody)
    ensures
        r == (if inner_height <= 3 {
            KpiBody::Compact
        } else {
            KpiBody::WithSparkArea
        }),
{
    if inner_height <= 3 {
        KpiBody::Compact
    } else {
        KpiBody::WithSparkArea
    }
}

/// The largest value among `data`.
pub open spec fn seq_max(data: Seq<u64>) -> u64
    decreases data.len(),
{
    if data.len() == 0 {
        0
    } else {
        let rest = seq_max(data.drop_last());
        if data.last() > rest {
            data.last()
        } else {
            rest
        }
    }
}

/// The top of a sparkline's scale: the fixed one where the card has one,
/// else the largest value, and at least 1.
pub open spec fn sparkline_ceiling_spec(spark_max: Option<u64>, data: Seq<u64>) -> u64 {
    match spark_max {
        Some(m) => m,
        None => if data.len() > 0 && seq_max(data) > 1 {
            seq_max(data)
        } else {
            1
        },
    }
}

/// The top of a sparkline's scale.
pub fn sparkline_ceiling(spark_max: Option<u64>, data: &Vec<u64>) -> (r: u64)
    ensures
        r == sparkline_ceiling_spec(spark_max, data@),
        spark_max matches Some(m) ==> r == m,
        spark_max is None ==> r >= 1 && (forall|i: int| 0 <= i < data@.len() ==> data@[i] <= r) && (
        r == 1 || exists|i: int| 0 <= i < data@.len() && data@[i] == r),
{
    proof {
        law_sparkline_ceiling_bounds(spark_max, data@);
    }
    match spark_max {
        Some(m) => m,
        None => {
            let mut top: u64 = 0;
            let mut i: usize = 0;
            while i < data.len()
                invariant
                    i <= data@.len(),
                    top == seq_max(data@.take(i as int)),
                decreases data@.len() - i,
            {
                assert(data@.take(i + 1).drop_last() =~= data@.take(i as int));
                if data[i] > top {
                    top = data[i];
                }
                i = i + 1;
            }
            assert(data@.take(data@.len() as int) =~= data@);
            if data.len() > 0 && top > 1 {
                top
            } else {
                1
            }
        },
    }
}

/// The guidance line of the status strip: the detail of the main cause,
/// while the analysis has none yet a waiting note.
pub fn status_guidance<'a>(first_cause_detail: Option<&'a str>) -> (r: &'a str)
    ensures
        r@ == match first_cause_detail {
            Some(d) => d@,
            None => "Collecting system guidance"@,
        },
{
    match first_cause_detail {
        Some(d) => d,
        None => "Collecting system guidance",
    }
}

// ------------------------------------------------------ status and guidance

/// The severity of the status and guidance panel, from the alert notes
/// (at least one): several notes are a warning, critical where the first
/// carries the lightning mark; a single note is fine where it reports the
/// system stable.
pub open spec fn alert_block_severity_spec(alerts: Seq<Seq<char>>) -> Severity {
    if alerts.len() > 1 && contains_spec(alerts[0], "\u{26a1}"@) {
        Severity::Critical
    } else if alerts.len() > 1 {
        Severity::Warn
    } else if contains_spec(alerts[0], "stable"@) {
        Severity::Okay
    } else {
        Severity::Warn
    }
}

/// The severity of the status and guidance panel.
pub fn alert_block_severity(alerts: &Vec<String>) -> (r: Severity)
    requires
        alerts@.len() > 0,
    ensures
        r == alert_block_severity_spec(alerts@.map_values(|s: String| s@)),
        alerts@.len() > 1 ==> (r == Severity::Critical <==> contains_spec(alerts@[0]@, "\u{26a1}"@)),
        alerts@.len() > 1 && r != Severity::Critical ==> r == Severity::Warn,
        alerts@.len() == 1 ==> (r == Severity::Okay <==> contains_spec(alerts@[0]@, "stable"@)),
        alerts@.len() == 1 && r != Severity::Okay ==> r == Severity::Warn,
{
    let ghost all = alerts@.map_values(|s: String| s@);
    assert(all[0] == alerts@[0]@);
    let first = alerts[0].as_str();
    if alerts.len() > 1 && contains(first, "\u{26a1}") {
        Severity::Critical
    } else if alerts.len() > 1 {
        Severity::Warn
    } else if contains(first, "stable") {
        Severity::Okay
    } else {
        Severity::Warn
    }
}

/// The color of one alert note: red for a note led by the lightning mark,
/// orange for one led by the warning sign, green otherwise.
pub fn alert_tone(alert: &str) -> (r: Tone)
    ensures
        r == (if starts_with_spec(alert@, "\u{26a1}"@) {
            Tone::AccentRed
        } else if starts_with_spec(alert@, "\u{26a0}"@) {
            Tone::AccentOrange
        } else {
            Tone::AccentGreen
        }),
{
    if starts_with(alert, "\u{26a1}") {
        Tone::AccentRed
    } else if starts_with(alert, "\u{26a0}") {
        Tone::AccentOrange
    } else {
        Tone::AccentGreen
    }
}

/// How many alert notes the guidance panel lists when `height` rows tall:
/// what is left after four rows, and at most six.
pub fn alerts_to_show(height: u16) -> (r: usize)
    ensures
        r == (if height <= 4 {
            0
        } else if height - 4 > 6 {
            6
        } else {
            (height - 4) as usize
        }),
{
    let h = height as usize;
    let left = if h >= 4 {
        h - 4
    } else {
        0
    };
    if left < 6 {
        left
    } else {
        6
    }
}

/// The first position in `risks` that is not fine, at or after `i`.
pub open spec fn first_at_risk_from(risks: Seq<Severity>, i: int) -> Option<int>
    decreases risks.len() - i,
{
    if i < 0 || i >= risks.len() {
        None
    } else if risks[i] != Severity::Okay {
        Some(i)
    } else {
        first_at_risk_from(risks, i + 1)
    }
}

/// The drive the guidance panel reports on: the first one at risk, else
/// the first one, if any.
pub open spec fn storage_drive_index_spec(risks: Seq<Severity>) -> Option<int> {
    match first_at_risk_from(risks, 0) {
        Some(i) => Some(i),
        None => if risks.len() > 0 {
            Some(0)
        } else {
            None
        },
    }
}

/// The position of the drive the guidance panel reports on, among drives
/// with these risk levels.
pub fn storage_drive_index(risks: &Vec<Severity>) -> (r: Option<usize>)
    ensures
        r matches Some(i) ==> storage_drive_index_spec(risks@) == Some(i as int),
        r is None ==> storage_drive_index_spec(risks@) is None,
        r matches Some(i) ==> i < risks@.len(),
        (exists|k: int| 0 <= k < risks@.len() && risks@[k] != Severity::Okay) ==> (r matches Some(i)
            && risks@[i as int] != Severity::Okay && forall|j: int|
            0 <= j < i ==> risks@[j] == Severity::Okay),
        r is None <==> risks@.len() == 0,
{
    proof {
        law_storage_drive_choice(risks@);
    }
    let n = risks.len();
    let mut i: usize = 0;
    while i < n
        invariant
            n == risks@.len(),
            i <= n,
            first_at_risk_from(risks@, 0) == first_at_risk_from(risks@, i as int),
            forall|j: int| 0 <= j < i ==> risks@[j] == Severity::Okay,
        decreases n - i,
    {
        if risks[i] != Severity::Okay {
            return Some(i);
        }
        i = i + 1;
    }
    if n > 0 {
        Some(0)
    } else {
        None
    }
}

// -------------------------------------------------------------- processes

/// The search line of the process tab.
#[derive(Debug, Clone, Copy, PartialEq, Eq, Structural)]
pub struct SearchBar {
    /// Whether the search line is shown.
    pub visible: bool,
    /// Rows of the tab's header (summary, and search line if shown).
    pub header_height: u16,
    /// Whether the input cursor is drawn after the search text.
    pub cursor: bool,
}

/// The search line: shown while searching or while a search text is kept.
pub fn search_bar(is_search_mode: bool, search: &str) -> (r: SearchBar)
    ensures
        r.visible == (is_search_mode || search@.len() > 0),
        r.header_height == (if r.visible {
            5u16
        } else {
            3u16
        }),
        r.cursor == is_search_mode,
{
    let visible = is_search_mode || search.unicode_len() > 0;
    SearchBar { visible, header_height: if visible { 5 } else { 3 }, cursor: is_search_mode }
}

/// How one row of the process table is drawn.
#[derive(Debug, Clone, Copy, PartialEq, Eq, Structural)]
pub struct ProcessRowStyle {
    pub pid: Tone,
    pub cpu: Tone,
    pub cpu_bold: bool,
    /// The severity shown before the command.
    pub severity: Severity,
    pub name: Tone,
    pub name_bold: bool,
    /// Whether the command is marked as a development tool.
    pub dev_prefix: bool,
    pub reason: Tone,
}

/// The style of a process row: a high-risk process is red and critical, a
/// development tool is marked and teal, and a reason other than `Normal`
/// takes the row's color.
pub fn process_row_style(is_risk: bool, is_dev: bool, reason: &str) -> (r: ProcessRowStyle)
    ensures
        r.pid == (if is_risk {
            Tone::AccentRed
        } else {
            Tone::Text
        }),
        r.cpu == (if is_risk {
            Tone::AccentRed
        } else {
            Tone::AccentTeal
        }),
        r.cpu_bold == is_risk,
        r.severity == (if is_risk {
            Severity::Critical
        } else {
            Severity::Okay
        }),
        r.name == (if is_risk {
            Tone::AccentRed
        } else if is_dev {
            Tone::AccentTeal
        } else {
            Tone::Text
        }),
        r.name_bold == is_dev,
        r.dev_prefix == is_dev,
        r.reason == (if reason@ == "Normal"@ {
            Tone::Overlay0
        } else if is_dev {
            Tone::AccentTeal
        } else {
            Tone::OfSeverity(r.severity)
        }),
{
    let severity = if is_risk {
        Severity::Critical
    } else {
        Severity::Okay
    };
    ProcessRowStyle {
        pid: if is_risk {
            Tone::AccentRed
        } else {
            Tone::Text
        },
        cpu: if is_risk {
            Tone::AccentRed
        } else {
            Tone::AccentTeal
        },
        cpu_bold: is_risk,
        severity,
        name: if is_risk {
            Tone::AccentRed
        } else if is_dev {
            Tone::AccentTeal
        } else {
            Tone::Text
        },
        name_bold: is_dev,
        dev_prefix: is_dev,
        reason: if str_eq(reason, "Normal") {
            Tone::Overlay0
        } else if is_dev {
            Tone::AccentTeal
        } else {
            Tone::OfSeverity(severity)
        },
    }
}

/// The first row shown in a process table of `rows` rows, from the kept
/// scroll offset: never past the last row.
pub fn clamp_table_offset(offset: usize, rows: usize) -> (r: usize)
    ensures
        r == (if rows == 0 {
            0
        } else if offset < rows - 1 {
            offset
        } else {
            (rows - 1) as usize
        }),
{
    let last = if rows > 0 {
        rows - 1
    } else {
        0
    };
    if offset < last {
        offset
    } else {
        last
    }
}

// ---------------------------------------------------------------- storage

/// Heights of the storage-health and disk-I/O tables: six rows each where
/// there is something to list, none otherwise.
pub fn storage_section_heights(has_health: bool, has_disk_io: bool) -> (r: (u16, u16))
    ensures
        r.0 == (if has_health {
            6u16
        } else {
            0u16
        }),
        r.1 == (if has_disk_io {
            6u16
        } else {
            0u16
        }),
{
    (if has_health {
        6
    } else {
        0
    }, if has_disk_io {
        6
    } else {
        0
    })
}

// ------------------------------------------------------- header and footer

/// The key hint for the help overlay in the footer.
pub fn footer_help_label(show_help: bool) -> (r: &'static str)
    ensures
        r@ == (if show_help {
            " H-hide "@
        } else {
            " H-help "@
        }),
{
    if show_help {
        " H-hide "
    } else {
        " H-help "
    }
}

/// Whether the footer uses its short key hints (narrow terminal).
pub fn footer_compact(width: u16) -> (r: bool)
    ensures
        r == (width < 100),
{
    width < 100
}

/// The first line of the header's right-hand block.
#[derive(Debug, Clone, Copy, PartialEq, Eq, Structural)]
pub enum HeaderVitals {
    /// CPU temperature and GPU in short (narrow terminal).
    Compact,
    /// Battery, temperature, GPU and load.
    WithBattery,
    /// Temperature, GPU and load.
    WithoutBattery,
}

/// How the header is laid out for the terminal width.
#[derive(Debug, Clone, Copy, PartialEq, Eq, Structural)]
pub struct HeaderLayout {
    /// The host line leads with the dashboard's name.
    pub long_host_line: bool,
    /// The kernel and CPU vulnerability status are shown.
    pub kernel_details: bool,
    /// The status line starts with a `Status` label and ends with the age
    /// of the sample.
    pub full_status_line: bool,
    pub vitals: HeaderVitals,
}

/// The header layout for a terminal `width` columns wide, with or without a
/// battery reading.
pub fn header_layout(width: u16, has_battery: bool) -> (r: HeaderLayout)
    ensures
        r.long_host_line == (width >= 110),
        r.kernel_details == (width >= 110),
        r.full_status_line == (width >= 100),
        r.vitals == (if width < 100 {
            HeaderVitals::Compact
        } else if has_battery {
            HeaderVitals::WithBattery
        } else {
            HeaderVitals::WithoutBattery
        }),
{
    HeaderLayout {
        long_host_line: width >= 110,
        kernel_details: width >= 110,
        full_status_line: width >= 100,
        vitals: if width < 100 {
            HeaderVitals::Compact
        } else if has_battery {
            HeaderVitals::WithBattery
        } else {
            HeaderVitals::WithoutBattery
        },
    }
}

proof fn lemma_first_at_risk_from(risks: Seq<Severity>, i: int)
    requires
        0 <= i,
    ensures
        first_at_risk_from(risks, i) matches Some(k) ==> {
            &&& i <= k < risks.len()
            &&& risks[k] != Severity::Okay
            &&& forall|j: int| i <= j < k ==> risks[j] == Severity::Okay
        },
        first_at_risk_from(risks, i) is None ==> forall|j: int|
            i <= j < risks.len() ==> risks[j] == Severity::Okay,
    decreases risks.len() - i,
{
    if i < risks.len() && risks[i] == Severity::Okay {
        lemma_first_at_risk_from(risks, i + 1);
    }
}

/// The guidance panel reports on the first drive at risk: where some drive
/// is not fine, the chosen one is not fine and every drive before it is;
/// where all drives are fine, it reports on the first drive; it reports on
/// none only when there is none.
pub proof fn law_storage_drive_choice(risks: Seq<Severity>)
    ensures
        (exists|k: int| 0 <= k < risks.len() && risks[k] != Severity::Okay) ==> {
            &&& storage_drive_index_spec(risks) is Some
            &&& 0 <= storage_drive_index_spec(risks)->0 < risks.len()
            &&& risks[storage_drive_index_spec(risks)->0] != Severity::Okay
            &&& forall|j: int|
                0 <= j < storage_drive_index_spec(risks)->0 ==> risks[j] == Severity::Okay
        },
        (forall|k: int| 0 <= k < risks.len() ==> risks[k] == Severity::Okay) ==> storage_drive_index_spec(
            risks,
        ) == (if risks.len() > 0 {
            Some(0int)
        } else {
            None
        }),
{
    lemma_first_at_risk_from(risks, 0);
}

proof fn lemma_seq_max(data: Seq<u64>)
    ensures
        forall|i: int| 0 <= i < data.len() ==> data[i] <= seq_max(data),
        data.len() == 0 ==> seq_max(data) == 0,
        data.len() > 0 ==> exists|i: int| 0 <= i < data.len() && data[i] == seq_max(data),
    decreases data.len(),
{
    if data.len() > 0 {
        let rest = data.drop_last();
        lemma_seq_max(rest);
        assert forall|i: int| 0 <= i < data.len() implies data[i] <= seq_max(data) by {
            if i < rest.len() {
                assert(data[i] == rest[i]);
            }
        }
        if data.last() <= seq_max(rest) && rest.len() > 0 {
            let i = choose|i: int| 0 <= i < rest.len() && rest[i] == seq_max(rest);
            assert(data[i] == rest[i]);
        } else {
            assert(data[data.len() - 1] == seq_max(data));
        }
    }
}

/// The top of a sparkline's scale is the card's fixed maximum where it has
/// one; otherwise no sample is above it, it is at least 1, and it is one of
/// the samples or 1.
pub proof fn law_sparkline_ceiling_bounds(spark_max: Option<u64>, data: Seq<u64>)
    ensures
        spark_max matches Some(m) ==> sparkline_ceiling_spec(spark_max, data) == m,
        spark_max is None ==> {
            let top = sparkline_ceiling_spec(spark_max, data);
            &&& top >= 1
            &&& forall|i: int| 0 <= i < data.len() ==> data[i] <= top
            &&& (top == 1 || exists|i: int| 0 <= i < data.len() && data[i] == top)
        },
{
    lemma_seq_max(data);
}

/// The panel's severity reads the first note alone, and the number of
/// notes: with several notes it is critical exactly when the first carries
/// the lightning mark and a warning otherwise; a single note is fine
/// exactly when it reports the system stable, and a warning otherwise.
pub proof fn law_alert_block_severity(alerts: Seq<Seq<char>>)
    requires
        alerts.len() > 0,
    ensures
        alerts.len() > 1 ==> (alert_block_severity_spec(alerts) == Severity::Critical
            <==> contains_spec(alerts[0], "\u{26a1}"@)),
        alerts.len() > 1 && !contains_spec(alerts[0], "\u{26a1}"@) ==> alert_block_severity_spec(
            alerts,
        ) == Severity::Warn,
        alerts.len() == 1 ==> (alert_block_severity_spec(alerts) == Severity::Okay <==> contains_spec(
            alerts[0],
            "stable"@,
        )),
        alerts.len() == 1 && !contains_spec(alerts[0], "stable"@) ==> alert_block_severity_spec(
            alerts,
        ) == Severity::Warn,
{
}

/// Only the first note and the number of notes matter: notes after the
/// first never change the panel's severity.
pub proof fn law_alert_block_severity_first_note(a: Seq<Seq<char>>, b: Seq<Seq<char>>)
    requires
        a.len() > 0,
        a.len() == b.len(),
        a[0] == b[0],
    ensures
        alert_block_severity_spec(a) == alert_block_severity_spec(b),
{
}

} // verus!
