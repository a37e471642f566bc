//! Severity levels and the words that name them, so that no severity is
//! shown by color alone.

use vstd::prelude::*;

verus! {

/// How serious a reading is.
#[derive(Debug, Clone, Copy, PartialEq, Eq, Structural)]
pub enum Severity {
    Okay,
    Warn,
    Critical,
    Neutral,
}

/// The short label shown beside a severity.
pub open spec fn severity_label_spec(severity: Severity) -> Seq<char> {
    match severity {
        Severity::Okay => "OK"@,
        Severity::Warn => "WARN"@,
        Severity::Critical => "CRIT"@,
        Severity::Neutral => "INFO"@,
    }
}

/// The word the header gives the overall health.
pub open spec fn health_status_label_spec(severity: Severity) -> Seq<char> {
    match severity {
        Severity::Okay => "Healthy"@,
        Severity::Warn => "Attention"@,
        Severity::Critical => "Critical"@,
        Severity::Neutral => "Monitoring"@,
    }
}

/// The sentence the status panel gives the overall health.
pub open spec fn health_status_text_spec(severity: Severity) -> Seq<char> {
    match severity {
        Severity::Okay => "System healthy. No action needed."@,
        Severity::Warn => "Needs attention. Watch active thresholds."@,
        Severity::Critical => "Critical pressure. Investigate now."@,
        Severity::Neutral => "Monitoring system state."@,
    }
}

/// The short label shown beside a severity.
pub fn severity_label(severity: Severity) -> (r: &'static str)
    ensures
        r@ == severity_label_spec(severity),
{
    match severity {
        Severity::Okay => "OK",
        Severity::Warn => "WARN",
        Severity::Critical => "CRIT",
        Severity::Neutral => "INFO",
    }
}

/// The word the header gives the overall health.
pub fn health_status_label(severity: Severity) -> (r: &'static str)
    ensures
        r@ == health_status_label_spec(severity),
{
    match severity {
        Severity::Okay => "Healthy",
        Severity::Warn => "Attention",
        Severity::Critical => "Critical",
        Severity::Neutral => "Monitoring",
    }
}

/// The sentence the status panel gives the overall health.
pub fn health_status_text(severity: Severity) -> (r: &'static str)
    ensures
        r@ == health_status_text_spec(severity),
{
    match severity {
        Severity::Okay => "System healthy. No action needed.",
        Severity::Warn => "Needs attention. Watch active thresholds.",
        Severity::Critical => "Critical pressure. Investigate now.",
        Severity::Neutral => "Monitoring system state.",
    }
}

/// Severity never rests on color alone: each severity has a label of its
/// own, never empty, and so have its header word and its status sentence.
pub proof fn law_severity_words_distinct(a: Severity, b: Severity)
    ensures
        severity_label_spec(a).len() > 0,
        health_status_label_spec(a).len() > 0,
        health_status_text_spec(a).len() > 0,
        a != b ==> severity_label_spec(a) != severity_label_spec(b),
        a != b ==> health_status_label_spec(a) != health_status_label_spec(b),
        a != b ==> health_status_text_spec(a) != health_status_text_spec(b),
{
    reveal_strlit("OK");
    reveal_strlit("WARN");
    reveal_strlit("CRIT");
    reveal_strlit("INFO");
    reveal_strlit("Healthy");
    reveal_strlit("Attention");
    reveal_strlit("Critical");
    reveal_strlit("Monitoring");
    reveal_strlit("System healthy. No action needed.");
    reveal_strlit("Needs attention. Watch active thresholds.");
    reveal_strlit("Critical pressure. Investigate now.");
    reveal_strlit("Monitoring system state.");
    if a != b {
        assert(severity_label_spec(a)[0] != severity_label_spec(b)[0]
            || severity_label_spec(a)[1] != severity_label_spec(b)[1]);
        assert(health_status_label_spec(a)[0] != health_status_label_spec(b)[0]
            || health_status_label_spec(a)[1] != health_status_label_spec(b)[1]);
        assert(health_status_text_spec(a)[0] != health_status_text_spec(b)[0]
            || health_status_text_spec(a)[1] != health_status_text_spec(b)[1]);
    }
}

} // verus!
