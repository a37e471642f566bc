//! Verified core of a Linux system-health terminal monitor: command-line and
//! refresh-interval handling, the text that the dashboard panels show, and
//! the decisions that pick what each panel displays.

pub mod text;
pub mod interval;
pub mod cli;
pub mod severity;
pub mod chart;
pub mod theme;
pub mod gpu;
pub mod panels;
pub mod labels;
