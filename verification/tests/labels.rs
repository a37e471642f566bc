use linwatch::labels::{
    git_modified_text, gpu_compact_label, header_compact_vitals, header_host_line, header_system_line,
    kill_confirm_prompt, process_summary,
};

#[test]
fn host_line_forms() {
    assert_eq!(
        header_host_line(false, "box", "Fedora Linux", "41", "enforcing"),
        "Host: box  |  Fedora Linux 41  |  SELinux: enforcing"
    );
    assert_eq!(
        header_host_line(true, "box", "Fedora Linux", "41", "enforcing"),
        "System health dashboard  |  Host: box  |  Fedora Linux 41  |  SELinux: enforcing"
    );
}

#[test]
fn header_counts() {
    assert_eq!(git_modified_text(3), "3 modified");
    assert_eq!(header_system_line(16, 412, "3h 2m"), "CPU: 16 cores  |  Processes: 412  |  Uptime: 3h 2m");
    assert_eq!(gpu_compact_label(Some("AMD")), "GPU AMD");
    assert_eq!(gpu_compact_label(None), "GPU N/A");
    assert_eq!(header_compact_vitals("55\u{b0}C", "GPU AMD"), "CPU 55\u{b0}C | GPU AMD");
}

#[test]
fn process_tab_texts() {
    assert_eq!(process_summary(0), "\u{2630} 0 processes");
    assert_eq!(process_summary(1234), "\u{2630} 1234 processes");
    assert_eq!(kill_confirm_prompt(4321, Some("firefox")), "  Kill PID 4321 (firefox)? ");
    assert_eq!(kill_confirm_prompt(7, None), "  Kill PID 7 (unknown)? ");
}
