use burn_gradient_demo_app::requests::JsonField;
use burn_gradient_demo_app::system_info::{
    cpu_model_name, cpu_name, cpu_summary, driver_from_uevent, gpu_label, header_for_report,
    header_lines, is_gpu_card_name, report_fields, select_gpu_card, system_report,
};

const CPUINFO: &str = "processor\t: 0\nvendor_id\t: GenuineIntel\nmodel name\t: Intel(R) Core(TM) i7-8550U CPU @ 1.80GHz\nstepping\t: 10\n\nprocessor\t: 1\nmodel name\t: Second\n";

#[test]
fn model_name_is_read_from_first_matching_line() {
    assert_eq!(
        cpu_model_name(CPUINFO).as_deref(),
        Some("Intel(R) Core(TM) i7-8550U CPU @ 1.80GHz")
    );
}

#[test]
fn model_name_stops_at_second_colon_and_is_trimmed() {
    assert_eq!(
        cpu_model_name("model name :  A : B \n").as_deref(),
        Some("A")
    );
    assert_eq!(cpu_model_name("model name\t:\u{a0}X\u{3000}\r\n").as_deref(), Some("X"));
}

#[test]
fn model_name_missing_or_without_colon() {
    assert_eq!(cpu_model_name(""), None);
    assert_eq!(cpu_model_name("processor : 0\n"), None);
    // The first matching line has no colon: no name, later lines are not tried.
    assert_eq!(cpu_model_name("model name\nmodel name : X\n"), None);
    // The prefix must stand at the start of the line.
    assert_eq!(cpu_model_name(" model name : X"), None);
}

#[test]
fn model_name_on_last_line_without_newline() {
    assert_eq!(cpu_model_name("a\nmodel name: Z80").as_deref(), Some("Z80"));
}

#[test]
fn cpu_name_falls_back_to_arch_and_os() {
    assert_eq!(cpu_name(Some(CPUINFO), "x86_64", "linux"), "Intel(R) Core(TM) i7-8550U CPU @ 1.80GHz");
    assert_eq!(cpu_name(Some("flags : fpu\n"), "x86_64", "linux"), "x86_64 (linux)");
    assert_eq!(cpu_name(None, "aarch64", "macos"), "aarch64 (macos)");
}

#[test]
fn cpu_summary_counts_cores() {
    assert_eq!(cpu_summary("Intel", 8), "Intel (8 cores)");
    assert_eq!(cpu_summary("x", 1), "x (1 cores)");
    assert_eq!(cpu_summary("y", 128), "y (128 cores)");
    assert_eq!(cpu_summary("z", 0), "z (0 cores)");
}

#[test]
fn card_names() {
    assert!(is_gpu_card_name("card0"));
    assert!(is_gpu_card_name("card"));
    assert!(!is_gpu_card_name("card0-HDMI-A-1"));
    assert!(!is_gpu_card_name("renderD128"));
    assert!(!is_gpu_card_name("car"));
    assert!(!is_gpu_card_name("version"));
}

#[test]
fn first_card_is_selected() {
    let names = vec![
        Some("renderD128".to_string()),
        None,
        Some("card0-DP-1".to_string()),
        Some("card1".to_string()),
        Some("card0".to_string()),
    ];
    assert_eq!(select_gpu_card(&names), Some(3));
    let none = vec![Some("version".to_string()), None];
    assert_eq!(select_gpu_card(&none), None);
    assert_eq!(select_gpu_card(&Vec::new()), None);
}

#[test]
fn driver_is_read_from_uevent() {
    assert_eq!(
        driver_from_uevent("MAJOR=226\nMINOR=0\nDRIVER=i915\nPCI_ID=8086:5917\n").as_deref(),
        Some("i915")
    );
    assert_eq!(driver_from_uevent("DRIVER=amdgpu\r\nX=1\r\n").as_deref(), Some("amdgpu"));
    assert_eq!(driver_from_uevent("MAJOR=226\n"), None);
    // Every occurrence of the key is removed, as a replacement would.
    assert_eq!(driver_from_uevent("DRIVER=aDRIVER=b").as_deref(), Some("ab"));
}

#[test]
fn gpu_label_cases() {
    assert_eq!(gpu_label(None, None), "WGPU (Cross-platform GPU via Burn)");
    assert_eq!(
        gpu_label(Some("card0"), Some("DRIVER=nvidia\n")),
        "nvidia (via WGPU/Burn)"
    );
    assert_eq!(gpu_label(Some("card0"), Some("MAJOR=1\n")), "card0 (via WGPU/Burn)");
    assert_eq!(gpu_label(Some("card1"), None), "card1 (via WGPU/Burn)");
}

#[test]
fn report_combines_cpu_and_gpu() {
    let r = system_report(Some(CPUINFO), "x86_64", "linux", 8, Some("card0"), Some("DRIVER=i915\n"));
    assert_eq!(r.cpu, "Intel(R) Core(TM) i7-8550U CPU @ 1.80GHz (8 cores)");
    assert_eq!(r.gpu, "i915 (via WGPU/Burn)");
    let r = system_report(None, "x86_64", "windows", 4, None, None);
    assert_eq!(r.cpu, "x86_64 (windows) (4 cores)");
    assert_eq!(r.gpu, "WGPU (Cross-platform GPU via Burn)");
}

#[test]
fn header_shows_report_fields() {
    let lines = header_lines(&Some((
        JsonField::Text("Intel (8 cores)".to_string()),
        JsonField::Other,
    )));
    assert_eq!(
        lines,
        vec![
            "CPU: Intel (8 cores)".to_string(),
            "GPU: N/A".to_string(),
            "Stack: Dioxus, Burn, Ractor, Axum, Tokio".to_string(),
        ]
    );
    let lines = header_lines(&Some((JsonField::Missing, JsonField::Missing)));
    assert_eq!(
        lines,
        vec![
            "CPU: N/A".to_string(),
            "GPU: N/A".to_string(),
            "Stack: Dioxus, Burn, Ractor, Axum, Tokio".to_string(),
        ]
    );
    let lines = header_lines(&None);
    assert_eq!(lines, vec!["Loading system info".to_string()]);
}

#[test]
fn report_text_fields() {
    match report_fields("{\"cpu\": \"X (2 cores)\", \"gpu\": 5}") {
        Some((JsonField::Text(cpu), JsonField::Other)) => assert_eq!(cpu, "X (2 cores)"),
        other => panic!("unexpected {:?}", other),
    }
    assert!(matches!(report_fields("[1, 2]"), Some((JsonField::Missing, JsonField::Missing))));
    assert!(matches!(report_fields("{}"), Some((JsonField::Missing, JsonField::Missing))));
    assert!(report_fields("not json").is_none());
    assert!(report_fields("").is_none());
}

#[test]
fn header_for_report_text() {
    let lines = header_for_report(Some("{\"cpu\":\"A (4 cores)\",\"gpu\":\"i915 (via WGPU/Burn)\"}"));
    assert_eq!(
        lines,
        vec![
            "CPU: A (4 cores)".to_string(),
            "GPU: i915 (via WGPU/Burn)".to_string(),
            "Stack: Dioxus, Burn, Ractor, Axum, Tokio".to_string(),
        ]
    );
    // A failed request is answered with "{}": both fields show N/A.
    let lines = header_for_report(Some("{}"));
    assert_eq!(lines[0], "CPU: N/A");
    assert_eq!(lines[1], "GPU: N/A");
    assert_eq!(header_for_report(None), vec!["Loading system info".to_string()]);
    assert_eq!(header_for_report(Some("{oops")), vec!["Loading system info".to_string()]);
}
