use cosmic_monitor::gpu::{
    amd_sysfs_usage, detect_gpu_vendor, intel_gpu_top_usage, intel_sysfs_usage, is_card_node,
    nvidia_usage, radeontop_usage, DrmFreqNode, DrmNode, GpuVendor, ToolProbe,
};
use cosmic_monitor::sensors::{classify_sensors, pick_sensors, SensorChoice};

fn labels(v: &[&str]) -> Vec<String> {
    v.iter().map(|s| s.to_string()).collect()
}

fn node(name: &str, data: Option<&str>) -> DrmNode {
    DrmNode { name: name.to_string(), data: data.map(|d| d.to_string()) }
}

const NO_TOOLS: ToolProbe = ToolProbe { nvidia_smi: false, radeontop: false, rocm_smi: false, intel_gpu_top: false };

#[test]
fn first_matching_label_wins_for_each_reading() {
    let l = labels(&["Composite", "Package id 0", "Core 0", "edge", "GPU"]);
    assert_eq!(classify_sensors(&l), SensorChoice { cpu: Some(1), gpu: Some(3) });
}

#[test]
fn labels_are_compared_in_lower_case() {
    let l = labels(&["acpitz", "TCTL", "Radeon"]);
    assert_eq!(classify_sensors(&l), SensorChoice { cpu: Some(1), gpu: Some(2) });
}

#[test]
fn unmatched_sensors_affect_neither_reading() {
    let with = labels(&["nvme Composite", "Core 3", "iwlwifi", "amdgpu edge"]);
    let without = labels(&["Core 3", "amdgpu edge"]);
    assert_eq!(classify_sensors(&with), SensorChoice { cpu: Some(1), gpu: Some(3) });
    assert_eq!(classify_sensors(&without), SensorChoice { cpu: Some(0), gpu: Some(1) });
    assert_eq!(classify_sensors(&labels(&["nvme", "acpitz"])), SensorChoice { cpu: None, gpu: None });
    assert_eq!(classify_sensors(&labels(&[])), SensorChoice { cpu: None, gpu: None });
}

#[test]
fn lowered_labels_are_matched_as_given() {
    assert_eq!(pick_sensors(&labels(&["CPU", "cpu"])), SensorChoice { cpu: Some(1), gpu: None });
}

#[test]
fn card_nodes_exclude_connectors() {
    assert!(is_card_node("card0"));
    assert!(is_card_node("card12"));
    assert!(!is_card_node("card0-DP-1"));
    assert!(!is_card_node("renderD128"));
}

#[test]
fn vendor_tools_are_probed_in_order() {
    let nodes = vec![node("card0", Some("../../drivers/amdgpu"))];
    let all = ToolProbe { nvidia_smi: true, radeontop: true, rocm_smi: true, intel_gpu_top: true };
    assert_eq!(detect_gpu_vendor(all, &nodes), GpuVendor::Nvidia);
    let amd = ToolProbe { nvidia_smi: false, rocm_smi: true, ..all };
    assert_eq!(detect_gpu_vendor(amd, &nodes), GpuVendor::Amd);
    let intel = ToolProbe { intel_gpu_top: true, ..NO_TOOLS };
    assert_eq!(detect_gpu_vendor(intel, &nodes), GpuVendor::Intel);
}

#[test]
fn driver_links_decide_without_tools() {
    let nodes = vec![
        node("card0-HDMI-A-1", Some("i915")),
        node("renderD128", Some("amdgpu")),
        node("card1", None),
        node("card2", Some("/sys/bus/pci/drivers/i915")),
        node("card3", Some("/sys/bus/pci/drivers/amdgpu")),
    ];
    assert_eq!(detect_gpu_vendor(NO_TOOLS, &nodes), GpuVendor::Intel);
    assert_eq!(detect_gpu_vendor(NO_TOOLS, &vec![node("card0", Some("nouveau"))]), GpuVendor::Unsupported);
}

#[test]
fn nvidia_output_is_a_percentage() {
    assert_eq!(nvidia_usage(true, " 37\n"), Some(3_700));
    assert_eq!(nvidia_usage(true, "12.5"), Some(1_250));
    assert_eq!(nvidia_usage(true, "N/A"), None);
    assert_eq!(nvidia_usage(false, "37"), None);
}

#[test]
fn amd_busy_file_of_first_readable_card() {
    let nodes = vec![
        node("card0-DP-1", Some("99")),
        node("card0", Some("garbage")),
        node("card1", Some("42\n")),
        node("card2", Some("7")),
    ];
    assert_eq!(amd_sysfs_usage(&nodes), Some(4_200));
    assert_eq!(amd_sysfs_usage(&vec![node("card0", None)]), None);
}

#[test]
fn radeontop_line_with_gpu_percentage() {
    let out = "dumping to -\nbus 03 vram 1%\ngpu 45.67%\ngpu 10%\n";
    assert_eq!(radeontop_usage(true, out), Some(4_567));
    assert_eq!(radeontop_usage(true, "gpu 45.67\r\n"), None);
    assert_eq!(radeontop_usage(false, out), None);
}

#[test]
fn intel_frequency_ratio() {
    let nodes = vec![
        DrmFreqNode { name: "card0".to_string(), cur_freq: Some("300\n".to_string()), max_freq: Some("0".to_string()) },
        DrmFreqNode { name: "card1".to_string(), cur_freq: Some("300\n".to_string()), max_freq: Some("1200\n".to_string()) },
    ];
    assert_eq!(intel_sysfs_usage(&nodes), Some(2_500));
    assert_eq!(intel_sysfs_usage(&vec![]), None);
}

#[test]
fn intel_gpu_top_busy_field() {
    let out = "{\"engines\": {\"Render/3D\": {\"busy\": 12.5, \"sema\": 0}}}";
    assert_eq!(intel_gpu_top_usage(true, out), Some(1_250));
    assert_eq!(intel_gpu_top_usage(true, "{\"busy\": 12.5"), None);
    assert_eq!(intel_gpu_top_usage(true, "{\"busy\":"), None);
    assert_eq!(intel_gpu_top_usage(false, out), None);
}
