use secv::json::JsonValue;
use secv::keyed::Keyed;
use secv::module::{PlaceholderModule, SecVError, SecVModule};
use secv::scanner::{
    build_scan_result, char_is_whitespace, contains_numeric, scanner_dependency_status, contains_text, failed_scan_result, nmap_arguments,
    parse_open_ports, parse_port, scan_settings, trim_text, NetworkScannerModule, ScanSettings,
};
use secv::text::{decimal, split_text};

fn text(s: &str) -> JsonValue {
    JsonValue::Str(s.to_string())
}

fn settings(scan_type: &str) -> ScanSettings {
    ScanSettings {
        target: "10.0.0.5".to_string(),
        ports: "1-100".to_string(),
        scan_type: scan_type.to_string(),
    }
}

const REPORT: &str = "Starting Nmap 7.94\nPORT    STATE SERVICE\n22/tcp  open  ssh\n80/tcp  open  http\n443/tcp closed https\n 8080/tcp open http-proxy\r\n53/udp  open  domain\n99999/tcp open bogus\nNmap done\n";

#[test]
fn open_ports_are_read_from_report() {
    assert_eq!(parse_open_ports(REPORT), vec![22, 80, 8080]);
    assert_eq!(parse_open_ports(""), Vec::<u16>::new());
    assert_eq!(parse_open_ports("no ports here"), Vec::<u16>::new());
}

#[test]
fn port_numbers_parse_like_unsigned_integers() {
    assert_eq!(parse_port("80"), Some(80));
    assert_eq!(parse_port("+443"), Some(443));
    assert_eq!(parse_port("65535"), Some(65535));
    assert_eq!(parse_port("0"), Some(0));
    assert_eq!(parse_port("65536"), None);
    assert_eq!(parse_port("123456789"), None);
    assert_eq!(parse_port(""), None);
    assert_eq!(parse_port("+"), None);
    assert_eq!(parse_port("-1"), None);
    assert_eq!(parse_port("8a"), None);
}

#[test]
fn trimming_removes_surrounding_whitespace() {
    assert_eq!(trim_text("  80 \t"), "80");
    assert_eq!(trim_text("\u{2003}22\n"), "22");
    assert_eq!(trim_text("   "), "");
    assert_eq!(trim_text("a b"), "a b");
}

#[test]
fn infix_search_finds_substrings() {
    assert!(contains_text("22/tcp open ssh", "/tcp"));
    assert!(contains_text("abc", ""));
    assert!(!contains_text("22/udp open", "/tcp"));
    assert!(!contains_text("op", "open"));
}

#[test]
fn numeric_check_accepts_any_number_character() {
    assert!(contains_numeric("1-1000"));
    assert!(contains_numeric("\u{0663}"));
    assert!(!contains_numeric("all"));
    assert!(!contains_numeric(""));
}

#[test]
fn scanner_inputs_require_target() {
    let scanner = NetworkScannerModule::new();
    let params = Keyed::new();
    match scanner.validate_inputs(&params) {
        Err(SecVError::ValidationFailed(m)) => assert_eq!(m, "Target is required"),
        other => panic!("unexpected {:?}", other),
    }
}

#[test]
fn scanner_inputs_reject_port_range_without_digits() {
    let scanner = NetworkScannerModule::new();
    let mut params = Keyed::new();
    params.insert("target".to_string(), text("10.0.0.5"));
    params.insert("ports".to_string(), text("all"));
    match scanner.validate_inputs(&params) {
        Err(SecVError::ValidationFailed(m)) => assert_eq!(m, "Invalid port range format"),
        other => panic!("unexpected {:?}", other),
    }
    params.insert("ports".to_string(), text("1-1000"));
    assert!(scanner.validate_inputs(&params).is_ok());
    params.insert("ports".to_string(), JsonValue::Number("80".to_string()));
    assert!(scanner.validate_inputs(&params).is_ok());
}

#[test]
fn scanner_metadata_declares_its_inputs() {
    let scanner = NetworkScannerModule::new();
    let m = scanner.metadata();
    assert_eq!(m.name, "network-scanner");
    assert_eq!(m.version, "2.0.0");
    assert!(m.inputs.get("target").unwrap().required);
    assert_eq!(m.inputs.get("ports").unwrap().default_value.as_deref(), Some("1-1000"));
    assert_eq!(m.inputs.get("scan_type").unwrap().default_value.as_deref(), Some("tcp"));
    assert_eq!(m.outputs.len(), 2);
    assert_eq!(m.dependencies, vec!["nmap".to_string()]);
}

#[test]
fn settings_fall_back_to_defaults() {
    let mut params = Keyed::new();
    params.insert("target".to_string(), text("host.example"));
    let s = scan_settings(&params).unwrap();
    assert_eq!(s.target, "host.example");
    assert_eq!(s.ports, "1-1000");
    assert_eq!(s.scan_type, "tcp");
    params.insert("ports".to_string(), text("22"));
    params.insert("scan_type".to_string(), text("udp"));
    let s = scan_settings(&params).unwrap();
    assert_eq!(s.ports, "22");
    assert_eq!(s.scan_type, "udp");
}

#[test]
fn settings_need_target_text() {
    let mut params = Keyed::new();
    params.insert("target".to_string(), JsonValue::Number("5".to_string()));
    match scan_settings(&params) {
        Err(SecVError::ValidationFailed(m)) => assert_eq!(m, "Target not provided"),
        other => panic!("unexpected {:?}", other.map(|_| ())),
    }
}

#[test]
fn arguments_select_scan_kind() {
    assert_eq!(
        nmap_arguments(&settings("syn")),
        vec!["-p", "1-100", "-sS", "--open", "-T4", "--host-timeout", "300s", "10.0.0.5"]
    );
    assert_eq!(nmap_arguments(&settings("udp"))[2], "-sU");
    assert_eq!(nmap_arguments(&settings("tcp"))[2], "-sT");
    assert_eq!(nmap_arguments(&settings("other"))[2], "-sT");
}

fn member<'a>(data: &'a JsonValue, key: &str) -> &'a JsonValue {
    data.get(key).unwrap()
}

#[test]
fn scan_result_lists_ports_and_duration() {
    let r = build_scan_result(&settings("tcp"), &vec![22, 80], 1234, "raw".to_string(), "T".to_string());
    assert!(r.success);
    assert!(r.warnings.is_empty());
    assert_eq!(r.execution_time_ms, 1234);
    match member(&r.data, "open_ports") {
        JsonValue::Array(a) => {
            assert_eq!(a.len(), 2);
            assert!(matches!(&a[1], JsonValue::Number(n) if n == "80"));
        }
        other => panic!("unexpected {:?}", other),
    }
    assert!(matches!(member(&r.data, "total_open_ports"), JsonValue::Number(n) if n == "2"));
    assert!(matches!(member(&r.data, "scan_duration"), JsonValue::Number(n) if n == "1.234"));
    assert!(matches!(member(&r.data, "target"), JsonValue::Str(s) if s == "10.0.0.5"));
    assert!(matches!(member(&r.data, "timestamp"), JsonValue::Str(s) if s == "T"));
}

#[test]
fn scan_without_open_ports_warns() {
    let r = build_scan_result(&settings("tcp"), &vec![], 5, String::new(), "T".to_string());
    assert_eq!(r.warnings, vec!["No open ports found".to_string()]);
    assert!(matches!(member(&r.data, "scan_duration"), JsonValue::Number(n) if n == "0.005"));
}

#[test]
fn failed_scan_carries_error_text() {
    let r = failed_scan_result("host down", 7);
    assert!(!r.success);
    assert_eq!(r.errors, vec!["Nmap scan failed: host down".to_string()]);
    assert_eq!(r.execution_time_ms, 7);
}

#[test]
fn interpreting_a_scan_reads_its_report() {
    let scanner = NetworkScannerModule::new();
    let ok = scanner.interpret_scan(&settings("tcp"), true, REPORT.to_string(), "", 10);
    assert!(ok.success);
    match member(&ok.data, "open_ports") {
        JsonValue::Array(a) => assert_eq!(a.len(), 3),
        other => panic!("unexpected {:?}", other),
    }
    let bad = scanner.interpret_scan(&settings("tcp"), false, String::new(), "denied", 10);
    assert_eq!(bad.errors, vec!["Nmap scan failed: denied".to_string()]);
}

#[test]
fn placeholder_result_reports_module_and_target() {
    let scanner = NetworkScannerModule::new();
    let module = PlaceholderModule::new(scanner.metadata().clone());
    let r = module.build_execution_result("10.0.0.5", 100, "T".to_string());
    assert!(r.success);
    assert!(matches!(member(&r.data, "message"), JsonValue::Str(s) if s == "Successfully executed network-scanner against 10.0.0.5"));
    let now = module.execution_result("h", 1);
    assert!(matches!(member(&now.data, "timestamp"), JsonValue::Str(s) if !s.is_empty()));
}

#[test]
fn decimal_text_of_numbers() {
    assert_eq!(decimal(0), "0");
    assert_eq!(decimal(7), "7");
    assert_eq!(decimal(1000), "1000");
    assert_eq!(decimal(u64::MAX), "18446744073709551615");
}

#[test]
fn splitting_keeps_empty_pieces() {
    assert_eq!(split_text("results.scan.ports", '.'), vec!["results", "scan", "ports"]);
    assert_eq!(split_text("", '.'), vec![""]);
    assert_eq!(split_text("a..b.", '.'), vec!["a", "", "b", ""]);
}

#[test]
fn keyed_insert_replaces_and_keeps_order() {
    let mut k = Keyed::new();
    k.insert("a".to_string(), 1u8);
    k.insert("b".to_string(), 2u8);
    k.insert("a".to_string(), 3u8);
    assert_eq!(k.len(), 2);
    assert_eq!(k.get("a"), Some(&3));
    assert_eq!(k.entry_at(0).0, "a");
    assert!(k.contains_key("b"));
    assert!(!k.contains_key("c"));
    let mut other = Keyed::new();
    other.insert("b".to_string(), 9u8);
    other.insert("c".to_string(), 4u8);
    k.extend(other);
    assert_eq!(k.get("b"), Some(&9));
    assert_eq!(k.get("c"), Some(&4));
    assert_eq!(k.len(), 3);
}

#[test]
fn whitespace_follows_the_white_space_property() {
    for c in [' ', '\t', '\n', '\r', '\u{0B}', '\u{0C}', '\u{85}', '\u{A0}', '\u{1680}', '\u{2000}', '\u{200A}', '\u{2028}', '\u{2029}', '\u{202F}', '\u{205F}', '\u{3000}'] {
        assert!(char_is_whitespace(c), "{:?}", c);
        assert_eq!(char_is_whitespace(c), c.is_whitespace());
    }
    for c in ['a', '0', '\u{200B}', '\u{180E}', '\u{FEFF}', '\u{1F}'] {
        assert!(!char_is_whitespace(c), "{:?}", c);
        assert_eq!(char_is_whitespace(c), c.is_whitespace());
    }
}

#[test]
fn scanner_dependency_needs_its_binary() {
    assert!(scanner_dependency_status(true).is_ok());
    match scanner_dependency_status(false) {
        Err(SecVError::DependencyMissing(d)) => assert_eq!(d, "nmap"),
        other => panic!("unexpected {:?}", other),
    }
}

#[test]
fn scanner_descriptor_declares_nothing_else() {
    let scanner = NetworkScannerModule::new();
    let m = scanner.metadata();
    assert_eq!(m.inputs.len(), 3);
    assert_eq!(m.outputs.len(), 2);
}
