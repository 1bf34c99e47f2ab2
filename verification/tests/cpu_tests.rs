use bench_compare::cpu::cpu_model_from_lscpu;

#[test]
fn model_name_is_found_in_lscpu_output() {
    let output = br#"{"lscpu": [
        {"field": "Architecture:", "data": "x86_64"},
        {"field": "Model name:", "data": "AMD Ryzen 9 5950X 16-Core Processor"},
        {"field": "Model name:", "data": "second"}
    ]}"#;
    assert_eq!(
        cpu_model_from_lscpu(output),
        Some(String::from("AMD Ryzen 9 5950X 16-Core Processor"))
    );
}

#[test]
fn output_without_a_model_names_none() {
    assert_eq!(cpu_model_from_lscpu(b"not json"), None);
    assert_eq!(cpu_model_from_lscpu(br#"{"lscpu": {"field": "Model name:"}}"#), None);
    assert_eq!(cpu_model_from_lscpu(br#"{"other": []}"#), None);
    assert_eq!(cpu_model_from_lscpu(br#"{"lscpu": [{"field": "Vendor ID:", "data": "x"}]}"#), None);
    assert_eq!(cpu_model_from_lscpu(br#"{"lscpu": [{"field": "Model name:", "data": 7}]}"#), None);
    assert_eq!(
        cpu_model_from_lscpu(br#"{"lscpu": [{"field": "Model name:"}, {"field": "Model name:", "data": "late"}]}"#),
        None
    );
}
