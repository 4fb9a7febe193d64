use fan_control::diagnostic::Diagnostic;
use fan_control::hardware::{Hardware, HardwareItem, HardwareType};
use fan_control::id::IdGenerator;

fn item(name: &str, id: &str, index: usize, value: Option<i32>) -> HardwareItem {
    HardwareItem {
        name: name.to_string(),
        hardware_id: id.to_string(),
        internal_index: index,
        value,
    }
}

/// The diagnostics in short: what is wrong, and with what.
fn told(diagnostics: &[Diagnostic]) -> Vec<String> {
    diagnostics
        .iter()
        .map(|diagnostic| match diagnostic {
            Diagnostic::HardwareNotFound { hardware_id } => format!("hardware {}", hardware_id),
            Diagnostic::InconsistentIndex { name } => format!("index {}", name),
            Diagnostic::InputNotFound { input } => format!("input {}", input),
            Diagnostic::NoHysteresisBand { name } => format!("band {}", name),
        })
        .collect()
}

fn inventory() -> Hardware {
    Hardware {
        controls: vec![item("pump", "ctl/pump", 0, None), item("fan", "ctl/fan", 1, None)],
        temps: vec![
            item("cpu", "temp/cpu", 3, Some(55)),
            item("gpu", "temp/gpu", 4, None),
            item("cpu again", "temp/cpu", 5, Some(99)),
        ],
    }
}

#[test]
fn get_internal_index_finds_the_first_item_with_the_id() {
    let hardware = inventory();
    assert_eq!(hardware.get_internal_index(&"temp/cpu".to_string(), HardwareType::Temp), Some(3));
    assert_eq!(hardware.get_internal_index(&"temp/gpu".to_string(), HardwareType::Temp), Some(4));
    assert_eq!(hardware.get_internal_index(&"ctl/fan".to_string(), HardwareType::Control), Some(1));
}

#[test]
fn get_internal_index_keeps_the_types_apart() {
    let hardware = inventory();
    assert_eq!(hardware.get_internal_index(&"temp/cpu".to_string(), HardwareType::Control), None);
    assert_eq!(hardware.get_internal_index(&"ctl/fan".to_string(), HardwareType::Temp), None);
    assert_eq!(hardware.get_internal_index(&"".to_string(), HardwareType::Temp), None);
}

#[test]
fn get_value_reads_the_sensor_with_the_index() {
    let hardware = inventory();
    assert_eq!(hardware.get_value(3), Some(55));
    assert_eq!(hardware.get_value(4), None);
    assert_eq!(hardware.get_value(5), Some(99));
    assert_eq!(hardware.get_value(0), None);
    assert_eq!(hardware.get_value(17), None);
}

#[test]
fn bind_sets_the_index_of_an_id_that_resolves() {
    let hardware = inventory();
    let mut id = Some("temp/gpu".to_string());
    let mut index = Some(17);
    let mut diagnostics = Vec::new();
    hardware.bind(HardwareType::Temp, &"t".to_string(), &mut id, &mut index, &mut diagnostics);
    assert_eq!(id.as_deref(), Some("temp/gpu"));
    assert_eq!(index, Some(4));
    assert!(diagnostics.is_empty());
}

#[test]
fn bind_drops_an_id_that_does_not_resolve() {
    let hardware = inventory();
    let mut id = Some("temp/none".to_string());
    let mut index = Some(17);
    let mut diagnostics = Vec::new();
    hardware.bind(HardwareType::Temp, &"t".to_string(), &mut id, &mut index, &mut diagnostics);
    assert_eq!(id, None);
    assert_eq!(index, None);
    assert_eq!(told(&diagnostics), ["hardware temp/none"]);
}

#[test]
fn bind_leaves_an_index_exactly_where_it_leaves_an_id() {
    let hardware = inventory();
    for id in [None, Some("temp/cpu"), Some("temp/gpu"), Some("temp/none"), Some("ctl/fan")] {
        for index in [None, Some(0), Some(3), Some(17)] {
            for hardware_type in [HardwareType::Temp, HardwareType::Control] {
                let mut bound_id = id.map(|s| s.to_string());
                let mut bound_index = index;
                let mut diagnostics = Vec::new();
                hardware.bind(
                    hardware_type,
                    &"t".to_string(),
                    &mut bound_id,
                    &mut bound_index,
                    &mut diagnostics,
                );
                assert_eq!(bound_id.is_some(), bound_index.is_some());
                let resolved = match id {
                    Some(id) => hardware.get_internal_index(&id.to_string(), hardware_type),
                    None => None,
                };
                assert_eq!(bound_index, resolved);
            }
        }
    }
}

#[test]
fn bind_drops_an_index_without_an_id() {
    let hardware = inventory();
    let mut id = None;
    let mut index = Some(3);
    let mut diagnostics = Vec::new();
    hardware.bind(HardwareType::Temp, &"t".to_string(), &mut id, &mut index, &mut diagnostics);
    assert_eq!(id, None);
    assert_eq!(index, None);
    assert_eq!(told(&diagnostics), ["index t"]);

    let mut index = None;
    hardware.bind(HardwareType::Temp, &"t".to_string(), &mut id, &mut index, &mut diagnostics);
    assert_eq!(index, None);
    assert_eq!(diagnostics.len(), 1);
}

#[test]
fn new_id_counts_up_from_one() {
    let mut generator = IdGenerator::new();
    let mut last = 0;
    for expected in 1..=100u32 {
        let id = generator.new_id();
        assert_eq!(id, expected);
        assert!(id > last);
        last = id;
    }
}
