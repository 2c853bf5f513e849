use std::collections::hash_map::DefaultHasher;
use std::hash::{Hash, Hasher};
use voice_keyboard::device::{
    find_device_by_name, get_device_hash, get_input_device, get_microphones, resembles,
    to_lower_hex, DeviceChoice,
};
use voice_keyboard::error::AudioError;

fn expected_id(name: &str) -> String {
    let mut hasher = DefaultHasher::new();
    name.hash(&mut hasher);
    format!("{:x}", hasher.finish())
}

fn names(list: &[Option<&str>]) -> Vec<Option<String>> {
    list.iter().map(|n| n.map(|s| s.to_string())).collect()
}

#[test]
fn hexadecimal_has_no_prefix_and_no_leading_zeros() {
    assert_eq!(to_lower_hex(0), "0");
    assert_eq!(to_lower_hex(9), "9");
    assert_eq!(to_lower_hex(10), "a");
    assert_eq!(to_lower_hex(15), "f");
    assert_eq!(to_lower_hex(16), "10");
    assert_eq!(to_lower_hex(255), "ff");
    assert_eq!(to_lower_hex(0xdead_beef), "deadbeef");
    assert_eq!(to_lower_hex(0x0123_4567_89ab_cdef), "123456789abcdef");
    assert_eq!(to_lower_hex(u64::MAX), "ffffffffffffffff");
    for value in [1u64, 4096, 65535, 1 << 40, (1 << 63) + 17] {
        assert_eq!(to_lower_hex(value), format!("{:x}", value));
    }
}

#[test]
fn device_id_is_the_hash_of_the_name_in_hexadecimal() {
    for name in ["Built-in Microphone", "USB Audio", "", "Mikrofon (Realtek)", "麦克风"] {
        assert_eq!(get_device_hash(name), expected_id(name));
    }
    assert_ne!(get_device_hash("Built-in Microphone"), "Built-in Microphone");
    assert_ne!(get_device_hash("a"), get_device_hash("b"));
    assert_eq!(get_device_hash("a"), get_device_hash("a"));
}

#[test]
fn microphones_are_listed_in_order_without_the_nameless() {
    let devices = get_microphones(&names(&[Some("Alpha"), None, Some("Beta"), Some("Alpha")]));
    assert_eq!(devices.len(), 3);
    assert_eq!(devices[0].name, "Alpha");
    assert_eq!(devices[0].id, expected_id("Alpha"));
    assert_eq!(devices[1].name, "Beta");
    assert_eq!(devices[1].id, expected_id("Beta"));
    assert_eq!(devices[2].name, "Alpha");
    assert_eq!(devices[2].id, devices[0].id);
    assert!(get_microphones(&names(&[None, None])).is_empty());
    assert!(get_microphones(&Vec::new()).is_empty());
}

#[test]
fn empty_identifier_selects_the_default_device() {
    assert_eq!(get_input_device(&names(&[Some("Alpha")]), ""), Ok(DeviceChoice::Default));
    assert_eq!(get_input_device(&Vec::new(), ""), Ok(DeviceChoice::Default));
}

#[test]
fn identifier_selects_the_first_device_that_has_it() {
    let list = names(&[Some("Alpha"), None, Some("Beta"), Some("Beta")]);
    assert_eq!(get_input_device(&list, &expected_id("Alpha")), Ok(DeviceChoice::Listed(0)));
    assert_eq!(get_input_device(&list, &expected_id("Beta")), Ok(DeviceChoice::Listed(2)));
    assert_eq!(get_input_device(&list, &expected_id("Gamma")), Err(AudioError::DeviceNotFound));
    assert_eq!(get_input_device(&list, "Alpha"), Err(AudioError::DeviceNotFound));
    assert_eq!(get_input_device(&Vec::new(), "1f"), Err(AudioError::DeviceNotFound));
}

#[test]
fn exact_name_wins_over_a_partial_match() {
    let list = names(&[Some("USB Microphone Pro"), None, Some("USB Microphone"), Some("usb microphone")]);
    assert_eq!(find_device_by_name(&list, "USB Microphone"), Ok(2));
    assert_eq!(find_device_by_name(&list, "usb microphone"), Ok(3));
    assert_eq!(find_device_by_name(&list, "USB Microphone Pro"), Ok(0));
}

#[test]
fn partial_match_ignores_case_and_takes_the_first() {
    let list = names(&[Some("Built-in Output"), None, Some("USB Microphone"), Some("Webcam Microphone")]);
    assert_eq!(find_device_by_name(&list, "microphone"), Ok(2));
    assert_eq!(find_device_by_name(&list, "MICROPHONE"), Ok(2));
    assert_eq!(find_device_by_name(&list, "webcam"), Ok(3));
    assert_eq!(find_device_by_name(&list, "BUILT"), Ok(0));
    assert_eq!(find_device_by_name(&list, ""), Ok(0));
    assert_eq!(find_device_by_name(&list, "headset"), Err(AudioError::DeviceNotFound));
    assert_eq!(find_device_by_name(&names(&[None]), ""), Err(AudioError::DeviceNotFound));
    assert_eq!(find_device_by_name(&Vec::new(), "usb"), Err(AudioError::DeviceNotFound));
}

#[test]
fn resemblance_is_containment_in_lower_case() {
    assert!(resembles("USB Microphone", "usb"));
    assert!(resembles("usb microphone", "USB MIC"));
    assert!(resembles("USB Microphone", "USB Microphone"));
    assert!(resembles("USB Microphone", ""));
    assert!(!resembles("USB Microphone", "usbm"));
    assert!(!resembles("USB", "USB Microphone"));
    assert!(resembles("ÄÖÜ Mikrofon", "äöü"));
    assert!(!resembles("", "a"));
}
