use sermonizer::port_discovery::{
    chosen_index, parse_number, pick, port_choice, port_entry, port_listing, selection_prompt,
    usb_ports, PortChoice, PortInfo, PortType, UsbPort,
};

fn usb(name: &str, vid: u16, pid: u16, maker: Option<&str>, product: Option<&str>) -> PortInfo {
    PortInfo {
        port_name: name.to_string(),
        port_type: PortType::UsbPort(UsbPort {
            vid,
            pid,
            manufacturer: maker.map(|m| m.to_string()),
            product: product.map(|p| p.to_string()),
        }),
    }
}

fn other(name: &str, port_type: PortType) -> PortInfo {
    PortInfo { port_name: name.to_string(), port_type }
}

#[test]
fn only_usb_ports_are_offered() {
    let all = vec![
        other("/dev/ttyS0", PortType::Unknown),
        usb("/dev/ttyUSB0", 0x1a86, 0x7523, None, None),
        other("/dev/rfcomm0", PortType::BluetoothPort),
        usb("/dev/ttyACM0", 0x2341, 0x0043, Some("Arduino"), Some("Uno")),
        other("/dev/ttyS4", PortType::PciPort),
    ];
    let offered = usb_ports(all.clone());
    assert_eq!(offered, vec![all[1].clone(), all[3].clone()]);
    assert_eq!(usb_ports(vec![]), vec![]);
    assert_eq!(usb_ports(vec![other("x", PortType::PciPort)]), vec![]);
}

#[test]
fn listing_of_no_ports() {
    assert_eq!(port_listing(&[]), vec!["No serial ports found."]);
}

#[test]
fn listing_of_ports() {
    let ports = vec![
        usb("/dev/ttyUSB0", 0x1a86, 0x7523, Some("QinHeng"), Some("CH340")),
        usb("/dev/ttyACM0", 0x0001, 0xABCD, None, Some("Board")),
        usb("COM3", 0, 0xffff, Some("Maker"), None),
        other("/dev/rfcomm0", PortType::BluetoothPort),
        other("/dev/ttyS4", PortType::PciPort),
        other("/dev/ttyS0", PortType::Unknown),
    ];
    assert_eq!(
        port_listing(&ports),
        vec![
            "Available serial ports:",
            "  [1] /dev/ttyUSB0  (USB vid=0x1a86 pid=0x7523 QinHeng CH340)",
            "  [2] /dev/ttyACM0  (USB vid=0x0001 pid=0xabcd Board)",
            "  [3] COM3  (USB vid=0x0000 pid=0xffff Maker)",
            "  [4] /dev/rfcomm0  (Bluetooth)",
            "  [5] /dev/ttyS4  (PCI)",
            "  [6] /dev/ttyS0",
        ]
    );
}

#[test]
fn entry_counts_from_one() {
    let port = usb("p", 0x10, 0x20, None, None);
    assert_eq!(port_entry(0, &port), "  [1] p  (USB vid=0x0010 pid=0x0020)");
    assert_eq!(port_entry(9, &port), "  [10] p  (USB vid=0x0010 pid=0x0020)");
    assert_eq!(
        port_entry(usize::MAX, &port),
        format!("  [{}] p  (USB vid=0x0010 pid=0x0020)", usize::MAX as u128 + 1)
    );
}

#[test]
fn choice_by_the_number_of_ports() {
    assert_eq!(port_choice(0), PortChoice::NoPorts);
    assert_eq!(port_choice(1), PortChoice::Sole);
    assert_eq!(port_choice(2), PortChoice::Ask);
    assert_eq!(port_choice(usize::MAX), PortChoice::Ask);
}

#[test]
fn prompt_names_the_range() {
    assert_eq!(selection_prompt(3), "Select port [1-3] (Enter for 1): ");
    assert_eq!(selection_prompt(12), "Select port [1-12] (Enter for 1): ");
}

#[test]
fn numbers_are_parsed_as_std_parses_them() {
    let max = usize::MAX.to_string();
    let over = format!("{}0", usize::MAX);
    let next = (usize::MAX as u128 + 1).to_string();
    let samples = [
        "", "0", "1", "7", "007", "42", "+5", "+", "++5", "-1", "-0", "5+", "1 2", " 1", "1 ",
        "1_000", "0x10", "12a", "a12", "١٢", "1.0", "+0", "00000000000000000000000000001",
        max.as_str(), over.as_str(), next.as_str(),
    ];
    for text in samples {
        assert_eq!(parse_number(text), text.parse::<usize>().ok(), "{:?}", text);
    }
    assert_eq!(parse_number("42"), Some(42));
    assert_eq!(parse_number("+5"), Some(5));
    assert_eq!(parse_number(&max), Some(usize::MAX));
    assert_eq!(parse_number(&next), None);
}

#[test]
fn pick_clamps_to_the_listing() {
    assert_eq!(pick(None, 3), 0);
    assert_eq!(pick(Some(0), 3), 0);
    assert_eq!(pick(Some(1), 3), 0);
    assert_eq!(pick(Some(2), 3), 1);
    assert_eq!(pick(Some(3), 3), 2);
    assert_eq!(pick(Some(4), 3), 2);
    assert_eq!(pick(Some(usize::MAX), 1), 0);
}

#[test]
fn answers_pick_ports() {
    assert_eq!(chosen_index("2\n", 3), 1);
    assert_eq!(chosen_index("\n", 3), 0);
    assert_eq!(chosen_index("", 3), 0);
    assert_eq!(chosen_index("  3 \r\n", 3), 2);
    assert_eq!(chosen_index("\t+2\n", 3), 1);
    assert_eq!(chosen_index("0\n", 3), 0);
    assert_eq!(chosen_index("99\n", 3), 2);
    assert_eq!(chosen_index("two\n", 3), 0);
    assert_eq!(chosen_index("2 3\n", 3), 0);
    assert_eq!(chosen_index("99999999999999999999999999\n", 3), 0);
    assert_eq!(chosen_index("\u{2003}2\u{3000}", 3), 1);
}

fn is_white_space(c: char) -> bool {
    matches!(
        c as u32,
        0x0009..=0x000D
            | 0x0020
            | 0x0085
            | 0x00A0
            | 0x1680
            | 0x2000..=0x200A
            | 0x2028
            | 0x2029
            | 0x202F
            | 0x205F
            | 0x3000
    )
}

#[test]
fn whitespace_is_trimmed_at_both_ends() {
    for c in ['\t', '\n', '\u{B}', '\u{C}', '\r', ' ', '\u{85}', '\u{A0}', '\u{1680}', '\u{2000}'] {
        assert_eq!(chosen_index(&format!("{c}{c}2{c}"), 3), 1, "{:?}", c);
        assert_eq!(chosen_index(&format!("{c}2 2{c}"), 3), 0, "{:?}", c);
    }
    for c in ['\u{1C}', '\u{1F}', '\u{180E}', '\u{200B}', '\u{2060}', '\u{FEFF}', '_', 'x'] {
        assert_eq!(chosen_index(&format!("{c}2"), 3), 0, "{:?}", c);
        assert_eq!(chosen_index(&format!("2{c}"), 3), 0, "{:?}", c);
    }
}

#[test]
fn every_character_is_whitespace_or_not() {
    let mut whitespace = 0;
    for point in 0..=0x10FFFFu32 {
        let c = match char::from_u32(point) {
            Some(c) => c,
            None => continue,
        };
        if c == '+' || c.is_ascii_digit() {
            continue;
        }
        let expected = if is_white_space(c) { 1 } else { 0 };
        assert_eq!(chosen_index(&format!("{c}2"), 3), expected, "before: {:?}", c);
        assert_eq!(chosen_index(&format!("2{c}"), 3), expected, "behind: {:?}", c);
        whitespace += expected;
    }
    assert_eq!(whitespace, 25);
}
