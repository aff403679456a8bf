//! Which ports are offered, how they are listed, and which one an answer
//! picks. Finding the ports and asking the user is the caller's part.

use crate::decimal::{decimal, push_zero_padded};
use vstd::prelude::*;
use vstd::string::StringExecFns;

verus! {

/// What is known of a USB port.
#[derive(Debug, Clone, PartialEq, Eq)]
pub struct UsbPort {
    /// The vendor's number.
    pub vid: u16,
    /// The product's number.
    pub pid: u16,
    /// The maker's name, where the device gives one.
    pub manufacturer: Option<String>,
    /// The product's name, where the device gives one.
    pub product: Option<String>,
}

/// The kinds of port.
#[derive(Debug, Clone, PartialEq, Eq)]
pub enum PortType {
    UsbPort(UsbPort),
    PciPort,
    BluetoothPort,
    Unknown,
}

/// One port of the machine.
#[derive(Debug, Clone, PartialEq, Eq)]
pub struct PortInfo {
    /// The name under which the port is opened.
    pub port_name: String,
    /// The port's kind.
    pub port_type: PortType,
}

/// What to do about the choice of a port.
#[derive(Copy, Clone, Debug, PartialEq, Eq)]
pub enum PortChoice {
    /// There is no port to choose: give up.
    NoPorts,
    /// There is one port: take it.
    Sole,
    /// There are several: list them and ask.
    Ask,
}

/// Whether `port` is offered: USB ports are, no others.
pub open spec fn is_offered(port: PortInfo) -> bool {
    port.port_type is UsbPort
}

/// The ports of `all` that are offered, in their order.
pub open spec fn offered_ports(all: Seq<PortInfo>) -> Seq<PortInfo>
    decreases all.len(),
{
    if all.len() == 0 {
        Seq::empty()
    } else if is_offered(all.last()) {
        offered_ports(all.drop_last()).push(all.last())
    } else {
        offered_ports(all.drop_last())
    }
}

/// The lower-case hexadecimal digit for `nibble`, which is less than 16.
pub open spec fn lower_hex_digit(nibble: int) -> char {
    if nibble < 10 {
        (('0' as u8) + nibble) as u8 as char
    } else {
        (('a' as u8) + nibble - 10) as u8 as char
    }
}

/// `v` in four lower-case hexadecimal digits.
pub open spec fn hex4(v: u16) -> Seq<char> {
    seq![
        lower_hex_digit(v as int / 4096),
        lower_hex_digit(v as int / 256 % 16),
        lower_hex_digit(v as int / 16 % 16),
        lower_hex_digit(v as int % 16),
    ]
}

/// A name behind a space, or nothing where there is no name.
pub open spec fn spaced(name: Option<String>) -> Seq<char> {
    match name {
        Some(n) => seq![' '] + n@,
        None => Seq::empty(),
    }
}

/// What the listing says of a port's kind.
pub open spec fn kind_text(kind: PortType) -> Seq<char> {
    match kind {
        PortType::UsbPort(usb) => "  (USB vid=0x"@ + hex4(usb.vid) + " pid=0x"@ + hex4(usb.pid)
            + spaced(usb.manufacturer) + spaced(usb.product) + ")"@,
        PortType::BluetoothPort => "  (Bluetooth)"@,
        PortType::PciPort => "  (PCI)"@,
        PortType::Unknown => Seq::empty(),
    }
}

/// The line of the listing for the port at place `index`; the listing counts
/// from 1.
pub open spec fn port_line(index: nat, port: PortInfo) -> Seq<char> {
    "  ["@ + decimal(index + 1) + "] "@ + port.port_name@ + kind_text(port.port_type)
}

/// The listing of `ports`, line by line.
pub open spec fn listing(ports: Seq<PortInfo>) -> Seq<Seq<char>> {
    if ports.len() == 0 {
        seq!["No serial ports found."@]
    } else {
        seq!["Available serial ports:"@] + Seq::new(
            ports.len(),
            |i: int| port_line(i as nat, ports[i]),
        )
    }
}

/// The question for a choice among `count` ports.
pub open spec fn prompt_text(count: nat) -> Seq<char> {
    "Select port [1-"@ + decimal(count) + "] (Enter for 1): "@
}

/// The number that decimal digits stand for; `None` where `text` is empty or
/// holds anything but digits.
pub open spec fn digits_value(text: Seq<char>) -> Option<nat>
    decreases text.len(),
{
    if text.len() == 0 || !('0' <= text.last() <= '9') {
        None
    } else if text.len() == 1 {
        Some((text.last() as u8 - '0' as u8) as nat)
    } else {
        match digits_value(text.drop_last()) {
            Some(front) => Some(10 * front + (text.last() as u8 - '0' as u8) as nat),
            None => None,
        }
    }
}

/// The number that `text` stands for: decimal digits, behind a plus sign or
/// not.
pub open spec fn number_value(text: Seq<char>) -> Option<nat> {
    if text.len() > 0 && text[0] == '+' {
        digits_value(text.skip(1))
    } else {
        digits_value(text)
    }
}

/// The number that `text` stands for, where `usize` can hold it.
pub open spec fn parsed_number(text: Seq<char>) -> Option<usize> {
    match number_value(text) {
        Some(v) => if v <= usize::MAX {
            Some(v as usize)
        } else {
            None
        },
        None => None,
    }
}

/// The place that a parsed answer picks among `count` ports, counting from
/// 0: no number picks the first port, a number picks the port that the
/// listing gives it, and one beyond the listing picks the nearest.
pub open spec fn picked(answer: Option<usize>, count: usize) -> int {
    let number = match answer {
        Some(n) => n as int,
        None => 1,
    };
    if number < 1 {
        0
    } else if number > count {
        count - 1
    } else {
        number - 1
    }
}

/// Whether `c` is whitespace: one of the characters to which Unicode gives
/// the property White_Space.
pub open spec fn is_white_space(c: char) -> bool {
    let point = c as u32;
    ||| 0x0009 <= point <= 0x000D
    ||| point == 0x0020
    ||| point == 0x0085
    ||| point == 0x00A0
    ||| point == 0x1680
    ||| 0x2000 <= point <= 0x200A
    ||| point == 0x2028
    ||| point == 0x2029
    ||| point == 0x202F
    ||| point == 0x205F
    ||| point == 0x3000
}

/// `text` without the whitespace at its start.
pub open spec fn trimmed_start(text: Seq<char>) -> Seq<char>
    decreases text.len(),
{
    if text.len() > 0 && is_white_space(text[0]) {
        trimmed_start(text.skip(1))
    } else {
        text
    }
}

/// `text` without the whitespace at its end.
pub open spec fn trimmed_end(text: Seq<char>) -> Seq<char>
    decreases text.len(),
{
    if text.len() > 0 && is_white_space(text.last()) {
        trimmed_end(text.drop_last())
    } else {
        text
    }
}

/// `text` without the whitespace at its ends.
pub open spec fn trimmed(text: Seq<char>) -> Seq<char> {
    trimmed_end(trimmed_start(text))
}

/// `str::trim`: `text` without the whitespace at its ends, where whitespace
/// is what has Unicode's property White_Space.
#[verifier::external_body]
fn trim(text: &str) -> (inner: &str)
    ensures
        inner@ == trimmed(text@),
{
    text.trim()
}

/// The ports that are offered, in the order in which they were found.
pub fn usb_ports(all_ports: Vec<PortInfo>) -> (ports: Vec<PortInfo>)
    ensures
        ports@ == offered_ports(all_ports@),
{
    let ghost all = all_ports@;
    let mut ports: Vec<PortInfo> = Vec::new();
    proof {
        assert(all.take(0) =~= Seq::<PortInfo>::empty());
    }
    for port in it: all_ports
        invariant
            it.seq() == all,
            ports@ == offered_ports(all.take(it.index())),
    {
        proof {
            let next = all.take(it.index() + 1);
            assert(next.drop_last() =~= all.take(it.index()));
            assert(next.last() == port);
        }
        let keep = match &port.port_type {
            PortType::UsbPort(_) => true,
            _ => false,
        };
        if keep {
            ports.push(port);
        }
    }
    proof {
        assert(all.take(all.len() as int) =~= all);
    }
    ports
}

/// The lower-case hexadecimal digit for `nibble`.
fn lower_digit(nibble: u16) -> (c: char)
    requires
        nibble < 16,
    ensures
        c == lower_hex_digit(nibble as int),
{
    if nibble < 10 {
        (48u8 + nibble as u8) as char
    } else {
        (97u8 + (nibble as u8 - 10)) as char
    }
}

/// Appends `v` in four lower-case hexadecimal digits.
fn push_hex4(out: &mut String, v: u16)
    ensures
        final(out)@ == old(out)@ + hex4(v),
{
    out.push(lower_digit(v / 4096));
    out.push(lower_digit(v / 256 % 16));
    out.push(lower_digit(v / 16 % 16));
    out.push(lower_digit(v % 16));
    assert(out@ =~= old(out)@ + hex4(v));
}

/// Appends a name behind a space, or nothing where there is no name.
fn push_spaced(out: &mut String, name: &Option<String>)
    ensures
        final(out)@ == old(out)@ + spaced(*name),
{
    match name {
        Some(n) => {
            out.push(' ');
            out.append(n.as_str());
            assert(out@ =~= old(out)@ + spaced(*name));
        },
        None => {
            assert(out@ =~= old(out)@ + spaced(*name));
        },
    }
}

/// The line of the listing for the port at place `index`.
pub fn port_entry(index: usize, port: &PortInfo) -> (line: String)
    ensures
        line@ == port_line(index as nat, *port),
{
    let mut line = String::new();
    line.append("  [");
    push_zero_padded(&mut line, index as u128 + 1, 0);
    line.append("] ");
    line.append(port.port_name.as_str());
    match &port.port_type {
        PortType::UsbPort(usb) => {
            line.append("  (USB vid=0x");
            push_hex4(&mut line, usb.vid);
            line.append(" pid=0x");
            push_hex4(&mut line, usb.pid);
            push_spaced(&mut line, &usb.manufacturer);
            push_spaced(&mut line, &usb.product);
            line.append(")");
        },
        PortType::BluetoothPort => {
            line.append("  (Bluetooth)");
        },
        PortType::PciPort => {
            line.append("  (PCI)");
        },
        PortType::Unknown => {},
    }
    assert(line@ =~= port_line(index as nat, *port));
    line
}

/// The listing of `ports`, line by line.
pub fn port_listing(ports: &[PortInfo]) -> (lines: Vec<String>)
    ensures
        lines.deep_view() == listing(ports@),
{
    let mut lines: Vec<String> = Vec::new();
    if ports.len() == 0 {
        lines.push("No serial ports found.".to_string());
        assert(lines.deep_view() =~= listing(ports@));
        return lines;
    }
    lines.push("Available serial ports:".to_string());
    let mut i: usize = 0;
    while i < ports.len()
        invariant
            i <= ports.len(),
            lines.len() == i + 1,
            lines[0]@ == "Available serial ports:"@,
            forall|k: int| 0 <= k < i ==> (#[trigger] lines[k + 1])@ == port_line(k as nat, ports[k]),
        decreases ports.len() - i,
    {
        lines.push(port_entry(i, &ports[i]));
        i += 1;
    }
    assert(lines.deep_view() =~= listing(ports@));
    lines
}

/// What to do about the choice among `count` ports.
pub fn port_choice(count: usize) -> (choice: PortChoice)
    ensures
        choice == if count == 0 {
            PortChoice::NoPorts
        } else if count == 1 {
            PortChoice::Sole
        } else {
            PortChoice::Ask
        },
{
    if count == 0 {
        PortChoice::NoPorts
    } else if count == 1 {
        PortChoice::Sole
    } else {
        PortChoice::Ask
    }
}

/// The question for a choice among `count` ports.
pub fn selection_prompt(count: usize) -> (prompt: String)
    ensures
        prompt@ == prompt_text(count as nat),
{
    let mut prompt = String::new();
    prompt.append("Select port [1-");
    push_zero_padded(&mut prompt, count as u128, 0);
    prompt.append("] (Enter for 1): ");
    assert(prompt@ =~= prompt_text(count as nat));
    prompt
}

/// Reads a number: decimal digits, behind a plus sign or not. `None` where
/// `text` is something else, or a number that `usize` cannot hold.
pub fn parse_number(text: &str) -> (number: Option<usize>)
    ensures
        number == parsed_number(text@),
{
    let mut acc: usize = 0;
    let mut fits = true;
    let mut signed = false;
    let mut seen: usize = 0;
    let mut first = true;
    let ghost mut value: nat = 0;
    for c in it: text.chars()
        invariant
            it.seq() == text@,
            first == (it.index() == 0),
            signed == (it.index() > 0 && text@[0] == '+'),
            seen <= 1,
            it.index() == 0 ==> seen == 0,
            seen == 1 <==> it.index() > if signed {
                1int
            } else {
                0
            },
            seen == 1 ==> digits_value(
                text@.take(it.index()).skip(
                    if signed {
                        1int
                    } else {
                        0
                    },
                ),
            ) == Some(value),
            seen == 0 ==> value == 0,
            fits ==> acc == value,
            !fits ==> value > usize::MAX,
    {
        let ghost at = it.index();
        let ghost from = if signed {
            1int
        } else {
            0
        };
        if first && c == '+' {
            signed = true;
            first = false;
        } else if '0' <= c && c <= '9' {
            let digit = (c as u8 - 48u8) as usize;
            proof {
                let before = text@.take(at).skip(from);
                let after = text@.take(at + 1).skip(from);
                assert(after.drop_last() =~= before);
                assert(after.last() == c);
                value = if seen == 1 {
                    10 * value + digit as nat
                } else {
                    digit as nat
                };
            }
            if fits {
                match acc.checked_mul(10) {
                    Some(tens) => match tens.checked_add(digit) {
                        Some(sum) => {
                            acc = sum;
                        },
                        None => {
                            fits = false;
                        },
                    },
                    None => {
                        fits = false;
                    },
                }
            }
            seen = 1;
            first = false;
        } else {
            proof {
                lemma_not_a_number(text@, at);
            }
            return None;
        }
    }
    proof {
        assert(text@.take(text@.len() as int) =~= text@);
        if signed {
            assert(text@.skip(1) =~= text@.take(text@.len() as int).skip(1));
        } else {
            assert(text@.skip(0) =~= text@);
        }
    }
    if seen == 1 && fits {
        Some(acc)
    } else {
        None
    }
}

/// Digits stand for a number only where each of them is a digit.
proof fn lemma_digits_all(text: Seq<char>, at: int)
    requires
        0 <= at < text.len(),
        !('0' <= text[at] <= '9'),
    ensures
        digits_value(text) is None,
    decreases text.len(),
{
    if at < text.len() - 1 {
        lemma_digits_all(text.drop_last(), at);
    }
}

/// Text with anything but digits behind its first place, or with anything
/// but a digit or a plus sign at it, stands for no number.
proof fn lemma_not_a_number(text: Seq<char>, at: int)
    requires
        0 <= at < text.len(),
        !('0' <= text[at] <= '9'),
        !(at == 0 && text[at] == '+'),
    ensures
        number_value(text) is None,
{
    if text[0] == '+' {
        lemma_digits_all(text.skip(1), at - 1);
    } else {
        lemma_digits_all(text, at);
    }
}

/// The place that `answer` picks among `count` ports, counting from 0.
pub fn pick(answer: Option<usize>, count: usize) -> (index: usize)
    requires
        count > 0,
    ensures
        index == picked(answer, count),
        index < count,
{
    let number = match answer {
        Some(n) => n,
        None => 1,
    };
    if number < 1 {
        0
    } else if number > count {
        count - 1
    } else {
        number - 1
    }
}

/// The place that the line `answer` picks among `count` ports, counting from
/// 0: the number in it, whitespace at its ends aside.
pub fn chosen_index(answer: &str, count: usize) -> (index: usize)
    requires
        count > 0,
    ensures
        index == picked(parsed_number(trimmed(answer@)), count),
        index < count,
{
    pick(parse_number(trim(answer)), count)
}

} // verus!
