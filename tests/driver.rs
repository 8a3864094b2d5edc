use hx1230::buffer::{H, W};
use hx1230::driver::{buffer_plan, initialize_plan, Message};
use hx1230::packing::encode_control_bit;
use hx1230::transmit::{BusAction, Transmission};
use hx1230::{ArrayDisplayBuffer, DisplayBuffer};

fn wire(plan: &[Message]) -> Vec<(bool, Vec<u8>)> {
    let mut writes = Vec::new();
    for m in plan {
        let (bytes, is_command) = match m {
            Message::Commands(b) => (b.clone(), true),
            Message::Data(b) => (b.clone(), false),
            Message::DelayUs(_) => continue,
        };
        let mut t = Transmission::new(&bytes, is_command);
        loop {
            match t.next_action() {
                BusAction::Write { bytes: w, len } => writes.push((is_command, w[..len].to_vec())),
                BusAction::Finished => break,
                BusAction::Failed => panic!("no operation failed"),
                _ => {}
            }
            t.advance(true);
        }
    }
    writes
}

fn packed(block: &[u8], bit: u8) -> Vec<u8> {
    let mut output = [0u8; 9];
    let len = encode_control_bit(block, &mut output, bit);
    output[..len].to_vec()
}

#[test]
fn initialize_plan_resets_waits_and_initializes() {
    let plan = initialize_plan();
    assert_eq!(plan.len(), 3);
    assert!(matches!(&plan[0], Message::Commands(b) if b == &vec![0xE2]));
    assert!(matches!(&plan[1], Message::DelayUs(100)));
    assert!(matches!(&plan[2], Message::Commands(b)
        if b == &vec![0x2F, 0x9E, 0xA4, 0xA0, 0xC0, 0xA6, 0xAF, 0x00, 0x10, 0xB0]));
}

#[test]
fn buffer_plan_positions_then_sends_lines() {
    let mut buffer = ArrayDisplayBuffer::new();
    buffer.clear_line(4, 0x3C);
    let plan = buffer_plan(&buffer);
    assert_eq!(plan.len(), 1 + H);
    assert!(matches!(&plan[0], Message::Commands(b) if b == &vec![0x00, 0x10, 0xB0]));
    for y in 0..H {
        let expected = vec![if y == 4 { 0x3C } else { 0 }; W];
        assert!(matches!(&plan[1 + y], Message::Data(b) if b == &expected));
    }
}

#[test]
fn start_then_blank_frame_on_the_wire() {
    let buffer = ArrayDisplayBuffer::new();
    let mut plan = initialize_plan();
    plan.extend(buffer_plan(&buffer));
    let writes = wire(&plan);
    let mut expected = vec![
        (true, packed(&[0xE2], 0)),
        (true, packed(&[0x2F, 0x9E, 0xA4, 0xA0, 0xC0, 0xA6, 0xAF, 0x00], 0)),
        (true, packed(&[0x10, 0xB0], 0)),
        (true, packed(&[0x00, 0x10, 0xB0], 0)),
    ];
    for _ in 0..H {
        for _ in 0..W / 8 {
            expected.push((false, vec![0x80, 0x40, 0x20, 0x10, 0x08, 0x04, 0x02, 0x01, 0x00]));
        }
    }
    assert_eq!(writes, expected);
}
