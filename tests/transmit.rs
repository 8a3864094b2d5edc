use hx1230::packing::encode_control_bit;
use hx1230::transmit::{BusAction, Transmission};

#[derive(Debug, PartialEq)]
enum Op {
    Low,
    Write(Vec<u8>),
    High,
}

fn run(data: &[u8], is_command: bool, fail_at: Option<usize>) -> (Vec<Op>, bool) {
    let mut t = Transmission::new(data, is_command);
    let mut ops = Vec::new();
    loop {
        let op = match t.next_action() {
            BusAction::SelectLow => Op::Low,
            BusAction::Write { bytes, len } => Op::Write(bytes[..len].to_vec()),
            BusAction::SelectHigh => Op::High,
            BusAction::Finished => return (ops, true),
            BusAction::Failed => return (ops, false),
        };
        ops.push(op);
        t.advance(fail_at != Some(ops.len() - 1));
    }
}

fn packed(block: &[u8], bit: u8) -> Vec<u8> {
    let mut output = [0u8; 9];
    let len = encode_control_bit(block, &mut output, bit);
    output[..len].to_vec()
}

#[test]
fn empty_sequence_takes_no_bus_operation() {
    let (ops, ok) = run(&[], true, None);
    assert!(ok);
    assert!(ops.is_empty());
    let t = Transmission::new(&[], false);
    assert!(t.is_done());
}

#[test]
fn single_command_is_one_transaction() {
    let (ops, ok) = run(&[0xE2], true, None);
    assert!(ok);
    assert_eq!(ops, vec![Op::Low, Op::Write(vec![0x71, 0x00]), Op::High]);
}

#[test]
fn long_sequence_is_split_in_blocks_of_eight() {
    let data: Vec<u8> = (0..20).collect();
    let (ops, ok) = run(&data, false, None);
    assert!(ok);
    assert_eq!(
        ops,
        vec![
            Op::Low,
            Op::Write(packed(&data[0..8], 1)),
            Op::High,
            Op::Low,
            Op::Write(packed(&data[8..16], 1)),
            Op::High,
            Op::Low,
            Op::Write(packed(&data[16..20], 1)),
            Op::High,
        ]
    );
}

#[test]
fn failure_stops_the_transfer() {
    let data: Vec<u8> = (0..20).collect();
    let (ops, ok) = run(&data, false, Some(4));
    assert!(!ok);
    assert_eq!(ops.len(), 5);
    assert_eq!(ops[3], Op::Low);
    assert_eq!(ops[4], Op::Write(packed(&data[8..16], 1)));
}

#[test]
fn finished_transfer_stays_finished() {
    let mut t = Transmission::new(&[1], true);
    for _ in 0..3 {
        t.advance(true);
    }
    assert!(t.is_done());
    t.advance(false);
    assert!(matches!(t.next_action(), BusAction::Finished));
}
