use hx1230::packing::encode_control_bit;

fn pack(data: &[u8], bit: u8) -> Vec<u8> {
    let mut output = [0u8; 9];
    let len = encode_control_bit(data, &mut output, bit);
    output[..len].to_vec()
}

fn bit_at(p: &[u8], k: usize) -> u8 {
    (p[k / 8] >> (7 - k % 8)) & 1
}

fn unpack(p: &[u8], n: usize) -> (Vec<u8>, Vec<u8>) {
    let mut controls = Vec::new();
    let mut bytes = Vec::new();
    for i in 0..n {
        controls.push(bit_at(p, 9 * i));
        let mut b = 0u8;
        for j in 1..=8 {
            b = (b << 1) | bit_at(p, 9 * i + j);
        }
        bytes.push(b);
    }
    (controls, bytes)
}

#[test]
fn eight_zero_data_bytes() {
    assert_eq!(
        pack(&[0; 8], 1),
        vec![0x80, 0x40, 0x20, 0x10, 0x08, 0x04, 0x02, 0x01, 0x00]
    );
}

#[test]
fn eight_full_command_bytes() {
    assert_eq!(
        pack(&[0xFF; 8], 0),
        vec![0x7F, 0xBF, 0xDF, 0xEF, 0xF7, 0xFB, 0xFD, 0xFE, 0xFF]
    );
}

#[test]
fn single_bytes() {
    assert_eq!(pack(&[0xFF], 0), vec![0x7F, 0x80]);
    assert_eq!(pack(&[0x00], 1), vec![0x80, 0x00]);
    assert_eq!(pack(&[0xE2], 0), vec![0x71, 0x00]);
    assert_eq!(pack(&[0xAB], 1), vec![0xD5, 0x80]);
}

#[test]
fn partial_block_is_zero_padded() {
    assert_eq!(pack(&[0xFF, 0xFF, 0xFF], 1), vec![0xFF, 0xFF, 0xFF, 0xE0]);
}

#[test]
fn empty_block_packs_to_nothing() {
    let mut output = [0x55u8; 9];
    assert_eq!(encode_control_bit(&[], &mut output, 1), 0);
    assert_eq!(output, [0x55u8; 9]);
}

#[test]
fn only_first_eight_bytes_are_packed() {
    let data: Vec<u8> = (1..=12).collect();
    assert_eq!(pack(&data, 1), pack(&data[..8], 1));
    assert_eq!(pack(&data, 1).len(), 9);
}

#[test]
fn bytes_after_the_packed_ones_are_kept() {
    let mut output = [0xEEu8; 9];
    let len = encode_control_bit(&[0x12, 0x34], &mut output, 1);
    assert_eq!(len, 3);
    assert_eq!(&output[3..], &[0xEE; 6]);
}

#[test]
fn length_is_one_more_than_block() {
    for n in 1..=8usize {
        let data = vec![0x3Cu8; n];
        assert_eq!(pack(&data, 0).len(), n + 1);
    }
}

#[test]
fn round_trip_recovers_words() {
    let samples: [&[u8]; 5] = [
        &[0x01],
        &[0xE2, 0x2F],
        &[0x80, 0x7F, 0x55, 0xAA, 0x00],
        &[0xDE, 0xAD, 0xBE, 0xEF, 0x01, 0x23, 0x45],
        &[0xFF, 0x00, 0xFF, 0x00, 0x12, 0x34, 0x56, 0x78],
    ];
    for data in samples.iter() {
        for bit in 0..=1u8 {
            let p = pack(data, bit);
            let n = data.len();
            let (controls, bytes) = unpack(&p, n);
            assert_eq!(controls, vec![bit; n]);
            assert_eq!(&bytes[..], *data);
            for k in 9 * n..8 * p.len() {
                assert_eq!(bit_at(&p, k), 0);
            }
        }
    }
}
