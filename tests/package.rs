use artnet::package::ArtNetDmxPacket;

const MAGIC: [u8; 8] = [0x41, 0x72, 0x74, 0x2D, 0x4E, 0x65, 0x74, 0x00];

fn data_of(bytes: &[u8]) -> Vec<u8> {
    bytes[18..].to_vec()
}

#[test]
fn frame_is_530_bytes_for_any_universe() {
    for universe in [0u16, 1, 255, 256, 4660, 65535] {
        assert_eq!(ArtNetDmxPacket::new(universe).to_bytes().len(), 530);
    }
}

#[test]
fn frame_opens_with_magic() {
    let mut p = ArtNetDmxPacket::new(3);
    p.set_channel(8, 1);
    p.set_sequence(9);
    let b = p.to_bytes();
    assert_eq!(b[0..8], MAGIC);
    assert_eq!(ArtNetDmxPacket::new(0).to_bytes()[0..8], MAGIC);
}

#[test]
fn opcode_is_little_endian() {
    let b = ArtNetDmxPacket::new(0).to_bytes();
    assert_eq!(b[8..10], [0x00, 0x50]);
}

#[test]
fn protocol_version_is_big_endian() {
    let b = ArtNetDmxPacket::new(0).to_bytes();
    assert_eq!(b[10..12], [0x00, 0x0E]);
}

#[test]
fn new_packet_is_blacked_out() {
    let b = ArtNetDmxPacket::new(0).to_bytes();
    assert_eq!(b[12], 0);
    assert_eq!(b[13], 0);
    assert!(b[18..].iter().all(|&x| x == 0));
}

#[test]
fn universe_is_little_endian() {
    let b = ArtNetDmxPacket::new(0x1234).to_bytes();
    assert_eq!(b[14..16], [0x34, 0x12]);
    let b = ArtNetDmxPacket::new(65535).to_bytes();
    assert_eq!(b[14..16], [0xFF, 0xFF]);
}

#[test]
fn length_field_is_512_big_endian() {
    let b = ArtNetDmxPacket::new(5).to_bytes();
    assert_eq!(b[16], 0x02);
    assert_eq!(b[17], 0x00);
}

#[test]
fn set_channel_one_writes_byte_18() {
    let mut p = ArtNetDmxPacket::new(0);
    p.set_channel(1, 255);
    let b = p.to_bytes();
    assert_eq!(b[18], 255);
    assert!(b[19..].iter().all(|&x| x == 0));
}

#[test]
fn set_channel_last_writes_last_byte() {
    let mut p = ArtNetDmxPacket::new(0);
    p.set_channel(512, 42);
    let b = p.to_bytes();
    assert_eq!(b[529], 42);
    assert!(b[18..529].iter().all(|&x| x == 0));
}

#[test]
fn set_channel_out_of_range_is_ignored() {
    let blank = data_of(&ArtNetDmxPacket::new(0).to_bytes());
    let mut p = ArtNetDmxPacket::new(0);
    p.set_channel(0, 10);
    p.set_channel(513, 10);
    p.set_channel(usize::MAX, 10);
    assert_eq!(data_of(&p.to_bytes()), blank);
}

#[test]
fn set_channels_truncates_at_512() {
    let mut p = ArtNetDmxPacket::new(0);
    p.set_channels(510, &[1, 2, 3, 4, 5]);
    let b = p.to_bytes();
    assert_eq!(b.len(), 530);
    assert_eq!(b[18 + 509..18 + 512], [1, 2, 3]);
    assert!(b[18..18 + 509].iter().all(|&x| x == 0));
}

#[test]
fn set_channels_from_first_channel() {
    let mut p = ArtNetDmxPacket::new(0);
    p.set_channels(1, &[255, 0, 0, 255]);
    let b = p.to_bytes();
    assert_eq!(b[18..22], [255, 0, 0, 255]);
    assert!(b[22..].iter().all(|&x| x == 0));
}

#[test]
fn set_channels_out_of_range_start_is_ignored() {
    let blank = data_of(&ArtNetDmxPacket::new(0).to_bytes());
    let mut p = ArtNetDmxPacket::new(0);
    p.set_channels(0, &[1, 2, 3]);
    p.set_channels(513, &[1, 2, 3]);
    assert_eq!(data_of(&p.to_bytes()), blank);
}

#[test]
fn set_channels_with_no_values_changes_nothing() {
    let mut p = ArtNetDmxPacket::new(0);
    p.set_channel(5, 7);
    let before = p.to_bytes();
    p.set_channels(5, &[]);
    assert_eq!(p.to_bytes(), before);
}

#[test]
fn set_channels_keeps_neighbours() {
    let mut p = ArtNetDmxPacket::new(0);
    p.set_channel(9, 99);
    p.set_channel(13, 77);
    p.set_channels(10, &[1, 2, 3]);
    let b = p.to_bytes();
    assert_eq!(b[26..31], [99, 1, 2, 3, 77]);
}

#[test]
fn set_sequence_writes_byte_12() {
    let mut p = ArtNetDmxPacket::new(0);
    p.set_sequence(200);
    let b = p.to_bytes();
    assert_eq!(b[12], 200);
    assert_eq!(b[13], 0);
}

#[test]
fn to_bytes_twice_is_identical() {
    let mut p = ArtNetDmxPacket::new(17);
    p.set_channels(100, &[9, 8, 7]);
    p.set_sequence(4);
    let a = p.to_bytes();
    let b = p.to_bytes();
    assert_eq!(a, b);
}

#[test]
fn end_to_end_full_white_on_four_channels() {
    let mut p = ArtNetDmxPacket::new(0);
    for ch in 1..=4 {
        p.set_channel(ch, 255);
    }
    let b = p.to_bytes();
    assert_eq!(b[18..22], [255, 255, 255, 255]);
    assert_eq!(b[16], 0x02);
    assert_eq!(b[17], 0x00);
    assert_eq!(b[14..16], [0, 0]);
}
