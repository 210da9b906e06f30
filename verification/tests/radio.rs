use onlyfansd::cc1101::{ChipIdMismatch, Cc1101, SpiOp, PATABLE, PKTLEN, SCAL, SFTX, SIDLE, SRES, STX, TX_FIFO};
use onlyfansd::ook::{send_outcome, OokTiming};
use onlyfansd::protocol::{command_id, rf_bits};

#[test]
fn encode_single_one_bit() {
    assert_eq!(Cc1101::encode("1"), vec![0xA0, 0, 0, 0, 0]);
}

#[test]
fn encode_single_zero_bit() {
    assert_eq!(Cc1101::encode("0"), vec![0x80, 0, 0, 0, 0]);
}

#[test]
fn encode_empty_is_only_silence() {
    assert_eq!(Cc1101::encode(""), vec![0, 0, 0, 0]);
}

#[test]
fn encode_full_light_frame() {
    let payload = Cc1101::encode("1111010111111010000000010");
    assert_eq!(
        payload,
        vec![0xB6, 0xD9, 0x65, 0xB6, 0xDB, 0x2C, 0x92, 0x49, 0x25, 0x80, 0, 0, 0, 0]
    );
    assert_eq!(payload.len(), 14);
}

#[test]
fn encode_length_pads_to_whole_bytes() {
    // 3 * 2 + 30 = 36 chips -> 5 bytes; 3 * 6 + 30 = 48 chips -> exactly 6.
    assert_eq!(Cc1101::encode("10").len(), 5);
    assert_eq!(Cc1101::encode("101010").len(), 6);
}

#[test]
fn command_ids_match_the_vocabulary() {
    assert_eq!(command_id("reverse"), Some("0001000"));
    assert_eq!(command_id("light"), Some("0000010"));
    assert_eq!(command_id("stop"), Some("0000100"));
    assert_eq!(command_id("speed1"), Some("0010000"));
    assert_eq!(command_id("speed2"), Some("0010100"));
    assert_eq!(command_id("speed3"), Some("0100000"));
    assert_eq!(command_id("speed4"), Some("0110000"));
    assert_eq!(command_id("speed5"), Some("1000100"));
    assert_eq!(command_id("speed6"), Some("1000000"));
    assert_eq!(command_id("pair"), Some("0100100"));
    assert_eq!(command_id("speed7"), None);
    assert_eq!(command_id(""), None);
}

#[test]
fn rf_bits_builds_the_25_bit_message() {
    let bits = rf_bits("01011111101000", "light").unwrap();
    assert_eq!(bits, "1111010111111010000000010");
    assert_eq!(bits.len(), 25);
}

#[test]
fn rf_bits_unknown_command_is_none() {
    assert_eq!(rf_bits("01011111101000", "dance"), None);
    // An unknown command is refused whatever the fan id looks like.
    assert_eq!(rf_bits("0101", "dance"), None);
}

#[test]
fn register_frames() {
    assert_eq!(Cc1101::write_reg_frame(0x06, 14), [0x06, 14]);
    assert_eq!(Cc1101::write_burst_frame(0x3E, &[0x00, 0xC0]), vec![0x7E, 0x00, 0xC0]);
    assert_eq!(Cc1101::write_burst_frame(0x3F, &[]), vec![0x7F]);
    assert_eq!(Cc1101::read_status_frame(0x35), [0xF5, 0x00]);
}

fn reg_write(op: &SpiOp) -> Option<(u8, u8)> {
    match op {
        SpiOp::WriteReg(a, v) => Some((*a, *v)),
        _ => None,
    }
}

#[test]
fn init_ops_for_304_mhz() {
    let ops = Cc1101::init_ops(304_300_000, 0xC0);
    assert_eq!(ops.len(), 2 + 27 + 7);
    assert!(matches!(ops[0], SpiOp::Strobe(SRES)));
    assert!(matches!(ops[1], SpiOp::SleepMicros(5000)));
    assert_eq!(reg_write(&ops[2]), Some((0x00, 0x29)));
    assert_eq!(reg_write(&ops[28]), Some((0x2E, 0x09)));
    // FREQ = 304300000 * 65536 / 26000000 = 0x0BB42F.
    assert_eq!(reg_write(&ops[29]), Some((0x0D, 0x0B)));
    assert_eq!(reg_write(&ops[30]), Some((0x0E, 0xB4)));
    assert_eq!(reg_write(&ops[31]), Some((0x0F, 0x2F)));
    match &ops[32] {
        SpiOp::WriteBurst(a, d) => {
            assert_eq!(*a, PATABLE);
            assert_eq!(d, &vec![0x00, 0xC0]);
        }
        _ => panic!("expected the PATABLE burst"),
    }
    assert!(matches!(ops[33], SpiOp::Strobe(SIDLE)));
    assert!(matches!(ops[34], SpiOp::Strobe(SCAL)));
    assert!(matches!(ops[35], SpiOp::SleepMicros(800)));
}

#[test]
fn chip_id_check() {
    assert!(Cc1101::check_chip_id(0x00, 0x04).is_ok());
    assert!(Cc1101::check_chip_id(0x00, 0x14).is_ok());
    assert!(Cc1101::check_chip_id(0x00, 0x00).is_err());
    assert!(Cc1101::check_chip_id(0x00, 0xFF).is_err());
    let e = Cc1101::check_chip_id(0x01, 0x14).unwrap_err();
    assert_eq!(e.partnum, 0x01);
    assert_eq!(e.version, 0x14);
}

#[test]
fn chip_id_message() {
    let e = ChipIdMismatch { partnum: 0x0A, version: 0xFF };
    assert_eq!(
        e.message(),
        "CC1101 not responding: PARTNUM=0x0A VERSION=0xFF (expected PARTNUM=0x00, VERSION≈0x04/0x14)"
    );
}

#[test]
fn transmit_ops() {
    assert_eq!(reg_write(&Cc1101::pktlen_op(14)), Some((PKTLEN, 14)));
    assert_eq!(reg_write(&Cc1101::pktlen_op(300)), Some((PKTLEN, 44)));
    let payload = vec![1u8, 2, 3];
    let ops = Cc1101::frame_ops(&payload);
    assert_eq!(ops.len(), 4);
    assert!(matches!(ops[0], SpiOp::Strobe(SIDLE)));
    assert!(matches!(ops[1], SpiOp::Strobe(SFTX)));
    match &ops[2] {
        SpiOp::WriteBurst(a, d) => {
            assert_eq!(*a, TX_FIFO);
            assert_eq!(d, &payload);
        }
        _ => panic!("expected the FIFO burst"),
    }
    assert!(matches!(ops[3], SpiOp::Strobe(STX)));
}

#[test]
fn idle_state_detection() {
    assert!(Cc1101::is_idle(0x01));
    assert!(Cc1101::is_idle(0x21));
    assert!(!Cc1101::is_idle(0x13));
    assert!(!Cc1101::is_idle(0x00));
}

#[test]
fn ook_timing_skips_other_characters() {
    let t = OokTiming::from_chips("1 0-1x", 333).unwrap();
    assert_eq!(t.values, vec![1, 0, 1]);
    assert_eq!(t.durations, vec![333, 333, 333]);
    assert_eq!(t.total_us, 999);
}

#[test]
fn ook_timing_empty_stream() {
    match OokTiming::from_chips("abc", 333) {
        Err(e) => assert_eq!(e, "empty chip stream"),
        Ok(_) => panic!("expected an error"),
    }
}

#[test]
fn ook_send_outcome() {
    assert_eq!(send_outcome(0), Ok(()));
    assert_eq!(send_outcome(-5), Err("rpitx_send_ook_timing rc=-5".to_string()));
    assert_eq!(send_outcome(17), Err("rpitx_send_ook_timing rc=17".to_string()));
    assert_eq!(
        send_outcome(i32::MIN),
        Err("rpitx_send_ook_timing rc=-2147483648".to_string())
    );
}

fn chip_of(payload: &[u8], j: usize) -> bool {
    (payload[j / 8] >> (7 - j % 8)) & 1 == 1
}

#[test]
fn payload_reads_back_as_the_message() {
    let bits = "1111010111111010000000010";
    let payload = Cc1101::encode(bits);
    for (i, b) in bits.chars().enumerate() {
        assert!(chip_of(&payload, 3 * i));
        assert!(!chip_of(&payload, 3 * i + 1));
        assert_eq!(chip_of(&payload, 3 * i + 2), b == '1');
    }
    for j in 3 * bits.len()..8 * payload.len() {
        assert!(!chip_of(&payload, j));
    }
    assert!(8 * payload.len() - 3 * bits.len() >= 30);
}
