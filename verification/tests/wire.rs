use jtag_adi::wire::{decode, encode_read, encode_write, parse_ack, verdict, ACK_FAULT, ACK_OK, ACK_WAIT, DR_BITS, DR_TAIL_BITS};
use jtag_adi::{DPReg, MemAPReg, Port, Reply, Scan};

#[test]
fn write_scan_is_little_endian() {
    assert_eq!(encode_write(1, 0x8009_0314), vec![0xa2, 0x18, 0x48, 0x00, 0x04]);
}

#[test]
fn read_scan_sets_rnw() {
    assert_eq!(encode_read(3), vec![0x07, 0, 0, 0, 0]);
    assert_eq!(encode_read(0), vec![0x01, 0, 0, 0, 0]);
}

#[test]
fn decode_splits_ack_and_data() {
    assert_eq!(decode(&[0x7a, 0xf7, 0x6d, 0xf5, 0x06]), (2, 0xdead_beef));
}

#[test]
fn parse_ack_reports_other_acks() {
    assert_eq!(parse_ack(vec![0x7a, 0xf7, 0x6d, 0xf5, 0x06]), Ok(0xdead_beef));
    assert_eq!(parse_ack(vec![0x01, 0, 0, 0, 0]), Err(1));
    assert_eq!(parse_ack(vec![0x04, 0, 0, 0, 0]), Err(4));
}

#[test]
fn scans_round_trip() {
    for reg in 0u8..4 {
        for val in [0u32, 1, 0x8000_0000, 0xdead_beef, 0xffff_ffff, 0x5100_0022] {
            assert_eq!(decode(&encode_write(reg, val)), (reg << 1, val));
        }
        assert_eq!(decode(&encode_read(reg)), ((reg << 1) | 1, 0));
    }
}

#[test]
fn scans_are_five_bytes_of_thirty_five_bits() {
    for reg in [0u8, 3, 4, 0xff] {
        let scan = encode_write(reg, 0xffff_ffff);
        assert_eq!(scan.len(), 5);
        assert_eq!(scan[4], 0x07);
        assert_eq!(scan[0] & 7, (reg & 3) << 1);
        assert_eq!(encode_read(reg), vec![((reg & 3) << 1) | 1, 0, 0, 0, 0]);
    }
}

#[test]
fn decode_looks_at_thirty_five_bits() {
    assert_eq!(decode(&[0x02, 0, 0, 0, 0xf8]), (2, 0));
    assert_eq!(decode(&[0xff, 0xff, 0xff, 0xff, 0xff]), (7, 0xffff_ffff));
    assert_eq!(decode(&[0x0c, 0, 0, 0, 0]), (4, 1));
}

#[test]
fn reply_carries_what_was_decoded() {
    assert_eq!(Reply::shifted(&[0x7a, 0xf7, 0x6d, 0xf5, 0x06]), Reply::Shifted { ack: 2, data: 0xdead_beef });
}

#[test]
fn register_numbers() {
    assert_eq!(Port::DP.opcode(), 10);
    assert_eq!(Port::AP.opcode(), 11);
    assert_eq!(
        [DPReg::Abort.index(), DPReg::CtrlStat.index(), DPReg::Select.index(), DPReg::Rdbuff.index()],
        [0, 1, 2, 3]
    );
    assert_eq!([MemAPReg::CSW.index(), MemAPReg::TAR.index(), MemAPReg::DRW.index()], [0, 1, 3]);
    assert_eq!((DR_BITS, DR_TAIL_BITS), (35, 3));
    assert_eq!((ACK_WAIT, ACK_OK, ACK_FAULT), (1, 2, 4));
}

#[test]
fn verdict_passes_every_other_acknowledgement_on() {
    for ack in 0u8..8 {
        let expected = if ack == 2 { Ok(9) } else { Err(ack) };
        assert_eq!(verdict(ack, 9), expected);
    }
}

#[test]
fn scans_carry_their_bytes() {
    assert_eq!(Scan::Ir(Port::DP).payload(), vec![10]);
    assert_eq!(Scan::Ir(Port::AP).payload(), vec![11]);
    assert_eq!(Scan::Write { reg: 1, val: 0x8009_0314 }.payload(), vec![0xa2, 0x18, 0x48, 0x00, 0x04]);
    assert_eq!(Scan::Request { reg: 3 }.payload(), vec![0x07, 0, 0, 0, 0]);
    assert_eq!(Scan::QueueRequest { reg: 1 }.payload(), vec![0x03, 0, 0, 0, 0]);
    for scan in [Scan::ReadDr, Scan::QueueRead, Scan::Finish] {
        assert_eq!(scan.payload(), Vec::<u8>::new());
    }
}
