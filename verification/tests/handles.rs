use jsplr::handle::{decode, encode};
use jsplr::marshal::{host_flag, host_length, native_length};

#[test]
fn encode_keeps_small_addresses() {
    assert_eq!(encode(0), 0);
    assert_eq!(encode(1), 1);
    assert_eq!(encode(0x7f12_3456_789a_bcd0), 0x7f12_3456_789a_bcd0);
    assert_eq!(encode(i64::MAX as u64), i64::MAX);
}

#[test]
fn encode_reads_high_addresses_as_negative() {
    assert_eq!(encode(0x8000_0000_0000_0000), i64::MIN);
    assert_eq!(encode(u64::MAX), -1);
    assert_eq!(encode(0xffff_8000_0000_1000), -0x7fff_ffff_f000);
}

#[test]
fn decode_reads_negative_handles_as_high_addresses() {
    assert_eq!(decode(0), 0);
    assert_eq!(decode(42), 42);
    assert_eq!(decode(-1), u64::MAX);
    assert_eq!(decode(i64::MIN), 0x8000_0000_0000_0000);
    assert_eq!(decode(i64::MAX), 0x7fff_ffff_ffff_ffff);
}

#[test]
fn handle_round_trip() {
    let addresses: [u64; 7] = [
        0,
        1,
        0x1000,
        0x7fff_ffff_ffff_ffff,
        0x8000_0000_0000_0000,
        0xdead_beef_0000_0008,
        u64::MAX,
    ];
    for a in addresses {
        assert_eq!(decode(encode(a)), a);
    }
    let handles: [i64; 5] = [i64::MIN, -1, 0, 1, i64::MAX];
    for h in handles {
        assert_eq!(encode(decode(h)), h);
    }
}

#[test]
fn distinct_addresses_get_distinct_handles() {
    assert_ne!(encode(8), encode(16));
    assert_ne!(encode(0x8000_0000_0000_0000), encode(0));
    assert_ne!(encode(u64::MAX), encode(1));
}

#[test]
fn host_flag_is_one_or_zero() {
    assert_eq!(host_flag(true), 1);
    assert_eq!(host_flag(false), 0);
}

#[test]
fn host_length_fits_or_is_refused() {
    assert_eq!(host_length(0), Some(0));
    assert_eq!(host_length(4), Some(4));
    assert_eq!(host_length(i32::MAX as usize), Some(i32::MAX));
    assert_eq!(host_length(i32::MAX as usize + 1), None);
    assert_eq!(host_length(usize::MAX), None);
}

#[test]
fn native_length_refuses_negative_reports() {
    assert_eq!(native_length(0), Some(0));
    assert_eq!(native_length(17), Some(17));
    assert_eq!(native_length(i32::MAX), Some(i32::MAX as usize));
    assert_eq!(native_length(-1), None);
    assert_eq!(native_length(i32::MIN), None);
}

#[test]
fn length_round_trip() {
    for len in [0_usize, 1, 2, 1000, i32::MAX as usize] {
        let host = host_length(len).unwrap();
        assert_eq!(native_length(host), Some(len));
    }
}
