use irecovery::{DeviceInfo, IrecvMode};

// A representative serial string for an A11 device in Pwned DFU.
const SAMPLE: &str = "CPID:8015 CPRV:11 CPFM:03 SCEP:01 BDID:0C ECID:000C7C1A2B3C4D5E IBFL:3C \
SRNM:[F2LW...ABC] IMEI:[35...] SRTG:[iBoot-3865.0.0.0.7] NONC:00112233445566778899AABBCCDDEEFF PWND:[checkm8]";

#[test]
fn parses_all_fields() {
    let i = DeviceInfo::parse(SAMPLE);
    assert_eq!(i.cpid, 0x8015);
    assert_eq!(i.cprv, 0x11);
    assert_eq!(i.cpfm, 0x03);
    assert_eq!(i.scep, 0x01);
    assert_eq!(i.bdid, 0x0C);
    assert_eq!(i.ecid, 0x000C7C1A2B3C4D5E);
    assert_eq!(i.ibfl, 0x3C);
    assert_eq!(i.srtg.as_deref(), Some("iBoot-3865.0.0.0.7"));
    assert!(i.srnm.as_deref().unwrap().starts_with("F2LW"));
    assert_eq!(i.iboot_version(), Some("iBoot-3865.0.0.0.7"));
    assert!(i.is_pwned());
    assert_eq!(i.ecid_hex().as_deref(), Some("000C7C1A2B3C4D5E"));
}

#[test]
fn parses_ap_nonce_hex() {
    let i = DeviceInfo::parse(SAMPLE);
    assert_eq!(i.ap_nonce.len(), 16);
    assert_eq!(i.ap_nonce[0], 0x00);
    assert_eq!(i.ap_nonce[1], 0x11);
    assert_eq!(i.ap_nonce[15], 0xFF);
}

#[test]
fn default_cpid_when_absent() {
    let i = DeviceInfo::parse("ECID:0000000000000001");
    assert_eq!(i.cpid, 0x8900); // iOS 1-era fallback
    assert!(!i.is_pwned());
}

#[test]
fn readme_quick_start() {
    let serial = "CPID:8030 CPRV:11 CPFM:03 SCEP:01 BDID:04 \
                  ECID:000C7C1A2B3C4D5E IBFL:3C SRTG:[iBoot-6723.0.0.6.11]";
    let info = DeviceInfo::parse(serial);
    assert_eq!(info.cpid, 0x8030);
    assert_eq!(info.bdid, 0x04);
    assert_eq!(info.iboot_version(), Some("iBoot-6723.0.0.6.11"));
    assert!(!info.is_pwned());
    assert!(IrecvMode::from_pid(0x05ac, 0x1281).is_recovery());
}

#[test]
fn remaining_fields_and_serial_string() {
    let i = DeviceInfo::parse(SAMPLE);
    assert_eq!(i.imei.as_deref(), Some("35..."));
    assert_eq!(i.srnm.as_deref(), Some("F2LW...ABC"));
    assert_eq!(i.serial_string, SAMPLE);
    assert!(i.sep_nonce.is_empty());
    assert_eq!(
        i.ap_nonce,
        vec![0x00, 0x11, 0x22, 0x33, 0x44, 0x55, 0x66, 0x77, 0x88, 0x99, 0xAA, 0xBB, 0xCC, 0xDD, 0xEE, 0xFF]
    );
}

#[test]
fn empty_serial_gives_defaults() {
    let i = DeviceInfo::parse("");
    assert_eq!(i.cpid, 0x8900);
    assert_eq!(i.cprv, 0);
    assert_eq!(i.bdid, 0);
    assert_eq!(i.ecid, 0);
    assert_eq!(i.srtg, None);
    assert_eq!(i.iboot_version(), None);
    assert!(i.ap_nonce.is_empty());
    assert!(!i.is_pwned());
    assert_eq!(i.ecid_hex(), None);
    assert_eq!(i.serial_string, "");
}

#[test]
fn whitespace_after_tag_is_skipped_and_digits_stop_at_non_hex() {
    let i = DeviceInfo::parse("CPID:  \t8020x BDID: 0eZZ");
    assert_eq!(i.cpid, 0x8020);
    assert_eq!(i.bdid, 0x0e);
}

#[test]
fn malformed_number_keeps_default() {
    let i = DeviceInfo::parse("CPID:zz BDID:");
    assert_eq!(i.cpid, 0x8900);
    assert_eq!(i.bdid, 0);
}

#[test]
fn first_occurrence_of_a_tag_wins() {
    let i = DeviceInfo::parse("CPID:zz CPID:8010");
    assert_eq!(i.cpid, 0x8900);
    let j = DeviceInfo::parse("BDID:02 BDID:04");
    assert_eq!(j.bdid, 0x02);
}

#[test]
fn overflowing_number_is_dropped_and_wide_number_truncated() {
    // 17 significant hex digits do not fit in a u64.
    let i = DeviceInfo::parse("ECID:10000000000000000 CPID:123456789");
    assert_eq!(i.ecid, 0);
    assert_eq!(i.cpid, 0x23456789);
    // Leading zeros beyond 16 digits are fine.
    let j = DeviceInfo::parse("ECID:000000000000000000FF");
    assert_eq!(j.ecid, 0xFF);
    let k = DeviceInfo::parse("ECID:FFFFFFFFFFFFFFFF");
    assert_eq!(k.ecid, u64::MAX);
}

#[test]
fn bracket_value_is_token_cut_at_last_close() {
    let i = DeviceInfo::parse("SRTG:[iBoot-1.2 SRNM:[]");
    assert_eq!(i.srtg.as_deref(), Some("iBoot-1.2"));
    assert_eq!(i.srnm.as_deref(), Some(""));
    let j = DeviceInfo::parse("SRTG:[iBoot-1.2");
    assert_eq!(j.srtg.as_deref(), Some("iBoot-1.2"));
    let k = DeviceInfo::parse("SRNM:[AB]CD] X");
    assert_eq!(k.srnm.as_deref(), Some("AB]CD"));
    // Like `sscanf("%s")`: leading C white space is skipped ...
    let m = DeviceInfo::parse("SRNM:[ \tX] IMEI:[");
    assert_eq!(m.srnm.as_deref(), Some("X"));
    assert_eq!(m.imei, None);
    let n = DeviceInfo::parse("SRNM:[   ");
    assert_eq!(n.srnm, None);
    // ... and only C white space ends the token.
    let u = DeviceInfo::parse("SRNM:[A\u{a0}B]");
    assert_eq!(u.srnm.as_deref(), Some("A\u{a0}B"));
    let v = DeviceInfo::parse("SRTG:[iBoot\n-9]");
    assert_eq!(v.srtg.as_deref(), Some("iBoot"));
}

#[test]
fn nonce_odd_digit_dropped_and_short_nonce_empty() {
    let i = DeviceInfo::parse("NONC:abc SNON:f");
    assert_eq!(i.ap_nonce, vec![0xab]);
    assert!(i.sep_nonce.is_empty());
    let j = DeviceInfo::parse("SNON:0102 NONC: 01");
    assert_eq!(j.sep_nonce, vec![0x01, 0x02]);
    assert!(j.ap_nonce.is_empty());
}

#[test]
fn pwnd_marker_any_case() {
    assert!(DeviceInfo::parse("CPID:8010 pwnd:[checkm8]").is_pwned());
    assert!(DeviceInfo::parse("CPID:8010 PwNd:").is_pwned());
    assert!(DeviceInfo::parse("xPWND:y").is_pwned());
    assert!(!DeviceInfo::parse("CPID:8010 PWND").is_pwned());
    assert!(!DeviceInfo::parse("pwnd CPID:8010").is_pwned());
    assert!(!DeviceInfo::parse("CPID:8010 PWNDX").is_pwned());
    assert!(!DeviceInfo::parse("CPID:8010 XPWND").is_pwned());
    assert!(!DeviceInfo::parse("CPID:8010 PWN D:").is_pwned());
}

#[test]
fn ecid_hex_renders_sixteen_uppercase_digits_and_round_trips() {
    let i = DeviceInfo::parse("ECID:abc");
    assert_eq!(i.ecid, 0xabc);
    let h = i.ecid_hex().unwrap();
    assert_eq!(h, "0000000000000ABC");
    let again = DeviceInfo::parse(&format!("ECID:{}", h));
    assert_eq!(again.ecid, 0xabc);
    let mut max = DeviceInfo::parse("");
    max.ecid = u64::MAX;
    assert_eq!(max.ecid_hex().as_deref(), Some("FFFFFFFFFFFFFFFF"));
}

#[test]
fn non_ascii_text_is_handled_by_characters() {
    let i = DeviceInfo::parse("ü CPID:8027 SRNM:[é∂] BDID:\u{3000}0a");
    assert_eq!(i.cpid, 0x8027);
    assert_eq!(i.srnm.as_deref(), Some("é∂"));
    assert_eq!(i.bdid, 0x0a);
}
