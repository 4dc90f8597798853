use irecovery::mode::{IrecvMode, APPLE_VID};

#[test]
fn pid_mapping() {
    assert_eq!(IrecvMode::from_pid(APPLE_VID, 0x1281), IrecvMode::Recovery2);
    assert_eq!(IrecvMode::from_pid(APPLE_VID, 0x1227), IrecvMode::Dfu);
    assert_eq!(IrecvMode::from_pid(APPLE_VID, 0x1338), IrecvMode::PortDfu);
    assert_eq!(IrecvMode::from_pid(0x1234, 0x1281), IrecvMode::Unknown);
}

#[test]
fn labels() {
    assert_eq!(IrecvMode::Recovery2.label(), "recovery");
    assert_eq!(IrecvMode::PortDfu.label(), "dfu");
    assert_eq!(IrecvMode::PwnedDfu.label(), "pwned_dfu");
}

#[test]
fn family_predicates() {
    assert!(IrecvMode::Recovery3.is_recovery());
    assert!(IrecvMode::PwnedDfu.is_dfu());
    assert!(!IrecvMode::Recovery1.is_dfu());
}

#[test]
fn every_pid() {
    assert_eq!(IrecvMode::from_pid(APPLE_VID, 0x1280), IrecvMode::Recovery1);
    assert_eq!(IrecvMode::from_pid(APPLE_VID, 0x1282), IrecvMode::Recovery3);
    assert_eq!(IrecvMode::from_pid(APPLE_VID, 0x1283), IrecvMode::Recovery4);
    assert_eq!(IrecvMode::from_pid(APPLE_VID, 0x1222), IrecvMode::Wtf);
    assert_eq!(IrecvMode::from_pid(APPLE_VID, 0x1284), IrecvMode::Unknown);
    assert_eq!(IrecvMode::from_pid(APPLE_VID, 0x12a8), IrecvMode::Unknown);
    assert_eq!(IrecvMode::from_pid(0x05ad, 0x1227), IrecvMode::Unknown);
}

#[test]
fn remaining_labels() {
    assert_eq!(IrecvMode::Recovery1.label(), "recovery");
    assert_eq!(IrecvMode::Dfu.label(), "dfu");
    assert_eq!(IrecvMode::Wtf.label(), "dfu");
    assert_eq!(IrecvMode::Normal.label(), "normal");
    assert_eq!(IrecvMode::Unknown.label(), "unknown");
}

#[test]
fn families_are_disjoint_and_pid_never_gives_pwned_or_normal() {
    let all = [
        IrecvMode::Recovery1,
        IrecvMode::Recovery2,
        IrecvMode::Recovery3,
        IrecvMode::Recovery4,
        IrecvMode::Dfu,
        IrecvMode::Wtf,
        IrecvMode::PortDfu,
        IrecvMode::PwnedDfu,
        IrecvMode::Normal,
        IrecvMode::Unknown,
    ];
    for m in all {
        assert!(!(m.is_recovery() && m.is_dfu()));
        if m.is_recovery() {
            assert_eq!(m.label(), "recovery");
        }
    }
    for pid in 0u16..=0x2000 {
        let m = IrecvMode::from_pid(APPLE_VID, pid);
        assert_ne!(m, IrecvMode::PwnedDfu);
        assert_ne!(m, IrecvMode::Normal);
        assert_eq!(IrecvMode::from_pid(0x0001, pid), IrecvMode::Unknown);
    }
    assert!(!IrecvMode::Normal.is_dfu() && !IrecvMode::Normal.is_recovery());
    assert!(!IrecvMode::Unknown.is_dfu() && !IrecvMode::Unknown.is_recovery());
}
