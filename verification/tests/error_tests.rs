use irecovery::IrecvError;

#[test]
fn codes_match_libirecovery() {
    assert_eq!(IrecvError::NoDevice(String::new()).code(), -1);
    assert_eq!(IrecvError::Timeout(String::new()).code(), -11);
    assert_eq!(IrecvError::Unsupported(String::new()).code(), -254);
    assert_eq!(IrecvError::Unknown(String::new()).code(), -255);
}

#[test]
fn display_has_detail() {
    let e = IrecvError::Timeout("device.open timed out after 8000ms".into());
    let s = e.to_string();
    assert!(s.contains("Timeout error"));
    assert!(s.contains("device.open"));
}

#[test]
fn every_code() {
    let s = String::new;
    assert_eq!(IrecvError::OutOfMemory.code(), -2);
    assert_eq!(IrecvError::UnableToConnect(s()).code(), -3);
    assert_eq!(IrecvError::InvalidInput(s()).code(), -4);
    assert_eq!(IrecvError::FileNotFound.code(), -5);
    assert_eq!(IrecvError::UsbUpload(s()).code(), -6);
    assert_eq!(IrecvError::UsbStatus(s()).code(), -7);
    assert_eq!(IrecvError::UsbInterface(s()).code(), -8);
    assert_eq!(IrecvError::UsbConfiguration(s()).code(), -9);
    assert_eq!(IrecvError::Pipe(s()).code(), -10);
    assert_eq!(IrecvError::PwnedDevice(s()).code(), -100);
}

#[test]
fn message_with_detail_is_exact() {
    let e = IrecvError::Timeout("device.open timed out after 8000ms".into());
    assert_eq!(
        e.to_string(),
        "Timeout error (code -11): device.open timed out after 8000ms"
    );
}

#[test]
fn message_without_detail() {
    assert_eq!(IrecvError::OutOfMemory.to_string(), "Out of memory (code -2)");
    assert_eq!(IrecvError::FileNotFound.to_string(), "File not found (code -5)");
}

#[test]
fn message_with_empty_detail_omits_colon() {
    assert_eq!(
        IrecvError::Unknown(String::new()).to_string(),
        "Unknown error (code -255)"
    );
    assert_eq!(
        IrecvError::PwnedDevice(String::new()).to_string(),
        "Device is not in Pwned DFU mode (code -100)"
    );
}

#[test]
fn message_descriptions() {
    assert_eq!(
        IrecvError::UsbConfiguration("x".into()).to_string(),
        "USB configuration error (code -9): x"
    );
    assert_eq!(
        IrecvError::Unsupported("getenv".into()).to_string(),
        "Operation not supported (code -254): getenv"
    );
    assert_eq!(
        IrecvError::NoDevice("none".into()).to_string(),
        "No device found (code -1): none"
    );
}

#[test]
fn distinct_variants_distinct_codes() {
    let s = String::new;
    let all = vec![
        IrecvError::NoDevice(s()),
        IrecvError::OutOfMemory,
        IrecvError::UnableToConnect(s()),
        IrecvError::InvalidInput(s()),
        IrecvError::FileNotFound,
        IrecvError::UsbUpload(s()),
        IrecvError::UsbStatus(s()),
        IrecvError::UsbInterface(s()),
        IrecvError::UsbConfiguration(s()),
        IrecvError::Pipe(s()),
        IrecvError::Timeout(s()),
        IrecvError::Unsupported(s()),
        IrecvError::PwnedDevice(s()),
        IrecvError::Unknown(s()),
    ];
    for (i, a) in all.iter().enumerate() {
        assert!(a.code() < 0);
        for (j, b) in all.iter().enumerate() {
            assert_eq!(a.code() == b.code(), i == j);
        }
    }
}
