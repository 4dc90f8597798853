//! `IrecvError`: the error taxonomy of libirecovery's `irecv_error_t`,
//! with its numeric codes and its `irecv_strerror()` descriptions. This
//! crate itself never returns one (it does no I/O); it is provided so that
//! a USB transport built on top of it can report errors consistently.
use vstd::prelude::*;
use crate::text::{decimal_int, push_signed_decimal};

verus! {

#[derive(Debug, Clone, PartialEq, Eq)]
pub enum IrecvError {
    /// Carries a free-form detail message (e.g. the underlying USB error).
    NoDevice(String),
    OutOfMemory,
    UnableToConnect(String),
    InvalidInput(String),
    FileNotFound,
    UsbUpload(String),
    UsbStatus(String),
    UsbInterface(String),
    UsbConfiguration(String),
    Pipe(String),
    Timeout(String),
    Unsupported(String),
    /// The device is not in Pwned DFU mode when an operation requires it.
    PwnedDevice(String),
    Unknown(String),
}

/// This crate's standard result type.
pub type Result<T> = core::result::Result<T, IrecvError>;

/// libirecovery's numeric code for each variant (`PwnedDevice`, which
/// libirecovery lacks, gets a code outside its range).
pub open spec fn spec_code(e: IrecvError) -> int {
    match e {
        IrecvError::NoDevice(_) => -1,
        IrecvError::OutOfMemory => -2,
        IrecvError::UnableToConnect(_) => -3,
        IrecvError::InvalidInput(_) => -4,
        IrecvError::FileNotFound => -5,
        IrecvError::UsbUpload(_) => -6,
        IrecvError::UsbStatus(_) => -7,
        IrecvError::UsbInterface(_) => -8,
        IrecvError::UsbConfiguration(_) => -9,
        IrecvError::Pipe(_) => -10,
        IrecvError::Timeout(_) => -11,
        IrecvError::Unsupported(_) => -254,
        IrecvError::PwnedDevice(_) => -100,
        IrecvError::Unknown(_) => -255,
    }
}

/// The detail message a variant carries, if it carries one.
pub open spec fn spec_detail(e: IrecvError) -> Option<Seq<char>> {
    match e {
        IrecvError::NoDevice(s) => Some(s@),
        IrecvError::UnableToConnect(s) => Some(s@),
        IrecvError::InvalidInput(s) => Some(s@),
        IrecvError::UsbUpload(s) => Some(s@),
        IrecvError::UsbStatus(s) => Some(s@),
        IrecvError::UsbInterface(s) => Some(s@),
        IrecvError::UsbConfiguration(s) => Some(s@),
        IrecvError::Pipe(s) => Some(s@),
        IrecvError::Timeout(s) => Some(s@),
        IrecvError::Unsupported(s) => Some(s@),
        IrecvError::PwnedDevice(s) => Some(s@),
        IrecvError::Unknown(s) => Some(s@),
        IrecvError::OutOfMemory => None,
        IrecvError::FileNotFound => None,
    }
}

/// The fixed English description of each variant (`irecv_strerror()`).
pub open spec fn spec_strerror(e: IrecvError) -> Seq<char> {
    match e {
        IrecvError::NoDevice(_) => "No device found"@,
        IrecvError::OutOfMemory => "Out of memory"@,
        IrecvError::UnableToConnect(_) => "Unable to connect to device"@,
        IrecvError::InvalidInput(_) => "Invalid input"@,
        IrecvError::FileNotFound => "File not found"@,
        IrecvError::UsbUpload(_) => "USB upload error"@,
        IrecvError::UsbStatus(_) => "USB status error"@,
        IrecvError::UsbInterface(_) => "USB interface error"@,
        IrecvError::UsbConfiguration(_) => "USB configuration error"@,
        IrecvError::Pipe(_) => "USB pipe error"@,
        IrecvError::Timeout(_) => "Timeout error"@,
        IrecvError::Unsupported(_) => "Operation not supported"@,
        IrecvError::PwnedDevice(_) => "Device is not in Pwned DFU mode"@,
        IrecvError::Unknown(_) => "Unknown error"@,
    }
}

/// The rendered message: `"<description> (code <code>)"`, followed by
/// `": <detail>"` when the error carries a non-empty detail.
pub open spec fn spec_message(e: IrecvError) -> Seq<char> {
    let head = spec_strerror(e) + " (code "@ + decimal_int(spec_code(e)) + ")"@;
    match spec_detail(e) {
        Some(d) => if d.len() > 0 {
            head + ": "@ + d
        } else {
            head
        },
        None => head,
    }
}

/// `a` and `b` are the same variant, whatever detail they carry.
pub open spec fn same_variant(a: IrecvError, b: IrecvError) -> bool {
    match (a, b) {
        (IrecvError::NoDevice(_), IrecvError::NoDevice(_)) => true,
        (IrecvError::OutOfMemory, IrecvError::OutOfMemory) => true,
        (IrecvError::UnableToConnect(_), IrecvError::UnableToConnect(_)) => true,
        (IrecvError::InvalidInput(_), IrecvError::InvalidInput(_)) => true,
        (IrecvError::FileNotFound, IrecvError::FileNotFound) => true,
        (IrecvError::UsbUpload(_), IrecvError::UsbUpload(_)) => true,
        (IrecvError::UsbStatus(_), IrecvError::UsbStatus(_)) => true,
        (IrecvError::UsbInterface(_), IrecvError::UsbInterface(_)) => true,
        (IrecvError::UsbConfiguration(_), IrecvError::UsbConfiguration(_)) => true,
        (IrecvError::Pipe(_), IrecvError::Pipe(_)) => true,
        (IrecvError::Timeout(_), IrecvError::Timeout(_)) => true,
        (IrecvError::Unsupported(_), IrecvError::Unsupported(_)) => true,
        (IrecvError::PwnedDevice(_), IrecvError::PwnedDevice(_)) => true,
        (IrecvError::Unknown(_), IrecvError::Unknown(_)) => true,
        _ => false,
    }
}

impl IrecvError {
    /// The negative numeric code libirecovery's `irecv_error_t` uses for
    /// this variant.
    pub fn code(&self) -> (c: i32)
        ensures
            c == spec_code(*self),
    {
        match self {
            IrecvError::NoDevice(_) => -1,
            IrecvError::OutOfMemory => -2,
            IrecvError::UnableToConnect(_) => -3,
            IrecvError::InvalidInput(_) => -4,
            IrecvError::FileNotFound => -5,
            IrecvError::UsbUpload(_) => -6,
            IrecvError::UsbStatus(_) => -7,
            IrecvError::UsbInterface(_) => -8,
            IrecvError::UsbConfiguration(_) => -9,
            IrecvError::Pipe(_) => -10,
            IrecvError::Timeout(_) => -11,
            IrecvError::Unsupported(_) => -254,
            IrecvError::PwnedDevice(_) => -100,
            IrecvError::Unknown(_) => -255,
        }
    }

    fn detail(&self) -> (d: Option<&str>)
        ensures
            d.deep_view() == spec_detail(*self),
    {
        match self {
            IrecvError::NoDevice(s)
            | IrecvError::UnableToConnect(s)
            | IrecvError::InvalidInput(s)
            | IrecvError::UsbUpload(s)
            | IrecvError::UsbStatus(s)
            | IrecvError::UsbInterface(s)
            | IrecvError::UsbConfiguration(s)
            | IrecvError::Pipe(s)
            | IrecvError::Timeout(s)
            | IrecvError::Unsupported(s)
            | IrecvError::PwnedDevice(s)
            | IrecvError::Unknown(s) => Some(s.as_str()),
            IrecvError::OutOfMemory | IrecvError::FileNotFound => None,
        }
    }

    /// The fixed English description of this error (`irecv_strerror()`).
    fn strerror(&self) -> (s: &'static str)
        ensures
            s@ == spec_strerror(*self),
    {
        match self {
            IrecvError::NoDevice(_) => "No device found",
            IrecvError::OutOfMemory => "Out of memory",
            IrecvError::UnableToConnect(_) => "Unable to connect to device",
            IrecvError::InvalidInput(_) => "Invalid input",
            IrecvError::FileNotFound => "File not found",
            IrecvError::UsbUpload(_) => "USB upload error",
            IrecvError::UsbStatus(_) => "USB status error",
            IrecvError::UsbInterface(_) => "USB interface error",
            IrecvError::UsbConfiguration(_) => "USB configuration error",
            IrecvError::Pipe(_) => "USB pipe error",
            IrecvError::Timeout(_) => "Timeout error",
            IrecvError::Unsupported(_) => "Operation not supported",
            IrecvError::PwnedDevice(_) => "Device is not in Pwned DFU mode",
            IrecvError::Unknown(_) => "Unknown error",
        }
    }

    /// The human-readable message: the description and the code, then the
    /// detail when there is a non-empty one.
    pub fn to_string(&self) -> (m: String)
        ensures
            m@ == spec_message(*self),
    {
        let mut m = String::new();
        m.append(self.strerror());
        m.append(" (code ");
        push_signed_decimal(&mut m, self.code());
        m.append(")");
        match self.detail() {
            Some(d) => {
                if !d.is_empty() {
                    m.append(": ");
                    m.append(d);
                }
            },
            None => {},
        }
        assert(m@ =~= spec_message(*self));
        m
    }
}

/// Codes and variants determine each other: every code is negative, and
/// two errors share a code exactly when they are the same variant.
pub proof fn lemma_code_identifies_variant(a: IrecvError, b: IrecvError)
    ensures
        spec_code(a) < 0,
        spec_code(a) == spec_code(b) <==> same_variant(a, b),
{
}

} // verus!
