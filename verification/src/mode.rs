//! `IrecvMode`: the USB mode of an Apple device in the DFU/Recovery/WTF
//! family, classified from its USB `(vendor_id, product_id)`.
//!
//! Normal mode is not part of this family and is never reported by
//! [`IrecvMode::from_pid`]; Pwned DFU cannot be told apart from plain DFU
//! by product ID and is inferred from the serial string instead
//! (see [`crate::info::DeviceInfo::is_pwned`]).
use vstd::prelude::*;

verus! {

pub const APPLE_VID: u16 = 0x05ac;

// Recovery/DFU family product IDs.
pub const PID_WTF: u16 = 0x1222;
pub const PID_DFU: u16 = 0x1227;
pub const PID_RECOVERY_1: u16 = 0x1280;
pub const PID_RECOVERY_2: u16 = 0x1281;
pub const PID_RECOVERY_3: u16 = 0x1282;
pub const PID_RECOVERY_4: u16 = 0x1283;
/// "Port DFU": the DFU variant used by A12+ SoCs, outside the classic range.
pub const PID_PORT_DFU: u16 = 0x1338;

#[derive(Debug, Clone, Copy, PartialEq, Eq, Structural)]
pub enum IrecvMode {
    Recovery1,
    Recovery2,
    Recovery3,
    Recovery4,
    Dfu,
    Wtf,
    PortDfu,
    /// Inferred from the serial string's `PWND:` tag, never from the USB
    /// product ID alone.
    PwnedDfu,
    /// Regular usbmux/lockdownd mode; never reported by `from_pid`.
    Normal,
    Unknown,
}

/// The mode that a `(vendor_id, product_id)` pair denotes.
pub open spec fn spec_from_pid(vendor_id: u16, product_id: u16) -> IrecvMode {
    if vendor_id != APPLE_VID {
        IrecvMode::Unknown
    } else if product_id == PID_RECOVERY_1 {
        IrecvMode::Recovery1
    } else if product_id == PID_RECOVERY_2 {
        IrecvMode::Recovery2
    } else if product_id == PID_RECOVERY_3 {
        IrecvMode::Recovery3
    } else if product_id == PID_RECOVERY_4 {
        IrecvMode::Recovery4
    } else if product_id == PID_DFU {
        IrecvMode::Dfu
    } else if product_id == PID_WTF {
        IrecvMode::Wtf
    } else if product_id == PID_PORT_DFU {
        IrecvMode::PortDfu
    } else {
        IrecvMode::Unknown
    }
}

/// Any of the four Recovery variants.
pub open spec fn spec_is_recovery(m: IrecvMode) -> bool {
    m is Recovery1 || m is Recovery2 || m is Recovery3 || m is Recovery4
}

/// The modes that speak the DFU protocol.
pub open spec fn spec_is_dfu(m: IrecvMode) -> bool {
    m is Dfu || m is Wtf || m is PortDfu || m is PwnedDfu
}

/// The short lowercase label of a mode.
pub open spec fn spec_label(m: IrecvMode) -> Seq<char> {
    if spec_is_recovery(m) {
        "recovery"@
    } else if m is Dfu || m is Wtf || m is PortDfu {
        "dfu"@
    } else if m is PwnedDfu {
        "pwned_dfu"@
    } else if m is Normal {
        "normal"@
    } else {
        "unknown"@
    }
}

impl IrecvMode {
    /// Classify a device's DFU/Recovery/WTF mode from its USB
    /// `(vendor_id, product_id)`; `Unknown` for anything outside that
    /// family, Normal mode included.
    pub fn from_pid(vendor_id: u16, product_id: u16) -> (m: IrecvMode)
        ensures
            m == spec_from_pid(vendor_id, product_id),
    {
        if vendor_id != APPLE_VID {
            return IrecvMode::Unknown;
        }
        match product_id {
            PID_RECOVERY_1 => IrecvMode::Recovery1,
            PID_RECOVERY_2 => IrecvMode::Recovery2,
            PID_RECOVERY_3 => IrecvMode::Recovery3,
            PID_RECOVERY_4 => IrecvMode::Recovery4,
            PID_DFU => IrecvMode::Dfu,
            PID_WTF => IrecvMode::Wtf,
            PID_PORT_DFU => IrecvMode::PortDfu,
            _ => IrecvMode::Unknown,
        }
    }

    /// Whether this is any Recovery mode variant (1..4).
    pub fn is_recovery(self) -> (b: bool)
        ensures
            b == spec_is_recovery(self),
    {
        match self {
            IrecvMode::Recovery1 | IrecvMode::Recovery2 | IrecvMode::Recovery3
            | IrecvMode::Recovery4 => true,
            _ => false,
        }
    }

    /// Whether this mode speaks the DFU protocol (DFU/WTF/PortDfu/PwnedDfu).
    pub fn is_dfu(self) -> (b: bool)
        ensures
            b == spec_is_dfu(self),
    {
        match self {
            IrecvMode::Dfu | IrecvMode::Wtf | IrecvMode::PortDfu | IrecvMode::PwnedDfu => true,
            _ => false,
        }
    }

    /// Short lowercase label, for logs and UI.
    pub fn label(self) -> (s: &'static str)
        ensures
            s@ == spec_label(self),
    {
        match self {
            IrecvMode::Recovery1 | IrecvMode::Recovery2 | IrecvMode::Recovery3
            | IrecvMode::Recovery4 => "recovery",
            IrecvMode::Dfu | IrecvMode::Wtf | IrecvMode::PortDfu => "dfu",
            IrecvMode::PwnedDfu => "pwned_dfu",
            IrecvMode::Normal => "normal",
            IrecvMode::Unknown => "unknown",
        }
    }
}

/// `from_pid` only ever reports a Recovery variant, a DFU-protocol mode
/// other than Pwned DFU, or `Unknown`: it never reports `PwnedDfu` (which
/// the product ID cannot reveal) nor `Normal`, and it reports `Unknown`
/// for every vendor other than Apple.
pub proof fn lemma_from_pid_family(vendor_id: u16, product_id: u16)
    ensures
        ({
            let m = spec_from_pid(vendor_id, product_id);
            &&& m !is PwnedDfu
            &&& m !is Normal
            &&& spec_is_recovery(m) || spec_is_dfu(m) || m is Unknown
            &&& vendor_id != APPLE_VID ==> m is Unknown
        }),
{
}

/// No mode is both a Recovery variant and a DFU-protocol mode.
pub proof fn lemma_recovery_dfu_disjoint(m: IrecvMode)
    ensures
        !(spec_is_recovery(m) && spec_is_dfu(m)),
{
}

/// The label follows the family: every Recovery variant is labelled
/// `"recovery"`, every DFU-protocol mode but Pwned DFU `"dfu"`, and Pwned
/// DFU `"pwned_dfu"`.
pub proof fn lemma_label_follows_family(m: IrecvMode)
    ensures
        spec_is_recovery(m) ==> spec_label(m) == "recovery"@,
        spec_is_dfu(m) && m !is PwnedDfu ==> spec_label(m) == "dfu"@,
        m is PwnedDfu ==> spec_label(m) == "pwned_dfu"@,
{
}

/// For Apple's vendor id (`0x05ac`) exactly the seven family product ids
/// give a mode: `0x1280`..=`0x1283` are the Recovery modes, `0x1227`,
/// `0x1222` and `0x1338` the DFU-protocol modes (DFU, WTF, Port DFU);
/// every other product id gives `Unknown`.
pub proof fn lemma_from_pid_apple_family(product_id: u16)
    ensures
        spec_from_pid(0x05ac, product_id) is Unknown <==> !(0x1280 <= product_id <= 0x1283
            || product_id == 0x1227 || product_id == 0x1222 || product_id == 0x1338),
        spec_is_recovery(spec_from_pid(0x05ac, product_id)) <==> 0x1280 <= product_id <= 0x1283,
        spec_is_dfu(spec_from_pid(0x05ac, product_id)) <==> (product_id == 0x1227 || product_id
            == 0x1222 || product_id == 0x1338),
        product_id == 0x1227 ==> spec_from_pid(0x05ac, product_id) is Dfu,
        product_id == 0x1222 ==> spec_from_pid(0x05ac, product_id) is Wtf,
        product_id == 0x1338 ==> spec_from_pid(0x05ac, product_id) is PortDfu,
{
}

/// Different product ids of the family never give the same mode:
/// `from_pid` tells every family member apart, and the Recovery variants
/// follow the product ids in order (`0x1280` is `Recovery1`, ...).
pub proof fn lemma_from_pid_distinguishes(p: u16, q: u16)
    ensures
        spec_from_pid(0x05ac, p) == spec_from_pid(0x05ac, q) && spec_from_pid(0x05ac, p) !is Unknown
            ==> p == q,
        p == 0x1280 ==> spec_from_pid(0x05ac, p) is Recovery1,
        p == 0x1281 ==> spec_from_pid(0x05ac, p) is Recovery2,
        p == 0x1282 ==> spec_from_pid(0x05ac, p) is Recovery3,
        p == 0x1283 ==> spec_from_pid(0x05ac, p) is Recovery4,
{
}

/// The label names the family exactly: a mode is labelled `"recovery"`
/// iff it is a Recovery mode, and `"dfu"` iff it speaks the DFU protocol
/// and is not Pwned DFU.
pub proof fn lemma_label_names_family(m: IrecvMode)
    ensures
        spec_label(m) == "recovery"@ <==> spec_is_recovery(m),
        spec_label(m) == "dfu"@ <==> spec_is_dfu(m) && m !is PwnedDfu,
        spec_label(m) == "pwned_dfu"@ <==> m is PwnedDfu,
{
    reveal_strlit("recovery");
    reveal_strlit("dfu");
    reveal_strlit("pwned_dfu");
    reveal_strlit("normal");
    reveal_strlit("unknown");
    assert("recovery"@.len() == 8);
    assert("dfu"@.len() == 3);
    assert("pwned_dfu"@.len() == 9);
    assert("normal"@.len() == 6);
    assert("unknown"@.len() == 7);
}

} // verus!
