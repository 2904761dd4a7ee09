use vstd::prelude::*;

verus! {

/// `rusb::Error` is the transport-layer error type of the USB host stack.
/// It is carried through unchanged so that callers keep the root cause;
/// nothing in this crate inspects it.
#[verifier::external_type_specification]
#[verifier::external_body]
pub struct ExRusbError(rusb::Error);

/// The error taxonomy of the device-discovery and interface-validation core.
///
/// The three kinds are mutually exclusive:
/// - `NoDeviceFound`: no attached device matched the vendor/product criteria
///   (an expected, recoverable outcome);
/// - `ProtocolError`: a matched device lacks the expected control interface
///   or one of its required endpoints;
/// - `USBError`: a transport-layer failure reported by the USB host stack,
///   propagated verbatim.
#[derive(Debug)]
pub enum DeviceError {
    NoDeviceFound,
    ProtocolError,
    USBError(rusb::Error),
}

impl DeviceError {
    /// A short description of the error kind.
    pub fn message(&self) -> (r: &'static str)
        ensures
            r@ == (match self {
                DeviceError::NoDeviceFound => "no BlackBerry was detected"@,
                DeviceError::ProtocolError => "a protocol error was detected"@,
                DeviceError::USBError(_) => "an USB error was encountered"@,
            }),
    {
        match self {
            DeviceError::NoDeviceFound => "no BlackBerry was detected",
            DeviceError::ProtocolError => "a protocol error was detected",
            DeviceError::USBError(_) => "an USB error was encountered",
        }
    }
}

impl From<rusb::Error> for DeviceError {
    fn from(rusb_err: rusb::Error) -> (r: DeviceError)
        ensures
            r == DeviceError::USBError(rusb_err),
    {
        DeviceError::USBError(rusb_err)
    }
}

impl vstd::std_specs::convert::FromSpecImpl<rusb::Error> for DeviceError {
    open spec fn obeys_from_spec() -> bool {
        true
    }

    open spec fn from_spec(rusb_err: rusb::Error) -> DeviceError {
        DeviceError::USBError(rusb_err)
    }
}

} // verus!
