//! The errors of the protocol engine, the decoder and the flashing session.

use vstd::prelude::*;

verus! {

/// A fault of the serial link. It ends the current session.
#[derive(Debug, Clone, Copy, PartialEq, Eq)]
pub enum IoError {
    /// The port could not be opened.
    Open,
    /// Bytes could not be written or flushed.
    Write,
    /// Reading failed for a reason other than an interruption.
    Read,
    /// No terminated response arrived within the read timeout.
    Timeout,
    /// The device went away.
    Disconnected,
    /// The response is not valid UTF-8.
    InvalidUtf8,
}

/// A command that the caller can correct. The link stays usable.
#[derive(Debug, Clone, Copy, PartialEq, Eq)]
pub enum ProtocolError {
    /// The device answered with text that does not parse as the expected
    /// kind of value.
    BadResponse,
    /// A colour vector whose number of components is not a multiple of the
    /// group size.
    MalformedVector,
    /// A value above the largest that the device accepts for the field.
    OutOfRange { field: &'static str, value: u64, max: u64 },
}

/// A firmware image that is rejected as a whole.
#[derive(Debug, Clone, Copy, PartialEq, Eq)]
pub enum DecodeError {
    /// The line with this number, counted from one, is not a well-formed
    /// record.
    MalformedLine { line_no: usize },
    /// The record with this number, counted from one, has no place in 32
    /// bits: it is a directive without a value or with an offset beyond 32
    /// bits, or a data record whose address with the active offset is beyond
    /// 32 bits.
    AddressOutOfRange { line_no: usize },
}

/// A fault that ends a flashing session.
#[derive(Debug, Clone, Copy, PartialEq, Eq)]
pub enum FlashError {
    /// The image was rejected by the decoder.
    Decode(DecodeError),
    /// The device is of a product family that this flasher does not serve.
    UnsupportedDevice,
    /// The device runs its bootloader already.
    BootloaderMode,
    /// The image holds no data record, so there is nothing to erase or write.
    EmptyImage,
    /// The image is longer than a 32-bit offset can say.
    ImageTooLarge,
    /// A record does not fit into one packet.
    StalledTransfer,
    /// The device did not confirm a command.
    DeviceNotAcknowledging,
    /// The link failed.
    Io(IoError),
}

/// Why no firmware can be had for a device.
#[derive(Debug, Clone, Copy, PartialEq, Eq)]
pub enum FirmwareError {
    /// No release is for the device.
    NoReleases,
    /// The version of a release, or the requirement that it is held against,
    /// is not written as a semantic version.
    InvalidVersion,
    /// The release lacks the image of the primary controller.
    FirmwareNotFound,
    /// The release lacks the image of the side controllers.
    SidesNotFound,
    /// There is no firmware for this variant of the product.
    InvalidDeviceType,
    /// The text of an image is not made of hexadecimal digit pairs.
    InvalidHex,
}

impl ProtocolError {
    /// A line of text for an operator.
    pub fn message(&self) -> (text: &'static str)
        ensures
            text@ == match self {
                ProtocolError::BadResponse => "the device sent a response that cannot be parsed"@,
                ProtocolError::MalformedVector => "the number of colour components does not fit"@,
                ProtocolError::OutOfRange { .. } => "the value is above the maximum"@,
            },
    {
        match self {
            ProtocolError::BadResponse => "the device sent a response that cannot be parsed",
            ProtocolError::MalformedVector => "the number of colour components does not fit",
            ProtocolError::OutOfRange { .. } => "the value is above the maximum",
        }
    }
}

} // verus!
