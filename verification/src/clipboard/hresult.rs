//! Result codes of the component interfaces that the clipboard is served through.

use vstd::prelude::*;

verus! {

/// A 32-bit result code.
pub type HResult = u32;

pub const S_OK: HResult = 0;

pub const S_FALSE: HResult = 1;

pub const E_NOTIMPL: HResult = 0x8000_4001;

pub const E_POINTER: HResult = 0x8000_4003;

pub const STG_E_INVALIDFUNCTION: HResult = 0x8003_0001;

pub const STG_E_ACCESSDENIED: HResult = 0x8003_0005;

pub const STG_E_INVALIDPOINTER: HResult = 0x8003_0009;

pub const E_UNEXPECTED: HResult = 0x8000_FFFF;

pub const E_ACCESSDENIED: HResult = 0x8007_0005;

pub const E_INVALIDARG: HResult = 0x8007_0057;

pub const DV_E_FORMATETC: HResult = 0x8004_0064;

pub const DV_E_DVTARGETDEVICE: HResult = 0x8004_0065;

pub const DV_E_LINDEX: HResult = 0x8004_0068;

pub const DV_E_TYMED: HResult = 0x8004_0069;

pub const DV_E_DVASPECT: HResult = 0x8004_006B;

/// There is no file of that name.
pub const FILE_NOT_FOUND: HResult = 0x8007_0002;

/// What arrived does not have the form it must have.
pub const INVALID_DATA: HResult = 0x8007_000D;

/// The request is not supported.
pub const NOT_SUPPORTED: HResult = 0x8007_0032;

/// There is not enough room for the answer.
pub const INSUFFICIENT_BUFFER: HResult = 0x8007_007A;

/// There is more to the answer.
pub const MORE_DATA: HResult = 0x8007_00EA;

/// The file is no longer what it was.
pub const FILE_INVALID: HResult = 0x8007_03EE;

/// A device read failed.
pub const READ_FAULT: HResult = 0x8007_001E;

/// The connection was given up on this side.
pub const CONNECTION_ABORTED: HResult = 0x8007_04D4;

/// The user cancelled the operation.
pub const CANCELLED: HResult = 0x8007_04C7;

/// The operation ran out of time.
pub const TIMEOUT: HResult = 0x8007_05B4;

/// The result code of a system error.
pub open spec fn spec_from_win32(error: u32) -> HResult {
    if error == 0 || error >= 0x8000_0000 {
        error
    } else {
        (0x8007_0000 + error % 0x1_0000) as u32
    }
}

/// The result code of a system error.
#[verifier::when_used_as_spec(spec_from_win32)]
pub fn from_win32(error: u32) -> (code: HResult)
    ensures
        code == spec_from_win32(error),
{
    if error == 0 || error >= 0x8000_0000 {
        error
    } else {
        0x8007_0000 + error % 0x1_0000
    }
}

/// The codes of errors that the system numbers are made of those numbers, and the others are those that
/// callers of streams and data objects know.
pub proof fn lemma_codes_of_the_system()
    ensures
        S_OK == 0 && S_FALSE == 1,
        E_ACCESSDENIED == from_win32(5),
        E_INVALIDARG == from_win32(87),
        FILE_NOT_FOUND == from_win32(2),
        INVALID_DATA == from_win32(13),
        NOT_SUPPORTED == from_win32(50),
        INSUFFICIENT_BUFFER == from_win32(122),
        MORE_DATA == from_win32(234),
        FILE_INVALID == from_win32(1006),
        READ_FAULT == from_win32(30),
        CONNECTION_ABORTED == from_win32(1236),
        CANCELLED == from_win32(1223),
        TIMEOUT == from_win32(1460),
        E_NOTIMPL == 0x8000_0000 + 0x4001,
        E_POINTER == 0x8000_0000 + 0x4003,
        E_UNEXPECTED == 0x8000_0000 + 0xffff,
        STG_E_INVALIDFUNCTION == 0x8003_0000 + 1,
        STG_E_ACCESSDENIED == 0x8003_0000 + 5,
        STG_E_INVALIDPOINTER == 0x8003_0000 + 9,
        DV_E_FORMATETC == 0x8004_0000 + 100,
        DV_E_DVTARGETDEVICE == 0x8004_0000 + 101,
        DV_E_LINDEX == 0x8004_0000 + 104,
        DV_E_TYMED == 0x8004_0000 + 105,
        DV_E_DVASPECT == 0x8004_0000 + 107,
{
}

} // verus!
