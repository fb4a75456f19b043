//! The clipboard side of a transfer: virtual files, their sources and the range protocols.

pub mod behaviour;
pub mod coverage;
pub mod data_object;
pub mod format_enum;
pub mod hresult;
pub mod local_file;
pub mod loopback;
pub mod probe;
pub mod product;
pub mod report;
pub mod runtime;
pub mod secure_transfer;
pub mod source;
pub mod stream;
pub mod transfer;
pub mod virtual_object;

use vstd::prelude::*;

verus! {

/// Name of the fixed virtual file of the clipboard probe.
pub const TEST_FILE_NAME: &'static str = "RemoteClipboard-Test.txt";

/// Content of the fixed virtual file of the clipboard probe.
pub const TEST_FILE_CONTENT: &'static str = "ClipFerry virtual file stream test.\r\n";

} // verus!
