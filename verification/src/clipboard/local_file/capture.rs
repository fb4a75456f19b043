//! What the clipboard holds, as far as it can be offered.

use crate::bytes;
use crate::clipboard::hresult::{HResult, E_INVALIDARG};
use crate::clipboard::report;
use crate::clipboard::secure_transfer::manifest::ORIGIN_PREFIX;
use crate::text;
use vstd::prelude::*;

verus! {

/// Longest path that is taken, in UTF-16 code units.
pub const MAX_CAPTURE_PATH_U16: usize = 32_767;

/// Bytes with which the private format of this application starts.
pub const PRIVATE_ORIGIN_PREFIX: [u8; 25] = ORIGIN_PREFIX;

/// Drop effect of a copy.
pub const DROPEFFECT_COPY: u32 = 1;

/// Drop effect of a move.
pub const DROPEFFECT_MOVE: u32 = 2;

/// Numbers of the registered formats that a capture looks at.
#[derive(Clone, Copy, Debug, PartialEq, Eq, Structural)]
pub struct CaptureFormats {
    pub preferred_effect: u32,
    pub private_origin: u32,
}

/// Why a file is not offered.
#[derive(Clone, Copy, Debug, PartialEq, Eq, Structural)]
pub enum CaptureRejection {
    MissingCopyEffect,
    CutOperation,
    MultipleItems,
    InvalidPath,
    NonUnicodeName,
    Directory,
    ReparsePoint,
    Encrypted,
    Sparse,
    OfflinePlaceholder,
    Compressed,
    AlternateDataStream,
    UnsupportedMetadata,
    NonDiskFile,
}

impl CaptureRejection {
    /// The word that a log shows.
    pub open spec fn spec_label(self) -> Seq<char> {
        match self {
            CaptureRejection::MissingCopyEffect => "missing-copy-effect"@,
            CaptureRejection::CutOperation => "cut-operation"@,
            CaptureRejection::MultipleItems => "multiple-items"@,
            CaptureRejection::InvalidPath => "invalid-path"@,
            CaptureRejection::NonUnicodeName => "non-unicode-name"@,
            CaptureRejection::Directory => "directory"@,
            CaptureRejection::ReparsePoint => "reparse-point"@,
            CaptureRejection::Encrypted => "efs-encrypted"@,
            CaptureRejection::Sparse => "sparse-file"@,
            CaptureRejection::OfflinePlaceholder => "offline-or-cloud-placeholder"@,
            CaptureRejection::Compressed => "compressed-file"@,
            CaptureRejection::AlternateDataStream => "alternate-data-stream"@,
            CaptureRejection::UnsupportedMetadata => "unsupported-file-metadata"@,
            CaptureRejection::NonDiskFile => "non-disk-file"@,
        }
    }

    /// The word that a log shows.
    pub fn label(self) -> (label: &'static str)
        ensures
            label@ == self.spec_label(),
    {
        match self {
            CaptureRejection::MissingCopyEffect => "missing-copy-effect",
            CaptureRejection::CutOperation => "cut-operation",
            CaptureRejection::MultipleItems => "multiple-items",
            CaptureRejection::InvalidPath => "invalid-path",
            CaptureRejection::NonUnicodeName => "non-unicode-name",
            CaptureRejection::Directory => "directory",
            CaptureRejection::ReparsePoint => "reparse-point",
            CaptureRejection::Encrypted => "efs-encrypted",
            CaptureRejection::Sparse => "sparse-file",
            CaptureRejection::OfflinePlaceholder => "offline-or-cloud-placeholder",
            CaptureRejection::Compressed => "compressed-file",
            CaptureRejection::AlternateDataStream => "alternate-data-stream",
            CaptureRejection::UnsupportedMetadata => "unsupported-file-metadata",
            CaptureRejection::NonDiskFile => "non-disk-file",
        }
    }
}

/// What the clipboard holds. The path is in UTF-16 code units, without a closing zero.
#[derive(Debug)]
pub enum ClipboardCapture {
    Candidate { path: Vec<u16>, sequence: u32 },
    NotFileClipboard,
    PrivateOffer,
    Rejected { reason: CaptureRejection },
}

/// Why a capture failed: the system refused, or the file is not offered.
#[derive(Clone, Copy, Debug, PartialEq, Eq, Structural)]
pub enum CaptureError {
    Windows { code: HResult },
    Rejected { reason: CaptureRejection },
}

impl CaptureError {
    /// The sentence that a log shows, given the words of the system for its code.
    pub open spec fn sentence(self, system_text: Seq<char>) -> Seq<char> {
        match self {
            CaptureError::Windows { code } => system_text + " ("@ + report::code_text(code) + ")"@,
            CaptureError::Rejected { reason } => "rejected: "@ + reason.spec_label(),
        }
    }

    /// The sentence that a log shows, given the words of the system for its code.
    pub fn message(self, system_text: &str) -> (message: String)
        ensures
            message@ == self.sentence(system_text@),
    {
        let mut message = String::new();
        match self {
            CaptureError::Windows { code } => {
                text::push_text(&mut message, system_text);
                text::push_text(&mut message, " (");
                text::push_text(&mut message, report::format_code(code).as_str());
                text::push_text(&mut message, ")");
            },
            CaptureError::Rejected { reason } => {
                text::push_text(&mut message, "rejected: ");
                text::push_text(&mut message, reason.label());
            },
        }
        assert(message@ =~= self.sentence(system_text@));
        message
    }
}

/// Whether a payload is that of an offer of this application.
pub open spec fn private_origin(payload: Seq<u8>) -> bool {
    &&& payload.len() == PRIVATE_ORIGIN_PREFIX@.len() + 16
    &&& payload.take(PRIVATE_ORIGIN_PREFIX@.len() as int) == PRIVATE_ORIGIN_PREFIX@
}

/// Whether a payload is that of an offer of this application.
pub fn is_private_origin_payload(payload: &[u8]) -> (private: bool)
    ensures
        private == private_origin(payload@),
{
    if payload.len() != 25 + 16 {
        return false;
    }
    assert(payload@.subrange(0, 25) =~= payload@.take(25));
    bytes::bytes_equal(&payload[0..25], &PRIVATE_ORIGIN_PREFIX)
}

/// Why a drop effect is refused: files that are cut, or not expressly copied, are not offered.
pub open spec fn effect_refusal(effect: u32) -> Option<CaptureRejection> {
    if effect & DROPEFFECT_MOVE != 0 {
        Some(CaptureRejection::CutOperation)
    } else if effect & DROPEFFECT_COPY == 0 {
        Some(CaptureRejection::MissingCopyEffect)
    } else {
        None
    }
}

/// Whether a drop effect is that of a copy.
pub fn validate_drop_effect(effect: u32) -> (result: Result<(), CaptureRejection>)
    ensures
        result == (match effect_refusal(effect) {
            Some(reason) => Err::<(), CaptureRejection>(reason),
            None => Ok(()),
        }),
{
    if effect & DROPEFFECT_MOVE != 0 {
        return Err(CaptureRejection::CutOperation);
    }
    if effect & DROPEFFECT_COPY == 0 {
        return Err(CaptureRejection::MissingCopyEffect);
    }
    Ok(())
}

/// The drop effect in a block of memory.
pub fn read_drop_effect(memory: &[u8]) -> (result: Result<u32, HResult>)
    ensures
        result == if memory@.len() < 4 {
            Err::<u32, HResult>(E_INVALIDARG)
        } else {
            Ok(bytes::le_value(bytes::slice_of(memory@, 0, 4)) as u32)
        },
{
    if memory.len() < 4 {
        return Err(E_INVALIDARG);
    }
    proof {
        bytes::lemma_capacity_values();
    }
    Ok(bytes::get_le(memory, 0, 4) as u32)
}

/// What the formats on the clipboard decide before any of its content is looked at: the payload
/// of the private format where it could be read, whether there are files, and whether there is a
/// drop effect. Nothing where the content decides.
pub fn classify_formats(
    origin: Option<&[u8]>,
    has_files: bool,
    has_effect: bool,
) -> (capture: Option<ClipboardCapture>)
    ensures
        ({
            let private = match origin {
                Some(payload) => private_origin(payload@),
                None => false,
            };
            match capture {
                Some(ClipboardCapture::PrivateOffer) => private,
                Some(ClipboardCapture::NotFileClipboard) => !private && !has_files,
                Some(ClipboardCapture::Rejected { reason }) => !private && has_files && !has_effect
                    && reason == CaptureRejection::MissingCopyEffect,
                Some(_) => false,
                None => !private && has_files && has_effect,
            }
        }),
{
    match origin {
        Some(payload) => {
            if is_private_origin_payload(payload) {
                return Some(ClipboardCapture::PrivateOffer);
            }
        },
        None => {},
    }
    if !has_files {
        return Some(ClipboardCapture::NotFileClipboard);
    }
    if !has_effect {
        return Some(ClipboardCapture::Rejected { reason: CaptureRejection::MissingCopyEffect });
    }
    None
}

/// Whether the files on the clipboard can be captured: there must be one, with a path of a
/// length that is taken.
pub fn check_items(count: u32, length: usize) -> (result: Result<(), CaptureRejection>)
    ensures
        result == if count != 1 {
            Err::<(), CaptureRejection>(CaptureRejection::MultipleItems)
        } else if length == 0 || length > MAX_CAPTURE_PATH_U16 {
            Err(CaptureRejection::InvalidPath)
        } else {
            Ok(())
        },
{
    if count != 1 {
        return Err(CaptureRejection::MultipleItems);
    }
    if length == 0 || length > MAX_CAPTURE_PATH_U16 {
        return Err(CaptureRejection::InvalidPath);
    }
    Ok(())
}

/// The candidate in a buffer that a path of the given length was copied into with a closing
/// zero. `copied` is the length that was reported for the copy.
pub fn candidate(
    buffer: &[u16],
    length: usize,
    copied: usize,
    absolute: bool,
    sequence: u32,
) -> (capture: ClipboardCapture)
    requires
        length < buffer@.len(),
    ensures
        match capture {
            ClipboardCapture::Candidate { path, sequence: told } => {
                &&& copied == length && buffer@[length as int] == 0 && absolute
                &&& path@ == buffer@.take(length as int)
                &&& told == sequence
            },
            ClipboardCapture::Rejected { reason } => {
                &&& !(copied == length && buffer@[length as int] == 0 && absolute)
                &&& reason == CaptureRejection::InvalidPath
            },
            _ => false,
        },
{
    if copied != length || buffer[length] != 0 || !absolute {
        return ClipboardCapture::Rejected { reason: CaptureRejection::InvalidPath };
    }
    let mut path: Vec<u16> = Vec::new();
    path.extend_from_slice(&buffer[0..length]);
    assert(path@ =~= buffer@.take(length as int));
    ClipboardCapture::Candidate { path, sequence }
}

/// Only an express copy is offered: a cut is refused even where a copy is allowed too.
pub proof fn lemma_only_copies_are_offered(effect: u32)
    ensures
        effect_refusal(effect) is None <==> (effect % 2 == 1 && (effect / 2) % 2 == 0),
{
    assert((effect & 2 == 0) == ((effect / 2) % 2 == 0)) by (bit_vector);
    assert((effect & 1 == 0) == (effect % 2 == 0)) by (bit_vector);
}

/// The word under which a log shows why a clipboard was not captured.
pub proof fn lemma_words_of_rejections(rejection: CaptureRejection, label: &'static str)
    requires
        call_ensures(CaptureRejection::label, (rejection,), label),
    ensures
        rejection is MissingCopyEffect ==> label@ == "missing-copy-effect"@,
        rejection is CutOperation ==> label@ == "cut-operation"@,
        rejection is MultipleItems ==> label@ == "multiple-items"@,
        rejection is InvalidPath ==> label@ == "invalid-path"@,
        rejection is NonUnicodeName ==> label@ == "non-unicode-name"@,
        rejection is Directory ==> label@ == "directory"@,
        rejection is ReparsePoint ==> label@ == "reparse-point"@,
        rejection is Encrypted ==> label@ == "efs-encrypted"@,
        rejection is Sparse ==> label@ == "sparse-file"@,
        rejection is OfflinePlaceholder ==> label@ == "offline-or-cloud-placeholder"@,
        rejection is Compressed ==> label@ == "compressed-file"@,
        rejection is AlternateDataStream ==> label@ == "alternate-data-stream"@,
        rejection is UnsupportedMetadata ==> label@ == "unsupported-file-metadata"@,
        rejection is NonDiskFile ==> label@ == "non-disk-file"@,
{
}

} // verus!
