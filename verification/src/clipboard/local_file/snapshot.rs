//! What was known of a file when it was captured.

use super::capture::{CaptureError, CaptureRejection};
use crate::bytes;
use crate::clipboard::data_object;
use crate::clipboard::data_object::{
    validate_virtual_file_name, DescriptorView, FileTime, VirtualFileDescriptor,
};
use crate::clipboard::hresult::{
    HResult, DV_E_FORMATETC, E_INVALIDARG, INSUFFICIENT_BUFFER, MORE_DATA,
};
use vstd::prelude::*;

verus! {

/// Attributes of files whose content lies elsewhere: offline, or recalled on open or on access.
pub const PLACEHOLDER_ATTRIBUTES: u32 = 0x0044_1000;

/// Attributes of files with more than content and times: extended attributes, integrity streams,
/// no scrubbing, pinned, unpinned, virtual.
pub const METADATA_ATTRIBUTES: u32 = 0x001F_8000;

/// Attribute of a sparse file.
pub const FILE_ATTRIBUTE_SPARSE_FILE: u32 = 0x200;

/// Attribute of a file or directory that stands for another.
pub const FILE_ATTRIBUTE_REPARSE_POINT: u32 = 0x400;

/// Attribute of a compressed file.
pub const FILE_ATTRIBUTE_COMPRESSED: u32 = 0x800;

/// Attribute of an encrypted file.
pub const FILE_ATTRIBUTE_ENCRYPTED: u32 = 0x4000;

/// Where the name stands in an entry of a stream list.
pub const STREAM_NAME_OFFSET: usize = 24;

/// Length of an entry of a stream list with a name of one unit, padding included.
pub const STREAM_ENTRY_LEN: usize = 32;

/// The name of the unnamed data stream in UTF-16: `::$DATA`.
pub const DEFAULT_STREAM: [u8; 14] = [
    0x3a, 0, 0x3a, 0, 0x24, 0, 0x44, 0, 0x41, 0, 0x54, 0, 0x41, 0,
];

/// What the system says of an open file.
#[derive(Clone, Copy, Debug, PartialEq, Eq, Structural)]
pub struct FileInformation {
    pub attributes: u32,
    pub creation_time: FileTime,
    pub last_access_time: FileTime,
    pub last_write_time: FileTime,
    pub volume_serial: u32,
    pub size_high: u32,
    pub size_low: u32,
    pub index_high: u32,
    pub index_low: u32,
}

/// Which file of which volume a file is.
#[derive(Clone, Copy, Debug, PartialEq, Eq, Structural)]
pub struct FileIdentity {
    pub volume_serial: u32,
    pub file_index: u64,
}

/// The number of which `high` and `low` are the halves.
pub open spec fn joined(high: u32, low: u32) -> u64 {
    (high * 0x1_0000_0000 + low) as u64
}

impl FileInformation {
    pub open spec fn spec_size(self) -> u64 {
        joined(self.size_high, self.size_low)
    }

    pub open spec fn spec_identity(self) -> FileIdentity {
        FileIdentity {
            volume_serial: self.volume_serial,
            file_index: joined(self.index_high, self.index_low),
        }
    }

    pub fn size(self) -> (size: u64)
        ensures
            size == self.spec_size(),
    {
        self.size_high as u64 * 0x1_0000_0000 + self.size_low as u64
    }

    pub fn identity(self) -> (identity: FileIdentity)
        ensures
            identity == self.spec_identity(),
    {
        FileIdentity {
            volume_serial: self.volume_serial,
            file_index: self.index_high as u64 * 0x1_0000_0000 + self.index_low as u64,
        }
    }
}

/// Why files with these attributes are not offered.
pub open spec fn attribute_refusal(attributes: u32) -> Option<CaptureRejection> {
    if attributes & data_object::FILE_ATTRIBUTE_DIRECTORY != 0 {
        Some(CaptureRejection::Directory)
    } else if attributes & FILE_ATTRIBUTE_REPARSE_POINT != 0 {
        Some(CaptureRejection::ReparsePoint)
    } else if attributes & FILE_ATTRIBUTE_ENCRYPTED != 0 {
        Some(CaptureRejection::Encrypted)
    } else if attributes & FILE_ATTRIBUTE_SPARSE_FILE != 0 {
        Some(CaptureRejection::Sparse)
    } else if attributes & PLACEHOLDER_ATTRIBUTES != 0 {
        Some(CaptureRejection::OfflinePlaceholder)
    } else if attributes & FILE_ATTRIBUTE_COMPRESSED != 0 {
        Some(CaptureRejection::Compressed)
    } else if attributes & METADATA_ATTRIBUTES != 0 {
        Some(CaptureRejection::UnsupportedMetadata)
    } else {
        None
    }
}

/// Whether files with these attributes are offered.
pub fn reject_attributes(attributes: u32) -> (result: Result<(), CaptureRejection>)
    ensures
        result == (match attribute_refusal(attributes) {
            Some(reason) => Err::<(), CaptureRejection>(reason),
            None => Ok(()),
        }),
{
    if attributes & data_object::FILE_ATTRIBUTE_DIRECTORY != 0 {
        return Err(CaptureRejection::Directory);
    }
    if attributes & FILE_ATTRIBUTE_REPARSE_POINT != 0 {
        return Err(CaptureRejection::ReparsePoint);
    }
    if attributes & FILE_ATTRIBUTE_ENCRYPTED != 0 {
        return Err(CaptureRejection::Encrypted);
    }
    if attributes & FILE_ATTRIBUTE_SPARSE_FILE != 0 {
        return Err(CaptureRejection::Sparse);
    }
    if attributes & PLACEHOLDER_ATTRIBUTES != 0 {
        return Err(CaptureRejection::OfflinePlaceholder);
    }
    if attributes & FILE_ATTRIBUTE_COMPRESSED != 0 {
        return Err(CaptureRejection::Compressed);
    }
    if attributes & METADATA_ATTRIBUTES != 0 {
        return Err(CaptureRejection::UnsupportedMetadata);
    }
    Ok(())
}

/// Length of the name of the entry at a place of a stream list, in bytes.
pub open spec fn name_length(list: Seq<u8>, cursor: int) -> int {
    bytes::le_value(bytes::slice_of(list, cursor + 4, 4)) as int
}

/// Distance from the entry at a place of a stream list to the next; zero at the last.
pub open spec fn next_distance(list: Seq<u8>, cursor: int) -> int {
    bytes::le_value(bytes::slice_of(list, cursor, 4)) as int
}

/// Whether the entry at a place of a stream list lies within the list and has a name of whole
/// UTF-16 code units.
pub open spec fn entry_fits(list: Seq<u8>, cursor: int) -> bool {
    &&& cursor + STREAM_ENTRY_LEN <= list.len()
    &&& name_length(list, cursor) % 2 == 0
    &&& cursor + STREAM_NAME_OFFSET + name_length(list, cursor) <= list.len()
}

/// Whether the entry at a place of a stream list is the unnamed data stream.
pub open spec fn entry_is_default(list: Seq<u8>, cursor: int) -> bool {
    bytes::slice_of(list, cursor + STREAM_NAME_OFFSET, name_length(list, cursor))
        == DEFAULT_STREAM@
}

/// Whether a stream list names a stream besides the unnamed one, from an entry on. An entry that
/// lies outside the list, or goes back in it, makes the list invalid.
pub open spec fn named_stream(list: Seq<u8>, cursor: int) -> Result<bool, HResult>
    decreases list.len() - cursor,
{
    if !entry_fits(list, cursor) {
        Err(E_INVALIDARG)
    } else if !entry_is_default(list, cursor) {
        Ok(true)
    } else if next_distance(list, cursor) == 0 {
        Ok(false)
    } else if next_distance(list, cursor) < STREAM_NAME_OFFSET || cursor + next_distance(
        list,
        cursor,
    ) > list.len() {
        Err(E_INVALIDARG)
    } else {
        named_stream(list, cursor + next_distance(list, cursor))
    }
}

/// Whether a stream list names a stream besides the unnamed one. A list that is too long to be
/// told has more than the unnamed stream.
pub fn has_named_data_stream(query: Result<&[u8], HResult>) -> (result: Result<bool, HResult>)
    ensures
        result == (match query {
            Err(code) => if code == MORE_DATA || code == INSUFFICIENT_BUFFER {
                Ok::<bool, HResult>(true)
            } else {
                Err(code)
            },
            Ok(list) => named_stream(list@, 0),
        }),
{
    let list = match query {
        Err(code) => {
            if code == MORE_DATA || code == INSUFFICIENT_BUFFER {
                return Ok(true);
            }
            return Err(code);
        },
        Ok(list) => list,
    };
    proof {
        bytes::lemma_capacity_values();
    }
    let mut cursor: usize = 0;
    loop
        invariant
            cursor <= list@.len(),
            named_stream(list@, cursor as int) == named_stream(list@, 0),
            query == Ok::<&[u8], HResult>(list),
            bytes::capacity(4) == 0x1_0000_0000,
        decreases list@.len() - cursor,
    {
        if list.len() - cursor < STREAM_ENTRY_LEN {
            return Err(E_INVALIDARG);
        }
        let length: usize = bytes::get_le(list, cursor + 4, 4) as usize;
        if length % 2 != 0 {
            return Err(E_INVALIDARG);
        }
        let start: usize = cursor + STREAM_NAME_OFFSET;
        if length > list.len() - start {
            return Err(E_INVALIDARG);
        }
        assert(entry_fits(list@, cursor as int));
        assert(list@.subrange(start as int, start + length) == bytes::slice_of(
            list@,
            start as int,
            length as int,
        ));
        if !bytes::bytes_equal(&list[start..start + length], &DEFAULT_STREAM) {
            return Ok(true);
        }
        let next: usize = bytes::get_le(list, cursor, 4) as usize;
        if next == 0 {
            return Ok(false);
        }
        if next < STREAM_NAME_OFFSET {
            return Err(E_INVALIDARG);
        }
        if next > list.len() - cursor {
            return Err(E_INVALIDARG);
        }
        cursor += next;
    }
}

/// What was known of a file when it was captured. The path is in UTF-16 code units.
#[derive(Debug)]
pub struct FileSnapshot {
    pub path: Vec<u16>,
    pub file_name: String,
    pub size: u64,
    pub attributes: u32,
    pub creation_time: FileTime,
    pub last_access_time: FileTime,
    pub last_write_time: FileTime,
    pub identity: FileIdentity,
}

impl FileSnapshot {
    /// Checks the path of a file to capture: it must be absolute and end in a name in Unicode
    /// that an offered file can have.
    pub fn check_path(absolute: bool, file_name: Option<&str>) -> (result: Result<(), CaptureError>)
        ensures
            result == if !absolute {
                Err::<(), CaptureError>(
                    CaptureError::Rejected { reason: CaptureRejection::InvalidPath },
                )
            } else {
                match file_name {
                    None => Err(
                        CaptureError::Rejected { reason: CaptureRejection::NonUnicodeName },
                    ),
                    Some(name) => if data_object::valid_virtual_name(name@) {
                        Ok(())
                    } else {
                        Err(CaptureError::Windows { code: DV_E_FORMATETC })
                    },
                }
            },
    {
        if !absolute {
            return Err(CaptureError::Rejected { reason: CaptureRejection::InvalidPath });
        }
        match file_name {
            None => Err(CaptureError::Rejected { reason: CaptureRejection::NonUnicodeName }),
            Some(name) => match validate_virtual_file_name(name) {
                Ok(_) => Ok(()),
                Err(code) => Err(CaptureError::Windows { code }),
            },
        }
    }

    /// Why an open file is not offered.
    pub open spec fn refusal(
        information: FileInformation,
        on_disk: bool,
        streams: Result<bool, HResult>,
    ) -> Option<CaptureError> {
        match attribute_refusal(information.attributes) {
            Some(reason) => Some(CaptureError::Rejected { reason }),
            None => if !on_disk {
                Some(CaptureError::Rejected { reason: CaptureRejection::NonDiskFile })
            } else {
                match streams {
                    Err(code) => Some(CaptureError::Windows { code }),
                    Ok(true) => Some(
                        CaptureError::Rejected { reason: CaptureRejection::AlternateDataStream },
                    ),
                    Ok(false) => None,
                }
            },
        }
    }

    /// The snapshot of an open file, from what the system says of it.
    pub fn capture(
        path: Vec<u16>,
        file_name: String,
        information: FileInformation,
        on_disk: bool,
        streams: Result<bool, HResult>,
    ) -> (result: Result<Self, CaptureError>)
        ensures
            match result {
                Err(error) => FileSnapshot::refusal(information, on_disk, streams) == Some(error),
                Ok(snapshot) => {
                    &&& FileSnapshot::refusal(information, on_disk, streams) is None
                    &&& snapshot.path@ == path@
                    &&& snapshot.file_name@ == file_name@
                    &&& snapshot.spec_matches(information)
                    &&& snapshot.last_access_time == information.last_access_time
                },
            },
    {
        match reject_attributes(information.attributes) {
            Err(reason) => {
                return Err(CaptureError::Rejected { reason });
            },
            Ok(_) => {},
        }
        if !on_disk {
            return Err(CaptureError::Rejected { reason: CaptureRejection::NonDiskFile });
        }
        match streams {
            Err(code) => {
                return Err(CaptureError::Windows { code });
            },
            Ok(named) => {
                if named {
                    return Err(
                        CaptureError::Rejected { reason: CaptureRejection::AlternateDataStream },
                    );
                }
            },
        }
        Ok(
            FileSnapshot {
                path,
                file_name,
                size: information.size(),
                attributes: information.attributes,
                creation_time: information.creation_time,
                last_access_time: information.last_access_time,
                last_write_time: information.last_write_time,
                identity: information.identity(),
            },
        )
    }

    /// Whether a file is still what it was. Reading changes the time of the last access, so that
    /// is left out.
    pub open spec fn spec_matches(&self, information: FileInformation) -> bool {
        &&& self.size == information.spec_size()
        &&& self.attributes == information.attributes
        &&& self.identity == information.spec_identity()
        &&& self.creation_time == information.creation_time
        &&& self.last_write_time == information.last_write_time
    }

    pub fn file_name(&self) -> (name: &str)
        ensures
            name@ == self.file_name@,
    {
        self.file_name.as_str()
    }

    pub fn size(&self) -> (size: u64)
        ensures
            size == self.size,
    {
        self.size
    }

    pub fn matches(&self, information: FileInformation) -> (same: bool)
        ensures
            same == self.spec_matches(information),
    {
        self.size == information.size() && self.attributes == information.attributes
            && self.identity == information.identity() && self.creation_time
            == information.creation_time && self.last_write_time == information.last_write_time
    }

    /// What the clipboard tells of the file.
    pub fn descriptor(&self) -> (descriptor: VirtualFileDescriptor)
        ensures
            descriptor@ == (DescriptorView {
                name: self.file_name@,
                size: self.size,
                attributes: self.attributes,
                creation_time: Some(self.creation_time),
                last_access_time: Some(self.last_access_time),
                last_write_time: Some(self.last_write_time),
            }),
    {
        VirtualFileDescriptor {
            file_name: self.file_name.clone(),
            size: self.size,
            attributes: self.attributes,
            creation_time: Some(self.creation_time),
            last_access_time: Some(self.last_access_time),
            last_write_time: Some(self.last_write_time),
        }
    }
}

/// A stream list with any other than the unnamed stream is never taken for one without: where no
/// stream is reported, every entry up to the last is the unnamed one.
pub proof fn lemma_streams_are_not_missed(list: Seq<u8>, cursor: int)
    requires
        named_stream(list, cursor) == Ok::<bool, HResult>(false),
    ensures
        entry_fits(list, cursor),
        entry_is_default(list, cursor),
        next_distance(list, cursor) != 0 ==> named_stream(
            list,
            cursor + next_distance(list, cursor),
        ) == Ok::<bool, HResult>(false),
{
}

/// A file that was captured is still what it was until something other than a read happens to
/// it.
pub proof fn lemma_matching_ignores_access_time(
    snapshot: FileSnapshot,
    information: FileInformation,
    read_at: FileTime,
)
    ensures
        snapshot.spec_matches(FileInformation { last_access_time: read_at, ..information })
            == snapshot.spec_matches(information),
{
}

/// The bits of the attributes of a file: 9 where it is sparse, 10 where it points elsewhere, 11 where it
/// is compressed, 14 where it is encrypted, 12, 18 and 22 where its content is not here, and 15 to 20
/// where it has more than content and times.
pub proof fn lemma_attributes_of_files()
    ensures
        FILE_ATTRIBUTE_SPARSE_FILE == 512,
        FILE_ATTRIBUTE_REPARSE_POINT == 1024,
        FILE_ATTRIBUTE_COMPRESSED == 2048,
        FILE_ATTRIBUTE_ENCRYPTED == 16_384,
        PLACEHOLDER_ATTRIBUTES == 4096 + 262_144 + 4_194_304,
        METADATA_ATTRIBUTES == 32_768 + 65_536 + 131_072 + 262_144 + 524_288 + 1_048_576,
        STREAM_NAME_OFFSET == 4 + 4 + 8 + 8,
        STREAM_ENTRY_LEN == 32,
{
}

} // verus!
