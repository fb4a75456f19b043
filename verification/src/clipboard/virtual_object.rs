//! The object that offers a virtual file on the clipboard.

use crate::bytes;
use crate::clipboard::data_object;
use crate::clipboard::data_object::{
    validate_virtual_file_name, write_file_name, FileTime, VirtualFileDescriptor,
};
use crate::clipboard::format_enum::FormatEtc;
use crate::clipboard::hresult::{
    HResult, DV_E_DVASPECT, DV_E_DVTARGETDEVICE, DV_E_FORMATETC, DV_E_LINDEX, DV_E_TYMED,
    E_INVALIDARG, E_NOTIMPL, E_UNEXPECTED, S_OK,
};
use crate::text;
use vstd::prelude::*;

verus! {

/// The content itself is wanted.
pub const DVASPECT_CONTENT: u32 = 1;

/// A medium of global memory.
pub const TYMED_HGLOBAL: u32 = 1;

/// A medium that is a stream.
pub const TYMED_ISTREAM: u32 = 4;

/// Formats that can be got are wanted.
pub const DATADIR_GET: u32 = 1;

/// The drop effect of a copy.
pub const DROPEFFECT_COPY: u32 = 1;

/// Name of the private format that tells which offer a file came from.
pub const ORIGIN_FORMAT_NAME: &'static str = "ClipFerry.SourceOffer.v1";

/// What the private format holds of a file that comes from no offer: `ClipFerry` and a zero.
pub const PROBE_ORIGIN: [u8; 10] = [0x43, 0x6c, 0x69, 0x70, 0x46, 0x65, 0x72, 0x72, 0x79, 0];

/// Attributes, size and a UTF-16 name are valid in a descriptor.
pub const FD_BASIC: u32 = 0x8000_0044;

/// The creation time is valid in a descriptor.
pub const FD_CREATETIME: u32 = 0x8;

/// The time of the last access is valid in a descriptor.
pub const FD_ACCESSTIME: u32 = 0x10;

/// The time of the last write is valid in a descriptor.
pub const FD_WRITESTIME: u32 = 0x20;

/// The numbers under which formats are registered.
#[derive(Clone, Copy, Debug, PartialEq, Eq, Structural)]
pub struct ClipboardFormats {
    pub descriptor: u16,
    pub contents: u16,
    pub preferred_effect: u16,
    pub origin: u16,
    pub performed_effect: u16,
    pub logical_performed_effect: u16,
    pub paste_succeeded: u16,
}

/// A format with the content aspect and no particular device.
pub open spec fn spec_format_etc(format: u16, index: i32, medium: u32) -> FormatEtc {
    FormatEtc { format, for_device: false, aspect: DVASPECT_CONTENT, index, media: medium }
}

/// A format with the content aspect and no particular device.
#[verifier::when_used_as_spec(spec_format_etc)]
pub fn format_etc(format: u16, index: i32, medium: u32) -> (etc: FormatEtc)
    ensures
        etc == spec_format_etc(format, index, medium),
{
    FormatEtc { format, for_device: false, aspect: DVASPECT_CONTENT, index, media: medium }
}

/// The number of a registered format; numbers of formats have 16 bits.
pub fn format_number(registered: u32) -> (result: Result<u16, HResult>)
    ensures
        result == if registered <= u16::MAX {
            Ok::<u16, HResult>(registered as u16)
        } else {
            Err(DV_E_FORMATETC)
        },
{
    if registered <= u16::MAX as u32 {
        Ok(registered as u16)
    } else {
        Err(DV_E_FORMATETC)
    }
}

impl ClipboardFormats {
    /// The formats that the object offers.
    pub open spec fn offered(self) -> Seq<FormatEtc> {
        seq![
            format_etc(self.descriptor, -1int as i32, TYMED_HGLOBAL),
            format_etc(self.contents, 0, TYMED_ISTREAM),
            format_etc(self.preferred_effect, -1int as i32, TYMED_HGLOBAL),
            format_etc(self.origin, -1int as i32, TYMED_HGLOBAL),
        ]
    }

    /// The formats that the object offers.
    pub fn enumerated(self) -> (formats: Vec<FormatEtc>)
        ensures
            formats@ == self.offered(),
    {
        let mut formats: Vec<FormatEtc> = Vec::new();
        formats.push(format_etc(self.descriptor, -1, TYMED_HGLOBAL));
        formats.push(format_etc(self.contents, 0, TYMED_ISTREAM));
        formats.push(format_etc(self.preferred_effect, -1, TYMED_HGLOBAL));
        formats.push(format_etc(self.origin, -1, TYMED_HGLOBAL));
        assert(formats@ =~= self.offered());
        formats
    }

    /// Whether the shell reports back in a format.
    pub open spec fn reports(self, format: u16) -> bool {
        ||| format == self.performed_effect
        ||| format == self.logical_performed_effect
        ||| format == self.paste_succeeded
    }

    /// Whether the shell reports back in a format.
    pub fn is_feedback(self, format: u16) -> (feedback: bool)
        ensures
            feedback == self.reports(format),
    {
        format == self.performed_effect || format == self.logical_performed_effect || format
            == self.paste_succeeded
    }

    /// Index and medium of what a format gives.
    pub open spec fn expected(self, format: u16) -> Option<(i32, u32)> {
        if format == self.descriptor || format == self.preferred_effect || format == self.origin {
            Some((-1int as i32, TYMED_HGLOBAL))
        } else if format == self.contents {
            Some((0i32, TYMED_ISTREAM))
        } else {
            None
        }
    }

    /// The code by which a request is answered: the first of its parts that does not fit.
    pub open spec fn verdict(self, etc: FormatEtc) -> HResult {
        if etc.for_device {
            DV_E_DVTARGETDEVICE
        } else if etc.aspect != DVASPECT_CONTENT {
            DV_E_DVASPECT
        } else {
            match self.expected(etc.format) {
                None => DV_E_FORMATETC,
                Some((index, medium)) => if etc.index != index {
                    DV_E_LINDEX
                } else if etc.media & medium == 0 {
                    DV_E_TYMED
                } else {
                    S_OK
                },
            }
        }
    }

    /// The code by which a request is answered.
    pub fn validate(self, etc: FormatEtc) -> (code: HResult)
        ensures
            code == self.verdict(etc),
    {
        if etc.for_device {
            return DV_E_DVTARGETDEVICE;
        }
        if etc.aspect != DVASPECT_CONTENT {
            return DV_E_DVASPECT;
        }
        let (index, medium): (i32, u32) = if etc.format == self.descriptor || etc.format
            == self.preferred_effect || etc.format == self.origin {
            (-1, TYMED_HGLOBAL)
        } else if etc.format == self.contents {
            (0, TYMED_ISTREAM)
        } else {
            return DV_E_FORMATETC;
        };
        if etc.index != index {
            return DV_E_LINDEX;
        }
        if etc.media & medium == 0 {
            return DV_E_TYMED;
        }
        S_OK
    }

    /// The code by which a report of the shell is refused; none where it is taken. The report
    /// arrives in a medium of the given kind, with so many bytes of memory where it has any.
    pub open spec fn report_verdict(
        self,
        etc: FormatEtc,
        medium: u32,
        memory: Option<usize>,
    ) -> HResult {
        if etc.for_device {
            DV_E_DVTARGETDEVICE
        } else if !self.reports(etc.format) {
            DV_E_FORMATETC
        } else if etc.aspect != DVASPECT_CONTENT {
            DV_E_DVASPECT
        } else if etc.index != -1 {
            DV_E_LINDEX
        } else if etc.media & TYMED_HGLOBAL == 0 || medium != TYMED_HGLOBAL || (match memory {
            None => true,
            Some(size) => size < 4,
        }) {
            DV_E_TYMED
        } else {
            S_OK
        }
    }

    /// Whether a report of the shell is taken.
    pub fn check_report(self, etc: FormatEtc, medium: u32, memory: Option<usize>) -> (code: HResult)
        ensures
            code == self.report_verdict(etc, medium, memory),
    {
        if etc.for_device {
            return DV_E_DVTARGETDEVICE;
        }
        if !self.is_feedback(etc.format) {
            return DV_E_FORMATETC;
        }
        if etc.aspect != DVASPECT_CONTENT {
            return DV_E_DVASPECT;
        }
        if etc.index != -1 {
            return DV_E_LINDEX;
        }
        if etc.media & TYMED_HGLOBAL == 0 {
            return DV_E_TYMED;
        }
        if medium != TYMED_HGLOBAL {
            return DV_E_TYMED;
        }
        match memory {
            None => DV_E_TYMED,
            Some(size) => if size < 4 {
                DV_E_TYMED
            } else {
                S_OK
            },
        }
    }
}

/// The fields of a file descriptor as the shell reads them.
#[derive(Debug)]
pub struct FileRecord {
    pub flags: u32,
    pub attributes: u32,
    pub size_high: u32,
    pub size_low: u32,
    pub creation_time: FileTime,
    pub last_access_time: FileTime,
    pub last_write_time: FileTime,
    pub name: [u16; 260],
}

/// A time, or zero where there is none.
pub open spec fn time_or_zero(time: Option<FileTime>) -> FileTime {
    match time {
        Some(time) => time,
        None => FileTime { low_date_time: 0, high_date_time: 0 },
    }
}

fn or_zero(time: Option<FileTime>) -> (result: FileTime)
    ensures
        result == time_or_zero(time),
{
    match time {
        Some(time) => time,
        None => FileTime { low_date_time: 0, high_date_time: 0 },
    }
}

/// The flags of a descriptor: a time is valid where it is known.
pub open spec fn record_flags(descriptor: VirtualFileDescriptor) -> int {
    FD_BASIC + (if descriptor.creation_time is Some {
        FD_CREATETIME as int
    } else {
        0
    }) + (if descriptor.last_access_time is Some {
        FD_ACCESSTIME as int
    } else {
        0
    }) + (if descriptor.last_write_time is Some {
        FD_WRITESTIME as int
    } else {
        0
    })
}

/// The fields of a file descriptor as the shell reads them.
pub fn file_record(descriptor: &VirtualFileDescriptor) -> (result: Result<FileRecord, HResult>)
    ensures
        match result {
            Err(code) => code == DV_E_FORMATETC && !data_object::valid_virtual_name(
                descriptor.file_name@,
            ),
            Ok(record) => {
                &&& data_object::valid_virtual_name(descriptor.file_name@)
                &&& record.flags == record_flags(*descriptor)
                &&& record.attributes == descriptor.attributes
                &&& record.size_high * 0x1_0000_0000 + record.size_low == descriptor.size
                &&& record.creation_time == time_or_zero(descriptor.creation_time)
                &&& record.last_access_time == time_or_zero(descriptor.last_access_time)
                &&& record.last_write_time == time_or_zero(descriptor.last_write_time)
                &&& ({
                    let units = text::utf16(descriptor.file_name@).push(0);
                    record.name@ == units + Seq::new((260 - units.len()) as nat, |k: int| 0u16)
                })
            },
        },
{
    let mut name: [u16; 260] = [0;260];
    match write_file_name(&mut name, descriptor.file_name.as_str()) {
        Err(code) => {
            return Err(code);
        },
        Ok(_) => {},
    }
    let ghost units = text::utf16(descriptor.file_name@).push(0);
    assert(name@ =~= units + Seq::new((260 - units.len()) as nat, |k: int| 0u16));
    let mut flags: u32 = FD_BASIC;
    if descriptor.creation_time.is_some() {
        flags += FD_CREATETIME;
    }
    if descriptor.last_access_time.is_some() {
        flags += FD_ACCESSTIME;
    }
    if descriptor.last_write_time.is_some() {
        flags += FD_WRITESTIME;
    }
    Ok(
        FileRecord {
            flags,
            attributes: descriptor.attributes,
            size_high: (descriptor.size / 0x1_0000_0000) as u32,
            size_low: (descriptor.size % 0x1_0000_0000) as u32,
            creation_time: or_zero(descriptor.creation_time),
            last_access_time: or_zero(descriptor.last_access_time),
            last_write_time: or_zero(descriptor.last_write_time),
            name,
        },
    )
}

/// A virtual file on the clipboard.
#[derive(Debug)]
pub struct VirtualFileDataObject {
    pub formats: ClipboardFormats,
    pub descriptor: VirtualFileDescriptor,
    pub origin_payload: Vec<u8>,
    pub async_mode: bool,
    pub in_operation: bool,
}

/// What a request for data is answered with.
#[derive(Debug)]
pub enum Medium {
    /// The fields of the file descriptor.
    Record { record: FileRecord },
    /// A stream over the content, at its start.
    Stream,
    /// Bytes.
    Bytes { bytes: Vec<u8> },
}

impl VirtualFileDataObject {
    /// An object for content of the given length under a name that a file can have, of which
    /// nothing else is known. It comes from no offer.
    pub fn create(formats: ClipboardFormats, file_name: String, source_length: u64) -> (result:
        Result<Self, HResult>)
        ensures
            match result {
                Err(code) => code == DV_E_FORMATETC && !data_object::valid_virtual_name(
                    file_name@,
                ),
                Ok(object) => {
                    &&& data_object::valid_virtual_name(file_name@)
                    &&& object.formats == formats
                    &&& object.descriptor@ == data_object::DescriptorView::basic(
                        file_name@,
                        source_length,
                    )
                    &&& object.origin_payload@ == PROBE_ORIGIN@
                    &&& !object.async_mode && !object.in_operation
                },
            },
    {
        let mut origin_payload: Vec<u8> = Vec::new();
        bytes::append(&mut origin_payload, &PROBE_ORIGIN);
        assert(origin_payload@ =~= PROBE_ORIGIN@);
        VirtualFileDataObject::create_with_descriptor(
            formats,
            VirtualFileDescriptor::basic(file_name, source_length),
            source_length,
            origin_payload,
        )
    }

    /// An object for content of the given length. The length must be the described one, the
    /// object must name its origin, and the name must be one that a file can have.
    pub fn create_with_descriptor(
        formats: ClipboardFormats,
        descriptor: VirtualFileDescriptor,
        source_length: u64,
        origin_payload: Vec<u8>,
    ) -> (result: Result<Self, HResult>)
        ensures
            match result {
                Err(code) => code == if descriptor.size != source_length || origin_payload@.len()
                    == 0 {
                    E_INVALIDARG
                } else {
                    DV_E_FORMATETC
                } && (descriptor.size != source_length || origin_payload@.len() == 0
                    || !data_object::valid_virtual_name(descriptor.file_name@)),
                Ok(object) => {
                    &&& descriptor.size == source_length && origin_payload@.len() > 0
                    &&& data_object::valid_virtual_name(descriptor.file_name@)
                    &&& object.formats == formats
                    &&& object.descriptor == descriptor
                    &&& object.origin_payload@ == origin_payload@
                    &&& !object.async_mode && !object.in_operation
                },
            },
    {
        if descriptor.size != source_length {
            return Err(E_INVALIDARG);
        }
        if origin_payload.len() == 0 {
            return Err(E_INVALIDARG);
        }
        match validate_virtual_file_name(descriptor.file_name.as_str()) {
            Err(code) => {
                return Err(code);
            },
            Ok(_) => {},
        }
        Ok(
            VirtualFileDataObject {
                formats,
                descriptor,
                origin_payload,
                async_mode: false,
                in_operation: false,
            },
        )
    }

    /// Answers a request for data. `source_length` is the length of the content that a stream
    /// would read.
    pub fn get_data(&self, etc: FormatEtc, source_length: u64) -> (result: Result<Medium, HResult>)
        ensures
            ({
                let verdict = self.formats.verdict(etc);
                match result {
                    Err(code) => if verdict != S_OK {
                        code == verdict
                    } else if etc.format == self.formats.descriptor {
                        code == DV_E_FORMATETC && !data_object::valid_virtual_name(
                            self.descriptor.file_name@,
                        )
                    } else {
                        code == E_UNEXPECTED && etc.format == self.formats.contents
                            && source_length != self.descriptor.size
                    },
                    Ok(medium) => verdict == S_OK && (match medium {
                        Medium::Record { record } => {
                            &&& etc.format == self.formats.descriptor
                            &&& record.flags == record_flags(self.descriptor)
                            &&& record.attributes == self.descriptor.attributes
                            &&& record.size_high * 0x1_0000_0000 + record.size_low
                                == self.descriptor.size
                            &&& record.creation_time == time_or_zero(self.descriptor.creation_time)
                            &&& record.last_access_time == time_or_zero(
                                self.descriptor.last_access_time,
                            )
                            &&& record.last_write_time == time_or_zero(
                                self.descriptor.last_write_time,
                            )
                            &&& ({
                                let units = text::utf16(self.descriptor.file_name@).push(0);
                                record.name@ == units + Seq::new(
                                    (260 - units.len()) as nat,
                                    |k: int| 0u16,
                                )
                            })
                        },
                        Medium::Stream => etc.format != self.formats.descriptor && etc.format
                            == self.formats.contents && source_length == self.descriptor.size,
                        Medium::Bytes { bytes } => {
                            &&& etc.format != self.formats.descriptor
                            &&& etc.format != self.formats.contents
                            &&& bytes@ == if etc.format == self.formats.preferred_effect {
                                seq![1u8, 0u8, 0u8, 0u8]
                            } else {
                                self.origin_payload@
                            }
                        },
                    }),
                }
            }),
    {
        let verdict = self.formats.validate(etc);
        if verdict != S_OK {
            return Err(verdict);
        }
        if etc.format == self.formats.descriptor {
            return match file_record(&self.descriptor) {
                Err(code) => Err(code),
                Ok(record) => Ok(Medium::Record { record }),
            };
        }
        if etc.format == self.formats.contents {
            if source_length != self.descriptor.size {
                return Err(E_UNEXPECTED);
            }
            return Ok(Medium::Stream);
        }
        let mut bytes: Vec<u8> = Vec::new();
        if etc.format == self.formats.preferred_effect {
            bytes.push(DROPEFFECT_COPY as u8);
            bytes.push(0);
            bytes.push(0);
            bytes.push(0);
            assert(bytes@ =~= seq![1u8, 0u8, 0u8, 0u8]);
        } else {
            bytes.extend_from_slice(self.origin_payload.as_slice());
            assert(bytes@ =~= self.origin_payload@);
        }
        Ok(Medium::Bytes { bytes })
    }

    /// The formats of one direction: only those that can be got are listed.
    pub fn formats_of(&self, direction: u32) -> (result: Result<Vec<FormatEtc>, HResult>)
        ensures
            match result {
                Ok(formats) => direction == DATADIR_GET && formats@ == self.formats.offered(),
                Err(code) => direction != DATADIR_GET && code == E_NOTIMPL,
            },
    {
        if direction != DATADIR_GET {
            return Err(E_NOTIMPL);
        }
        Ok(self.formats.enumerated())
    }

    /// Says whether the shell may read in the background.
    pub fn set_async_mode(&mut self, enabled: bool)
        ensures
            *final(self) == (VirtualFileDataObject { async_mode: enabled, ..*old(self) }),
    {
        self.async_mode = enabled;
    }

    /// Notes that the shell started to read in the background.
    pub fn start_operation(&mut self)
        ensures
            *final(self) == (VirtualFileDataObject { in_operation: true, ..*old(self) }),
    {
        self.in_operation = true;
    }

    /// Notes that the shell is done.
    pub fn end_operation(&mut self)
        ensures
            *final(self) == (VirtualFileDataObject { in_operation: false, ..*old(self) }),
    {
        self.in_operation = false;
    }
}

/// Every format that is listed can be got as it is listed, where the formats are registered
/// under different numbers.
pub proof fn lemma_listed_formats_are_valid(formats: ClipboardFormats, k: int)
    requires
        formats.contents != formats.descriptor,
        formats.contents != formats.preferred_effect,
        formats.contents != formats.origin,
        0 <= k < formats.offered().len(),
    ensures
        formats.verdict(formats.offered()[k]) == S_OK,
{
    assert(1u32 & 1u32 == 1) by (bit_vector);
    assert(4u32 & 4u32 == 4) by (bit_vector);
}

/// The flags of a record: bit 2 for attributes, 3 to 5 for the times, 6 for the size and 31 for names in
/// Unicode. Content is aspect 1, memory medium 1, a stream medium 4, and copying effect 1.
pub proof fn lemma_flags_of_records()
    ensures
        FD_BASIC == 4 + 64 + 0x8000_0000,
        FD_CREATETIME == 8 && FD_ACCESSTIME == 16 && FD_WRITESTIME == 32,
        DVASPECT_CONTENT == 1,
        TYMED_HGLOBAL == 1 && TYMED_ISTREAM == 4,
        DATADIR_GET == 1 && DROPEFFECT_COPY == 1,
{
}

} // verus!
