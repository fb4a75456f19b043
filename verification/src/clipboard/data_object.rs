//! The virtual files that the clipboard offers: their names and descriptors.

use super::hresult::{HResult, DV_E_FORMATETC};
use crate::text;
use vstd::prelude::*;

verus! {

/// Attribute of a directory.
pub const FILE_ATTRIBUTE_DIRECTORY: u32 = 0x10;

/// Attribute of a file that has no other attribute.
pub const FILE_ATTRIBUTE_NORMAL: u32 = 0x80;

/// Most items of one virtual file tree.
pub const MAX_VIRTUAL_ITEMS: usize = 4096;

/// Room for a name in a file descriptor, in UTF-16 code units, with the closing zero.
pub const FILE_NAME_UNITS: usize = 260;

/// A point in time as the file system counts it, in two halves.
#[derive(Clone, Copy, Debug, PartialEq, Eq, Structural)]
pub struct FileTime {
    pub low_date_time: u32,
    pub high_date_time: u32,
}

impl FileTime {
    /// Both halves as one number.
    pub open spec fn spec_bits(self) -> u64 {
        (self.low_date_time + self.high_date_time * 0x1_0000_0000) as u64
    }

    pub fn bits(self) -> (bits: u64)
        ensures
            bits == self.spec_bits(),
            bits == self.low_date_time + self.high_date_time * 0x1_0000_0000,
    {
        self.low_date_time as u64 + self.high_date_time as u64 * 0x1_0000_0000
    }

    /// The time of which `bits` are both halves.
    pub open spec fn spec_from_bits(bits: u64) -> FileTime {
        FileTime {
            low_date_time: (bits % 0x1_0000_0000) as u32,
            high_date_time: (bits / 0x1_0000_0000) as u32,
        }
    }

    pub fn from_bits(bits: u64) -> (time: FileTime)
        ensures
            time == FileTime::spec_from_bits(bits),
            time.spec_bits() == bits,
    {
        FileTime {
            low_date_time: (bits % 0x1_0000_0000) as u32,
            high_date_time: (bits / 0x1_0000_0000) as u32,
        }
    }

    /// The halves of a time determine it, and the other way round.
    pub proof fn lemma_bits_round_trip(self)
        ensures
            FileTime::spec_from_bits(self.spec_bits()) == self,
    {
    }
}

/// What the clipboard tells of one virtual file or directory.
#[derive(Debug)]
pub struct VirtualFileDescriptor {
    pub file_name: String,
    pub size: u64,
    pub attributes: u32,
    pub creation_time: Option<FileTime>,
    pub last_access_time: Option<FileTime>,
    pub last_write_time: Option<FileTime>,
}

/// The contents of a descriptor.
#[verifier::ext_equal]
pub struct DescriptorView {
    pub name: Seq<char>,
    pub size: u64,
    pub attributes: u32,
    pub creation_time: Option<FileTime>,
    pub last_access_time: Option<FileTime>,
    pub last_write_time: Option<FileTime>,
}

impl DescriptorView {
    /// An ordinary file of which only the name and the size are known.
    pub open spec fn basic(name: Seq<char>, size: u64) -> DescriptorView {
        DescriptorView {
            name,
            size,
            attributes: FILE_ATTRIBUTE_NORMAL,
            creation_time: None,
            last_access_time: None,
            last_write_time: None,
        }
    }
}

impl View for VirtualFileDescriptor {
    type V = DescriptorView;

    open spec fn view(&self) -> DescriptorView {
        DescriptorView {
            name: self.file_name@,
            size: self.size,
            attributes: self.attributes,
            creation_time: self.creation_time,
            last_access_time: self.last_access_time,
            last_write_time: self.last_write_time,
        }
    }
}

/// The contents of descriptors.
pub open spec fn descriptor_views(descriptors: Seq<VirtualFileDescriptor>) -> Seq<DescriptorView> {
    descriptors.map_values(|descriptor: VirtualFileDescriptor| descriptor@)
}

/// Whether attributes are those of a directory.
pub open spec fn directory_attributes(attributes: u32) -> bool {
    attributes & FILE_ATTRIBUTE_DIRECTORY != 0
}

impl VirtualFileDescriptor {
    pub open spec fn spec_is_directory(&self) -> bool {
        directory_attributes(self.attributes)
    }

    /// The descriptor of an ordinary file of which only the name and the size are known.
    pub fn basic(file_name: String, size: u64) -> (descriptor: Self)
        ensures
            descriptor@ == DescriptorView::basic(file_name@, size),
            !descriptor.spec_is_directory(),
    {
        assert(0x80u32 & 0x10u32 == 0) by (bit_vector);
        VirtualFileDescriptor {
            file_name,
            size,
            attributes: FILE_ATTRIBUTE_NORMAL,
            creation_time: None,
            last_access_time: None,
            last_write_time: None,
        }
    }

    pub fn is_directory(&self) -> (directory: bool)
        ensures
            directory == self.spec_is_directory(),
    {
        self.attributes & FILE_ATTRIBUTE_DIRECTORY != 0
    }
}

impl Clone for VirtualFileDescriptor {
    fn clone(&self) -> (copy: Self)
        ensures
            copy == *self,
    {
        VirtualFileDescriptor {
            file_name: self.file_name.clone(),
            size: self.size,
            attributes: self.attributes,
            creation_time: self.creation_time,
            last_access_time: self.last_access_time,
            last_write_time: self.last_write_time,
        }
    }
}

/// Whether a file system refuses the character in a name.
pub open spec fn forbidden_in_name(character: char) -> bool {
    ||| character == '<'
    ||| character == '>'
    ||| character == ':'
    ||| character == '"'
    ||| character == '/'
    ||| character == '\\'
    ||| character == '|'
    ||| character == '?'
    ||| character == '*'
}

/// Whether a device goes by this name; the name is in upper case.
pub open spec fn device_name(name: Seq<char>) -> bool {
    ||| name == "CON"@
    ||| name == "PRN"@
    ||| name == "AUX"@
    ||| name == "NUL"@
    ||| name == "CLOCK$"@
    ||| name.len() == 4 && (name.take(3) == "COM"@ || name.take(3) == "LPT"@) && '1' <= name[3] <= '9'
}

/// Whether the part of the name before its first dot names a device, in any letter case.
pub open spec fn reserved_dos_name(name: Seq<char>) -> bool {
    device_name(text::ascii_uppercase(name.take(text::position(name, '.') as int)))
}

/// Whether a name is safe as one component of a path: not empty, free of separators, wildcards
/// and control codes, without a dot or a space at its end, and no device.
pub open spec fn valid_component(name: Seq<char>) -> bool {
    &&& name.len() > 0
    &&& forall|k: int| 0 <= k < name.len() ==> !forbidden_in_name(#[trigger] name[k])
    &&& name.last() != ' '
    &&& name.last() != '.'
    &&& !text::has_control(name)
    &&& !reserved_dos_name(name)
}

/// Whether a single virtual file may have this name: a safe component that fits a descriptor.
pub open spec fn valid_virtual_name(name: Seq<char>) -> bool {
    &&& valid_component(name)
    &&& text::utf16(name).len() < FILE_NAME_UNITS
}

/// Whether every component of a relative path is safe.
pub open spec fn valid_components(path: Seq<char>) -> bool
    decreases path.len(),
{
    let first = text::position(path, '\\') as int;
    &&& valid_component(path.take(first))
    &&& 0 <= first < path.len() ==> valid_components(path.skip(first + 1))
}

/// Whether an item of a virtual tree may have this relative path.
pub open spec fn valid_virtual_path(path: Seq<char>) -> bool {
    &&& valid_components(path)
    &&& text::utf16(path).len() < FILE_NAME_UNITS
}

/// A safe single name is a safe path of one component.
pub proof fn lemma_name_is_path(name: Seq<char>)
    requires
        valid_virtual_name(name),
    ensures
        valid_virtual_path(name),
{
    text::lemma_position_is(name, '\\', name.len() as int);
    assert(name.take(name.len() as int) =~= name);
}

/// The summed sizes of descriptors.
pub open spec fn total_size(descriptors: Seq<DescriptorView>) -> nat
    decreases descriptors.len(),
{
    if descriptors.len() == 0 {
        0
    } else {
        total_size(descriptors.drop_last()) + descriptors.last().size as nat
    }
}

pub proof fn lemma_total_size_grows(descriptors: Seq<DescriptorView>, count: int)
    requires
        0 <= count <= descriptors.len(),
    ensures
        total_size(descriptors.take(count)) <= total_size(descriptors),
    decreases descriptors.len() - count,
{
    if count < descriptors.len() {
        lemma_total_size_grows(descriptors, count + 1);
        assert(descriptors.take(count + 1).drop_last() =~= descriptors.take(count));
    } else {
        assert(descriptors.take(count) =~= descriptors);
    }
}

/// Whether descriptors make up a virtual tree: every path is safe, and the sizes have a sum.
pub open spec fn valid_tree(descriptors: Seq<DescriptorView>) -> bool {
    &&& forall|k: int|
        0 <= k < descriptors.len() ==> valid_virtual_path((#[trigger] descriptors[k]).name)
    &&& total_size(descriptors) <= u64::MAX
}

fn forbidden(character: char) -> (result: bool)
    ensures
        result == forbidden_in_name(character),
{
    character == '<' || character == '>' || character == ':' || character == '"' || character == '/'
        || character == '\\' || character == '|' || character == '?' || character == '*'
}

/// Whether the name, given in characters, is reserved for a device.
fn is_reserved_name(name: &[char]) -> (reserved: bool)
    ensures
        reserved == reserved_dos_name(name@),
{
    let stem_length: usize = text::find(name, '.');
    let ghost stem = name@.take(stem_length as int);
    let mut upper: Vec<char> = Vec::new();
    let mut index: usize = 0;
    while index < stem_length
        invariant
            index <= stem_length <= name@.len(),
            stem == name@.take(stem_length as int),
            upper@ =~= text::ascii_uppercase(stem.take(index as int)),
        decreases stem_length - index,
    {
        upper.push(text::to_ascii_upper(name[index]));
        index += 1;
        assert(stem.take(index as int) =~= stem.take(index - 1).push(name@[index - 1]));
    }
    assert(stem.take(index as int) =~= stem);
    let stem_name = upper.as_slice();
    if text::same_characters(stem_name, text::characters("CON").as_slice())
        || text::same_characters(stem_name, text::characters("PRN").as_slice())
        || text::same_characters(stem_name, text::characters("AUX").as_slice())
        || text::same_characters(stem_name, text::characters("NUL").as_slice())
        || text::same_characters(stem_name, text::characters("CLOCK$").as_slice()) {
        return true;
    }
    if stem_name.len() != 4 {
        return false;
    }
    let kind = &stem_name[0..3];
    assert(kind@ =~= stem_name@.take(3));
    let numbered = '1' <= stem_name[3] && stem_name[3] <= '9';
    numbered && (text::same_characters(kind, text::characters("COM").as_slice())
        || text::same_characters(kind, text::characters("LPT").as_slice()))
}

/// Whether a name is reserved for a device.
pub fn is_reserved_dos_name(name: &str) -> (reserved: bool)
    ensures
        reserved == reserved_dos_name(name@),
{
    is_reserved_name(text::characters(name).as_slice())
}

/// Whether the characters are safe as one component of a path.
fn is_valid_component(name: &[char]) -> (valid: bool)
    ensures
        valid == valid_component(name@),
{
    if name.len() == 0 {
        return false;
    }
    let last = name[name.len() - 1];
    if last == ' ' || last == '.' {
        return false;
    }
    let mut index: usize = 0;
    while index < name.len()
        invariant
            index <= name@.len(),
            forall|k: int| 0 <= k < index ==> !forbidden_in_name(#[trigger] name@[k]),
            forall|k: int| 0 <= k < index ==> !text::is_control(#[trigger] name@[k]),
        decreases name@.len() - index,
    {
        if forbidden(name[index]) {
            assert(forbidden_in_name(name@[index as int]));
            return false;
        }
        if text::control(name[index]) {
            assert(text::is_control(name@[index as int]));
            return false;
        }
        index += 1;
    }
    !is_reserved_name(name)
}

/// Accepts the names that a single virtual file may have.
pub fn validate_virtual_file_name(name: &str) -> (result: Result<(), HResult>)
    ensures
        result == if valid_virtual_name(name@) {
            Ok::<(), HResult>(())
        } else {
            Err(DV_E_FORMATETC)
        },
{
    if !is_valid_component(text::characters(name).as_slice()) {
        return Err(DV_E_FORMATETC);
    }
    let encoded = text::encode_utf16(name);
    if encoded.len() >= FILE_NAME_UNITS {
        return Err(DV_E_FORMATETC);
    }
    Ok(())
}

/// Whether every component of the relative path is safe.
fn has_valid_components(path: &[char]) -> (valid: bool)
    ensures
        valid == valid_components(path@),
    decreases path@.len(),
{
    let first: usize = text::find(path, '\\');
    let head = &path[0..first];
    assert(head@ =~= path@.take(first as int));
    if !is_valid_component(head) {
        return false;
    }
    if first == path.len() {
        return true;
    }
    let rest = &path[first + 1..path.len()];
    assert(rest@ =~= path@.skip(first + 1));
    has_valid_components(rest)
}

/// Accepts the descriptors that make up a virtual tree.
pub fn validate_virtual_descriptor_tree(descriptors: &[VirtualFileDescriptor]) -> (result: Result<
    (),
    HResult,
>)
    ensures
        result == if valid_tree(descriptor_views(descriptors@)) {
            Ok::<(), HResult>(())
        } else {
            Err(DV_E_FORMATETC)
        },
{
    let ghost views = descriptor_views(descriptors@);
    let mut index: usize = 0;
    let mut sum: u64 = 0;
    while index < descriptors.len()
        invariant
            index <= descriptors@.len(),
            views == descriptor_views(descriptors@),
            forall|k: int| 0 <= k < index ==> valid_virtual_path((#[trigger] views[k]).name),
            sum == total_size(views.take(index as int)),
        decreases descriptors@.len() - index,
    {
        let name = descriptors[index].file_name.as_str();
        assert(views[index as int].name == name@);
        if !has_valid_components(text::characters(name).as_slice()) || text::encode_utf16(
            name,
        ).len() >= FILE_NAME_UNITS {
            assert(!valid_virtual_path(views[index as int].name));
            return Err(DV_E_FORMATETC);
        }
        proof {
            assert(views.take(index + 1).drop_last() =~= views.take(index as int));
            lemma_total_size_grows(views, index + 1);
        }
        if descriptors[index].size > u64::MAX - sum {
            return Err(DV_E_FORMATETC);
        }
        sum = sum + descriptors[index].size;
        index += 1;
    }
    assert(views.take(index as int) =~= views);
    Ok(())
}

/// Writes a name into the name field of a file descriptor, with a closing zero.
pub fn write_file_name(destination: &mut [u16; 260], name: &str) -> (result: Result<(), HResult>)
    ensures
        !valid_virtual_name(name@) ==> result == Err::<(), HResult>(DV_E_FORMATETC)
            && *final(destination) == *old(destination),
        valid_virtual_name(name@) ==> {
            &&& result == Ok::<(), HResult>(())
            &&& final(destination)@ == text::utf16(name@).push(0) + old(destination)@.skip(
                text::utf16(name@).push(0).len() as int,
            )
        },
{
    match validate_virtual_file_name(name) {
        Err(code) => {
            return Err(code);
        },
        Ok(_) => {},
    }
    let encoded = text::encode_utf16(name);
    let mut index: usize = 0;
    while index < encoded.len()
        invariant
            index <= encoded@.len(),
            encoded@ == text::utf16(name@),
            encoded@.len() < 260,
            forall|k: int| 0 <= k < index ==> destination@[k] == encoded@[k],
            forall|k: int| index <= k < 260 ==> destination@[k] == old(destination)@[k],
        decreases encoded@.len() - index,
    {
        destination[index] = encoded[index];
        index += 1;
    }
    destination[index] = 0;
    assert(destination@ =~= encoded@.push(0) + old(destination)@.skip(
        encoded@.push(0).len() as int,
    ));
    Ok(())
}

/// Whether the first characters of a name spell a word of capital letters and signs, in either case.
pub open spec fn spells(name: Seq<char>, length: int, word: Seq<char>) -> bool {
    &&& length == word.len()
    &&& forall|k: int|
        0 <= k < word.len() ==> (#[trigger] name[k] == word[k] || ('A' <= word[k] <= 'Z' && name[k] as int
            == word[k] as int + 32))
}

/// A name is reserved exactly where what stands before its first dot is one of the names of devices,
/// in any case: CON, PRN, AUX, NUL, CLOCK$, COM1 to COM9 and LPT1 to LPT9.
pub proof fn lemma_reserved_names(name: Seq<char>, dot: int)
    requires
        0 <= dot <= name.len(),
        dot < name.len() ==> name[dot] == '.',
        forall|k: int| 0 <= k < dot ==> #[trigger] name[k] != '.',
    ensures
        reserved_dos_name(name) <==> {
            ||| spells(name, dot, seq!['C', 'O', 'N'])
            ||| spells(name, dot, seq!['P', 'R', 'N'])
            ||| spells(name, dot, seq!['A', 'U', 'X'])
            ||| spells(name, dot, seq!['N', 'U', 'L'])
            ||| spells(name, dot, seq!['C', 'L', 'O', 'C', 'K', '$'])
            ||| dot == 4 && '1' <= name[3] <= '9' && (spells(name, 3, seq!['C', 'O', 'M']) || spells(
                name,
                3,
                seq!['L', 'P', 'T'],
            ))
        },
{
    text::lemma_position_is(name, '.', dot);
    let stem = text::ascii_uppercase(name.take(dot));
    reveal_strlit("CON");
    reveal_strlit("PRN");
    reveal_strlit("AUX");
    reveal_strlit("NUL");
    reveal_strlit("CLOCK$");
    reveal_strlit("COM");
    reveal_strlit("LPT");
    lemma_spells(name, dot, "CON"@, seq!['C', 'O', 'N']);
    lemma_spells(name, dot, "PRN"@, seq!['P', 'R', 'N']);
    lemma_spells(name, dot, "AUX"@, seq!['A', 'U', 'X']);
    lemma_spells(name, dot, "NUL"@, seq!['N', 'U', 'L']);
    lemma_spells(name, dot, "CLOCK$"@, seq!['C', 'L', 'O', 'C', 'K', '$']);
    if dot == 4 {
        assert(stem.take(3) =~= text::ascii_uppercase(name.take(3)));
        lemma_spells(name, 3, "COM"@, seq!['C', 'O', 'M']);
        lemma_spells(name, 3, "LPT"@, seq!['L', 'P', 'T']);
        assert(stem[3] == text::ascii_upper(name[3]));
    }
}

proof fn lemma_spells(name: Seq<char>, length: int, word: Seq<char>, letters: Seq<char>)
    requires
        0 <= length <= name.len(),
        word =~= letters,
        forall|k: int| 0 <= k < letters.len() ==> '$' <= #[trigger] letters[k] <= 'Z',
    ensures
        (text::ascii_uppercase(name.take(length)) == word) <==> spells(name, length, letters),
{
    let upper = text::ascii_uppercase(name.take(length));
    if upper == word {
        assert forall|k: int| 0 <= k < letters.len() implies (#[trigger] name[k] == letters[k] || ('A'
            <= letters[k] <= 'Z' && name[k] as int == letters[k] as int + 32)) by {
            assert(upper[k] == text::ascii_upper(name[k]));
        }
    }
    if spells(name, length, letters) {
        assert forall|k: int| 0 <= k < letters.len() implies upper[k] == word[k] by {
            assert(upper[k] == text::ascii_upper(name[k]));
            assert(name[k] == letters[k] || ('A' <= letters[k] <= 'Z' && name[k] as int
                == letters[k] as int + 32));
        }
        assert(upper =~= word);
    }
}

/// Whether a character is neither one of nine signs nor a control code.
pub open spec fn ordinary(character: char) -> bool {
    let code = character as u32;
    &&& 32 <= code
    &&& code != 34 && code != 42 && code != 47
    &&& code != 58 && code != 60 && code != 62
    &&& code != 63 && code != 92 && code != 124
    &&& !(127 <= code < 160)
}

/// Whether a name is one that a file system takes: it holds something, all of its characters are
/// ordinary ones, and it ends neither in a dot nor in a space.
pub open spec fn plain(name: Seq<char>) -> bool {
    &&& name.len() > 0
    &&& forall|k: int| 0 <= k < name.len() ==> ordinary(#[trigger] name[k])
    &&& name.last() != '.'
    &&& name.last() != ' '
}

/// A single file may have any name that a file system takes, that is not reserved, and that is
/// shorter than 260 code units; every other name is refused.
pub proof fn lemma_names_of_files(name: Seq<char>)
    ensures
        valid_virtual_name(name) <==> plain(name) && !reserved_dos_name(name) && text::utf16(name).len()
            < 260,
{
    lemma_component(name);
}

/// A name that a file system takes is accepted wherever more than six characters stand before its
/// first dot, whatever they are.
pub proof fn lemma_long_names_are_accepted(name: Seq<char>)
    requires
        plain(name),
        name.len() > 6,
        forall|k: int| 0 <= k <= 6 ==> #[trigger] name[k] != '.',
        text::utf16(name).len() < 260,
    ensures
        valid_virtual_name(name),
{
    text::lemma_position(name, '.');
    let dot = text::position(name, '.') as int;
    if dot <= 6 {
        assert(name[dot] == '.');
    }
    lemma_reserved_names(name, dot);
    lemma_names_of_files(name);
}

/// A path is safe exactly where what stands before its first separator is a safe name, and what
/// stands behind it is a safe path.
pub proof fn lemma_paths_are_made_of_names(first: Seq<char>, rest: Seq<char>)
    requires
        forall|k: int| 0 <= k < first.len() ==> #[trigger] first[k] != '\\',
    ensures
        valid_components(first) <==> plain(first) && !reserved_dos_name(first),
        valid_components(first + seq!['\\'] + rest) <==> plain(first) && !reserved_dos_name(first)
            && valid_components(rest),
{
    lemma_component(first);
    text::lemma_position_is(first, '\\', first.len() as int);
    assert(first.take(first.len() as int) =~= first);
    let path = first + seq!['\\'] + rest;
    assert forall|k: int| 0 <= k < first.len() implies #[trigger] path[k] != '\\' by {
        assert(path[k] == first[k]);
    }
    text::lemma_position_is(path, '\\', first.len() as int);
    assert(path.take(first.len() as int) =~= first);
    assert(path.skip(first.len() as int + 1) =~= rest);
}

proof fn lemma_ordinary(character: char)
    ensures
        ordinary(character) == (!forbidden_in_name(character) && !text::is_control(character)),
{
    if ordinary(character) {
        assert(!text::is_control(character));
        assert(!forbidden_in_name(character));
    }
    if !forbidden_in_name(character) && !text::is_control(character) {
        assert(character as u32 != 34);
        assert(character as u32 != 92);
        assert(ordinary(character));
    }
}

proof fn lemma_component(name: Seq<char>)
    ensures
        valid_component(name) <==> plain(name) && !reserved_dos_name(name),
{
    assert forall|k: int| 0 <= k < name.len() implies #[trigger] ordinary(name[k]) == (
    !forbidden_in_name(name[k]) && !text::is_control(name[k])) by {
        lemma_ordinary(name[k]);
    }
    if plain(name) {
        assert forall|k: int| 0 <= k < name.len() implies !forbidden_in_name(#[trigger] name[k]) by {
            assert(ordinary(name[k]));
        }
        if text::has_control(name) {
            let k = choose|k: int| 0 <= k < name.len() && text::is_control(#[trigger] name[k]);
            assert(ordinary(name[k]));
        }
    }
    if valid_component(name) {
        assert forall|k: int| 0 <= k < name.len() implies ordinary(#[trigger] name[k]) by {
            assert(!forbidden_in_name(name[k]));
            assert(!text::is_control(name[k]));
        }
    }
}

/// A tree of files is accepted exactly where each of its paths is safe and shorter than 260 code
/// units and its sizes sum up to less than 2^64; one more file leaves it so where its own path is
/// safe and its size has room.
pub proof fn lemma_trees_grow(descriptors: Seq<DescriptorView>, more: DescriptorView)
    ensures
        valid_tree(Seq::empty()),
        valid_tree(descriptors.push(more)) <==> valid_tree(descriptors) && valid_components(more.name)
            && text::utf16(more.name).len() < 260 && total_size(descriptors) + more.size
            < 0x1_0000_0000_0000_0000,
        total_size(descriptors.push(more)) == total_size(descriptors) + more.size,
{
    let longer = descriptors.push(more);
    assert(longer.drop_last() =~= descriptors);
    if valid_tree(longer) {
        assert forall|k: int| 0 <= k < descriptors.len() implies valid_virtual_path(
            (#[trigger] descriptors[k]).name,
        ) by {
            assert(longer[k] == descriptors[k]);
        }
        assert(valid_virtual_path(longer[descriptors.len() as int].name));
    }
    if valid_tree(descriptors) && valid_virtual_path(more.name) {
        assert forall|k: int| 0 <= k < longer.len() implies valid_virtual_path(
            (#[trigger] longer[k]).name,
        ) by {
            if k < descriptors.len() {
                assert(longer[k] == descriptors[k]);
            }
        }
    }
}

/// A descriptor is that of a directory where the fifth bit of its attributes is set.
pub proof fn lemma_directories(descriptor: &VirtualFileDescriptor, directory: bool)
    requires
        call_ensures(VirtualFileDescriptor::is_directory, (descriptor,), directory),
    ensures
        directory <==> (descriptor.attributes / 16) % 2 == 1,
        directory == directory_attributes(descriptor.attributes),
{
    let attributes = descriptor.attributes;
    assert((attributes & 0x10 != 0) <==> (attributes / 16) % 2 == 1) by (bit_vector);
}

} // verus!
