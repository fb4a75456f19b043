//! The image that is shown in the notification area, picked out of an icon file.

use crate::bytes;
use crate::failure::Failure;
use vstd::prelude::*;

verus! {

/// Most images in an icon file.
pub const MAX_ICON_IMAGES: usize = 256;

/// The number of images that the head of an icon file tells.
pub open spec fn image_count(file: Seq<u8>) -> nat {
    bytes::le_value(bytes::slice_of(file, 4, 2))
}

/// The length of one side of an image; zero stands for 256.
pub open spec fn side(byte: u8) -> int {
    if byte == 0 {
        256
    } else {
        byte as int
    }
}

/// The area of an image.
pub open spec fn area(file: Seq<u8>, index: int) -> int {
    side(file[6 + 16 * index]) * side(file[7 + 16 * index])
}

/// Where the bytes of an image start.
pub open spec fn image_start(file: Seq<u8>, index: int) -> int {
    bytes::le_value(bytes::slice_of(file, 18 + 16 * index, 4)) as int
}

/// Where the bytes of an image end.
pub open spec fn image_end(file: Seq<u8>, index: int) -> int {
    image_start(file, index) + bytes::le_value(bytes::slice_of(file, 14 + 16 * index, 4))
}

/// The first of the largest among the first images of a file.
pub open spec fn largest(file: Seq<u8>, count: nat) -> int
    decreases count,
{
    if count <= 1 {
        0
    } else {
        let best = largest(file, (count - 1) as nat);
        if area(file, count - 1) > area(file, best) {
            count - 1
        } else {
            best
        }
    }
}

/// The largest image of an icon file, all of whose images must lie within it.
pub open spec fn icon_outcome(file: Seq<u8>) -> Result<Seq<u8>, Failure> {
    let count = image_count(file);
    let best = largest(file, count);
    if file.len() < 6 || file[0] != 0 || file[1] != 0 || file[2] != 1 || file[3] != 0 {
        Err(Failure::invalid("invalid ICO header"))
    } else if count == 0 || count > MAX_ICON_IMAGES || file.len() < 6 + 16 * count {
        Err(Failure::invalid("invalid ICO directory"))
    } else if exists|index: int| 0 <= index < count && #[trigger] image_end(file, index) > file.len() {
        Err(Failure::invalid("ICO image is out of bounds"))
    } else {
        Ok(file.subrange(image_start(file, best), image_end(file, best)))
    }
}

proof fn lemma_largest(file: Seq<u8>, count: nat)
    requires
        count > 0,
    ensures
        0 <= largest(file, count) < count,
        forall|index: int|
            0 <= index < count ==> #[trigger] area(file, index) <= area(
                file,
                largest(file, count),
            ),
    decreases count,
{
    if count > 1 {
        lemma_largest(file, (count - 1) as nat);
        let best = largest(file, (count - 1) as nat);
        assert(area(file, best) <= area(file, largest(file, count)));
    }
}

fn side_of(byte: u8) -> (length: u32)
    ensures
        length == side(byte),
        0 < length <= 256,
{
    if byte == 0 {
        256
    } else {
        byte as u32
    }
}

fn area_of(file: &[u8], index: usize) -> (result: u32)
    requires
        22 + 16 * index <= file@.len(),
    ensures
        result == area(file@, index as int),
{
    assert(22 + 16 * index <= file.len());
    let width: u32 = side_of(file[6 + 16 * index]);
    let height: u32 = side_of(file[7 + 16 * index]);
    assert(width * height <= 256 * 256) by (nonlinear_arith)
        requires
            width <= 256,
            height <= 256,
    ;
    width * height
}

/// The largest image of an icon file.
pub fn best_icon_image(file: &[u8]) -> (result: Result<&[u8], Failure>)
    ensures
        match icon_outcome(file@) {
            Ok(image) => result matches Ok(found) && found@ == image,
            Err(reason) => result matches Err(failure) && failure == reason,
        },
{
    if file.len() < 6 || file[0] != 0 || file[1] != 0 || file[2] != 1 || file[3] != 0 {
        return Err(Failure::invalid("invalid ICO header"));
    }
    proof {
        bytes::lemma_capacity_values();
    }
    let count: usize = bytes::get_le(file, 4, 2) as usize;
    if count == 0 || count > MAX_ICON_IMAGES || file.len() < 6 + 16 * count {
        return Err(Failure::invalid("invalid ICO directory"));
    }
    let mut index: usize = 0;
    let mut best: usize = 0;
    let mut best_start: u64 = 0;
    let mut best_end: u64 = 0;
    while index < count
        invariant
            index <= count,
            0 < count <= MAX_ICON_IMAGES,
            file@[0] == 0 && file@[1] == 0 && file@[2] == 1 && file@[3] == 0,
            6 + 16 * count <= file@.len(),
            file@.len() <= usize::MAX,
            count == image_count(file@),
            bytes::capacity(4) == 0x1_0000_0000,
            forall|k: int| 0 <= k < index ==> #[trigger] image_end(file@, k) <= file@.len(),
            index > 0 ==> best == largest(file@, index as nat) && best < index,
            index > 0 ==> best_start == image_start(file@, best as int) && best_end == image_end(
                file@,
                best as int,
            ),
        decreases count - index,
    {
        let size: u64 = bytes::get_le(file, 14 + 16 * index, 4);
        let start: u64 = bytes::get_le(file, 18 + 16 * index, 4);
        let end: u64 = start + size;
        if end > file.len() as u64 {
            proof {
                assert(image_end(file@, index as int) > file@.len());
            }
            return Err(Failure::invalid("ICO image is out of bounds"));
        }
        proof {
            if index > 0 {
                lemma_largest(file@, index as nat);
            }
        }
        if index == 0 || area_of(file, index) > area_of(file, best) {
            best = index;
            best_start = start;
            best_end = end;
        }
        index += 1;
    }
    assert(!(exists|k: int| 0 <= k < count && #[trigger] image_end(file@, k) > file@.len()));
    assert(image_end(file@, best as int) <= file@.len());
    assert(best_start <= best_end);
    Ok(&file[best_start as usize..best_end as usize])
}

/// The image that is picked is no smaller than any other in the file.
pub proof fn lemma_best_image_is_largest(file: Seq<u8>)
    requires
        icon_outcome(file) is Ok,
    ensures
        0 <= largest(file, image_count(file)) < image_count(file),
        forall|index: int|
            0 <= index < image_count(file) ==> #[trigger] area(file, index) <= area(
                file,
                largest(file, image_count(file)),
            ),
{
    lemma_largest(file, image_count(file));
}

/// An icon file is taken where it starts as one, tells of 1 to 256 images, and holds all of them in
/// full; what is given is one of them, and none has a larger area.
pub proof fn lemma_icons_that_are_taken(file: Seq<u8>)
    ensures
        ({
            let count = bytes::le_value(file.subrange(4, 6));
            icon_outcome(file) is Ok <==> {
                &&& file.len() >= 6 + 16 * count
                &&& file.len() >= 6
                &&& file[0] == 0 && file[1] == 0 && file[2] == 1 && file[3] == 0
                &&& 1 <= count <= 256
                &&& forall|index: int|
                    0 <= index < count ==> #[trigger] image_end(file, index) <= file.len()
            }
        }),
        icon_outcome(file) matches Ok(image) ==> exists|index: int|
            0 <= index < image_count(file) && image == #[trigger] file.subrange(
                image_start(file, index),
                image_end(file, index),
            ) && forall|other: int|
                0 <= other < image_count(file) ==> #[trigger] area(file, other) <= area(file, index),
{
    if icon_outcome(file) is Ok {
        lemma_best_image_is_largest(file);
        let best = largest(file, image_count(file));
        assert(icon_outcome(file)->Ok_0 == file.subrange(
            image_start(file, best),
            image_end(file, best),
        ));
    }
    if exists|index: int|
        0 <= index < image_count(file) && #[trigger] image_end(file, index) > file.len() {
        let index = choose|index: int|
            0 <= index < image_count(file) && #[trigger] image_end(file, index) > file.len();
        assert(image_end(file, index) > file.len());
    }
}

/// The sides of an image are one byte each, where zero stands for 256; its length and its place are
/// four bytes each, the lowest first.
pub proof fn lemma_images_in_files(file: Seq<u8>, index: int)
    ensures
        side(0) == 256,
        forall|byte: u8| byte > 0 ==> #[trigger] side(byte) == byte,
        area(file, index) == side(file[6 + 16 * index]) * side(file[6 + 16 * index + 1]),
        image_start(file, index) == bytes::le_value(
            file.subrange(6 + 16 * index + 12, 6 + 16 * index + 16),
        ),
        image_end(file, index) - image_start(file, index) == bytes::le_value(
            file.subrange(6 + 16 * index + 8, 6 + 16 * index + 12),
        ),
{
}

} // verus!
