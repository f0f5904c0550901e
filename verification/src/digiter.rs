//! Parsing of the label and image containers that a digit dataset is stored
//! in, and the paired iteration over both that feeds training.
//!
//! A labels container opens with a signature word, then the label count, then
//! one byte per label.  An images container opens with its own signature word,
//! then the image count, width and height, then `width * height` bytes per
//! image, row-major.  All header words are big-endian 32-bit integers.
//! Reading the containers from disk is the caller's business: these readers
//! take the container bytes whole.
use vstd::prelude::*;

verus! {

/// Signature word that a labels container must open with.
pub const LABELS_SIGNATURE: u32 = 2049;

/// Signature word that an images container must open with.
pub const IMAGES_SIGNATURE: u32 = 2051;

/// Why a dataset container was rejected.
#[derive(Clone, Copy, Debug, PartialEq, Eq, Structural)]
pub enum DatasetFormatError {
    /// The container does not open with the expected signature word.
    BadSignature,
    /// The container is shorter than its header and declared item count need.
    Truncated,
    /// The label count does not equal the image count.
    CountMismatch,
}

/// The big-endian 32-bit word spelled by four bytes.
pub open spec fn be_u32_spec(b0: u8, b1: u8, b2: u8, b3: u8) -> int {
    (b0 as int) * 0x1000000 + (b1 as int) * 0x10000 + (b2 as int) * 0x100 + (b3 as int)
}

/// Reads four bytes as one big-endian 32-bit word.
pub fn be_u32(b0: u8, b1: u8, b2: u8, b3: u8) -> (r: u32)
    ensures
        r == be_u32_spec(b0, b1, b2, b3),
{
    (b0 as u32) * 0x1000000 + (b1 as u32) * 0x10000 + (b2 as u32) * 0x100 + (b3 as u32)
}

/// The header word at byte offset `at` of a container.
pub open spec fn header_word(bytes: Seq<u8>, at: int) -> int {
    be_u32_spec(bytes[at], bytes[at + 1], bytes[at + 2], bytes[at + 3])
}

/// The label count a labels container declares.
pub open spec fn labels_count(bytes: Seq<u8>) -> int {
    header_word(bytes, 4)
}

/// A labels container is acceptable: signature, and every declared label present.
pub open spec fn labels_ok(bytes: Seq<u8>) -> bool {
    &&& bytes.len() >= 8
    &&& header_word(bytes, 0) == LABELS_SIGNATURE
    &&& bytes.len() >= 8 + labels_count(bytes)
}

/// The labels a container holds, in order.
pub open spec fn labels_of(bytes: Seq<u8>) -> Seq<u8> {
    bytes.subrange(8, 8 + labels_count(bytes))
}

/// The error a rejected labels container is reported with: a short or
/// truncated container is `Truncated`, a wrong signature `BadSignature`,
/// checked in the order the header is read.
pub open spec fn labels_error(bytes: Seq<u8>) -> DatasetFormatError {
    if bytes.len() < 4 {
        DatasetFormatError::Truncated
    } else if header_word(bytes, 0) != LABELS_SIGNATURE {
        DatasetFormatError::BadSignature
    } else {
        DatasetFormatError::Truncated
    }
}

/// Hands out the labels of one parsed labels container, first to last.
pub struct LabelsReader {
    amount: u32,
    index: u32,
    data: Vec<u8>,
}

impl LabelsReader {
    /// Every label in the container, in order.
    pub closed spec fn labels(&self) -> Seq<u8> {
        labels_of(self.data@)
    }

    /// How many labels have been handed out so far.
    pub closed spec fn position(&self) -> int {
        self.index as int
    }

    /// The parsed header agrees with the stored bytes.
    pub closed spec fn wf(&self) -> bool {
        &&& labels_ok(self.data@)
        &&& self.amount as int == labels_count(self.data@)
        &&& self.index <= self.amount
    }

    /// Parses a labels container: accepted exactly when `labels_ok` holds of
    /// the bytes, rejected with `labels_error` otherwise.
    pub fn create(data: Vec<u8>) -> (r: Result<Self, DatasetFormatError>)
        ensures
            r is Ok <==> labels_ok(data@),
            r matches Ok(reader) ==> {
                &&& reader.wf()
                &&& reader.labels() == labels_of(data@)
                &&& reader.position() == 0
            },
            r matches Err(e) ==> e == labels_error(data@),
    {
        if data.len() < 4 {
            return Err(DatasetFormatError::Truncated);
        }
        let magic = be_u32(data[0], data[1], data[2], data[3]);
        if magic != LABELS_SIGNATURE {
            return Err(DatasetFormatError::BadSignature);
        }
        if data.len() < 8 {
            return Err(DatasetFormatError::Truncated);
        }
        let amount = be_u32(data[4], data[5], data[6], data[7]);
        if data.len() - 8 < amount as usize {
            return Err(DatasetFormatError::Truncated);
        }
        Ok(LabelsReader { amount, index: 0, data })
    }

    /// The total number of labels in the container.
    pub fn len(&self) -> (r: usize)
        requires
            self.wf(),
        ensures
            r == self.labels().len(),
    {
        self.amount as usize
    }

    /// The next label, or `None` once every label has been handed out.
    pub fn next(&mut self) -> (r: Option<u8>)
        requires
            old(self).wf(),
        ensures
            final(self).wf(),
            final(self).labels() == old(self).labels(),
            old(self).position() < old(self).labels().len() ==> {
                &&& r == Some(old(self).labels()[old(self).position()])
                &&& final(self).position() == old(self).position() + 1
            },
            old(self).position() >= old(self).labels().len() ==> {
                &&& r is None
                &&& final(self).position() == old(self).position()
            },
    {
        if self.index < self.amount {
            let total = self.data.len();
            assert(8 + self.index as int <= total);
            let label = self.data[8 + self.index as usize];
            self.index = self.index + 1;
            Some(label)
        } else {
            None
        }
    }
}

/// The image count an images container declares.
pub open spec fn images_count(bytes: Seq<u8>) -> int {
    header_word(bytes, 4)
}

/// The image width an images container declares.
pub open spec fn images_width(bytes: Seq<u8>) -> int {
    header_word(bytes, 8)
}

/// The image height an images container declares.
pub open spec fn images_height(bytes: Seq<u8>) -> int {
    header_word(bytes, 12)
}

/// How many bytes one image of the container takes.
pub open spec fn image_len(bytes: Seq<u8>) -> int {
    images_width(bytes) * images_height(bytes)
}

/// An images container is acceptable: signature, and every declared image
/// present in full.
pub open spec fn images_ok(bytes: Seq<u8>) -> bool {
    &&& bytes.len() >= 16
    &&& header_word(bytes, 0) == IMAGES_SIGNATURE
    &&& bytes.len() >= 16 + images_count(bytes) * image_len(bytes)
}

/// The bytes of image `i` of the container, row-major.
pub open spec fn image_of(bytes: Seq<u8>, i: int) -> Seq<u8> {
    bytes.subrange(16 + i * image_len(bytes), 16 + (i + 1) * image_len(bytes))
}

/// Every image the container holds, in order.
pub open spec fn images_of(bytes: Seq<u8>) -> Seq<Seq<u8>> {
    Seq::new(images_count(bytes) as nat, |i: int| image_of(bytes, i))
}

/// The error a rejected images container is reported with, checked in the
/// order the header is read.
pub open spec fn images_error(bytes: Seq<u8>) -> DatasetFormatError {
    if bytes.len() < 4 {
        DatasetFormatError::Truncated
    } else if header_word(bytes, 0) != IMAGES_SIGNATURE {
        DatasetFormatError::BadSignature
    } else {
        DatasetFormatError::Truncated
    }
}

/// Hands out the images of one parsed images container, first to last.
pub struct ImagesReader {
    amount: u32,
    index: u32,
    width: u32,
    height: u32,
    data: Vec<u8>,
}

impl ImagesReader {
    /// Every image in the container, in order.
    pub closed spec fn images(&self) -> Seq<Seq<u8>> {
        images_of(self.data@)
    }

    /// How many images have been handed out so far.
    pub closed spec fn position(&self) -> int {
        self.index as int
    }

    /// The declared image width.
    pub closed spec fn image_width(&self) -> int {
        self.width as int
    }

    /// The declared image height.
    pub closed spec fn image_height(&self) -> int {
        self.height as int
    }

    /// The parsed header agrees with the stored bytes.
    pub closed spec fn wf(&self) -> bool {
        &&& images_ok(self.data@)
        &&& self.amount as int == images_count(self.data@)
        &&& self.width as int == images_width(self.data@)
        &&& self.height as int == images_height(self.data@)
        &&& self.index <= self.amount
    }

    /// Parses an images container: accepted exactly when `images_ok` holds of
    /// the bytes, rejected with `images_error` otherwise.
    pub fn create(data: Vec<u8>) -> (r: Result<Self, DatasetFormatError>)
        ensures
            r is Ok <==> images_ok(data@),
            r matches Ok(reader) ==> {
                &&& reader.wf()
                &&& reader.images() == images_of(data@)
                &&& reader.image_width() == images_width(data@)
                &&& reader.image_height() == images_height(data@)
                &&& reader.position() == 0
            },
            r matches Err(e) ==> e == images_error(data@),
    {
        if data.len() < 4 {
            return Err(DatasetFormatError::Truncated);
        }
        let magic = be_u32(data[0], data[1], data[2], data[3]);
        if magic != IMAGES_SIGNATURE {
            return Err(DatasetFormatError::BadSignature);
        }
        if data.len() < 16 {
            return Err(DatasetFormatError::Truncated);
        }
        let amount = be_u32(data[4], data[5], data[6], data[7]);
        let width = be_u32(data[8], data[9], data[10], data[11]);
        let height = be_u32(data[12], data[13], data[14], data[15]);
        proof {
            assert((amount as int) * (width as int) * (height as int)
                <= 0xFFFFFFFF * 0xFFFFFFFF * 0xFFFFFFFF) by (nonlinear_arith)
                requires
                    0 <= amount as int <= 0xFFFFFFFF,
                    0 <= width as int <= 0xFFFFFFFF,
                    0 <= height as int <= 0xFFFFFFFF,
            ;
            assert((amount as int) * (width as int) * (height as int) >= 0) by (nonlinear_arith)
                requires
                    0 <= amount as int,
                    0 <= width as int,
                    0 <= height as int,
            ;
            assert((amount as int) * (width as int) <= 0xFFFFFFFF * 0xFFFFFFFF)
                by (nonlinear_arith)
                requires
                    0 <= amount as int <= 0xFFFFFFFF,
                    0 <= width as int <= 0xFFFFFFFF,
            ;
            assert((amount as int) * ((width as int) * (height as int)) == (amount as int) * (
            width as int) * (height as int)) by (nonlinear_arith);
        }
        let needed: u128 = 16 + (amount as u128) * (width as u128) * (height as u128);
        if (data.len() as u128) < needed {
            return Err(DatasetFormatError::Truncated);
        }
        Ok(ImagesReader { amount, index: 0, width, height, data })
    }

    /// The total number of images in the container.
    pub fn len(&self) -> (r: usize)
        requires
            self.wf(),
        ensures
            r == self.images().len(),
    {
        self.amount as usize
    }

    /// The declared image width.
    pub fn width(&self) -> (r: u32)
        requires
            self.wf(),
        ensures
            r == self.image_width(),
    {
        self.width
    }

    /// The declared image height.
    pub fn height(&self) -> (r: u32)
        requires
            self.wf(),
        ensures
            r == self.image_height(),
    {
        self.height
    }

    /// The next image's bytes, or `None` once every image has been handed out.
    pub fn next(&mut self) -> (r: Option<Vec<u8>>)
        requires
            old(self).wf(),
        ensures
            final(self).wf(),
            final(self).images() == old(self).images(),
            final(self).image_width() == old(self).image_width(),
            final(self).image_height() == old(self).image_height(),
            old(self).position() < old(self).images().len() ==> {
                &&& r matches Some(image) && image@ == old(self).images()[old(self).position()]
                &&& final(self).position() == old(self).position() + 1
            },
            old(self).position() >= old(self).images().len() ==> {
                &&& r is None
                &&& final(self).position() == old(self).position()
            },
    {
        if self.index >= self.amount {
            return None;
        }
        let total = self.data.len();
        let ghost il = image_len(self.data@);
        proof {
            assert((self.width as int) * (self.height as int) <= 0xFFFFFFFF * 0xFFFFFFFF)
                by (nonlinear_arith)
                requires
                    0 <= self.width as int <= 0xFFFFFFFF,
                    0 <= self.height as int <= 0xFFFFFFFF,
            ;
            assert(il >= 0 && self.index * il >= 0 && (self.index + 1) * il <= self.amount * il)
                by (nonlinear_arith)
                requires
                    il == (self.width as int) * (self.height as int),
                    0 <= self.width as int,
                    0 <= self.height as int,
                    0 <= self.index as int,
                    self.index as int + 1 <= self.amount as int,
            ;
            assert(16 + self.amount * il <= total);
            assert(self.index * il + il == (self.index + 1) * il) by (nonlinear_arith);
        }
        let size = ((self.width as u64) * (self.height as u64)) as usize;
        let start = 16 + (self.index as usize) * size;
        let mut image: Vec<u8> = Vec::new();
        let mut j: usize = 0;
        while j < size
            invariant
                j <= size,
                size == image_len(self.data@),
                start == 16 + self.index * size,
                start + size <= total,
                total == self.data@.len(),
                image@ == self.data@.subrange(start as int, start + j),
            decreases size - j,
        {
            image.push(self.data[start + j]);
            proof {
                assert(self.data@.subrange(start as int, start + j + 1) =~= self.data@.subrange(
                    start as int,
                    start + j,
                ).push(self.data@[start + j]));
            }
            j = j + 1;
        }
        proof {
            assert(image@ =~= image_of(self.data@, self.index as int));
        }
        self.index = self.index + 1;
        Some(image)
    }
}

/// The error a rejected container pair is reported with: the labels
/// container's fault first, then the images container's, then the mismatch of
/// the two counts.
pub open spec fn digiter_error(labels_data: Seq<u8>, images_data: Seq<u8>) -> DatasetFormatError {
    if !labels_ok(labels_data) {
        labels_error(labels_data)
    } else if !images_ok(images_data) {
        images_error(images_data)
    } else {
        DatasetFormatError::CountMismatch
    }
}

/// Hands out (label, image) pairs from a labels container and an images
/// container of equal count, first to last.
pub struct Digiter {
    labels: LabelsReader,
    images: ImagesReader,
}

impl Digiter {
    /// Every label, in order.
    pub closed spec fn labels_list(&self) -> Seq<u8> {
        self.labels.labels()
    }

    /// Every image, in order.
    pub closed spec fn images_list(&self) -> Seq<Seq<u8>> {
        self.images.images()
    }

    /// How many pairs have been handed out so far.
    pub closed spec fn position(&self) -> int {
        self.labels.position()
    }

    /// The declared image width.
    pub closed spec fn image_width(&self) -> int {
        self.images.image_width()
    }

    /// The declared image height.
    pub closed spec fn image_height(&self) -> int {
        self.images.image_height()
    }

    /// Both containers are acceptable, agree on the count, and are read in
    /// lockstep.
    pub closed spec fn wf(&self) -> bool {
        &&& self.labels.wf()
        &&& self.images.wf()
        &&& self.labels.labels().len() == self.images.images().len()
        &&& self.labels.position() == self.images.position()
    }

    /// Parses a labels container and an images container as one dataset:
    /// accepted exactly when both are acceptable and declare the same count.
    pub fn create(labels_data: Vec<u8>, images_data: Vec<u8>) -> (r: Result<
        Self,
        DatasetFormatError,
    >)
        ensures
            r is Ok <==> {
                &&& labels_ok(labels_data@)
                &&& images_ok(images_data@)
                &&& labels_count(labels_data@) == images_count(images_data@)
            },
            r matches Ok(digiter) ==> {
                &&& digiter.wf()
                &&& digiter.labels_list() == labels_of(labels_data@)
                &&& digiter.images_list() == images_of(images_data@)
                &&& digiter.image_width() == images_width(images_data@)
                &&& digiter.image_height() == images_height(images_data@)
                &&& digiter.position() == 0
            },
            r matches Err(e) ==> e == digiter_error(labels_data@, images_data@),
    {
        let labels = match LabelsReader::create(labels_data) {
            Ok(labels) => labels,
            Err(e) => {
                return Err(e);
            },
        };
        let images = match ImagesReader::create(images_data) {
            Ok(images) => images,
            Err(e) => {
                return Err(e);
            },
        };
        if labels.len() != images.len() {
            return Err(DatasetFormatError::CountMismatch);
        }
        Ok(Digiter { labels, images })
    }

    /// The declared image width.
    pub fn width(&self) -> (r: u32)
        requires
            self.wf(),
        ensures
            r == self.image_width(),
    {
        self.images.width()
    }

    /// The declared image height.
    pub fn height(&self) -> (r: u32)
        requires
            self.wf(),
        ensures
            r == self.image_height(),
    {
        self.images.height()
    }

    /// The next (label, image) pair, or `None` once every pair has been
    /// handed out.
    pub fn next(&mut self) -> (r: Option<(u8, Vec<u8>)>)
        requires
            old(self).wf(),
        ensures
            final(self).wf(),
            final(self).labels_list() == old(self).labels_list(),
            final(self).images_list() == old(self).images_list(),
            final(self).image_width() == old(self).image_width(),
            final(self).image_height() == old(self).image_height(),
            old(self).position() < old(self).labels_list().len() ==> {
                &&& r matches Some(pair) && pair.0 == old(self).labels_list()[old(
                    self,
                ).position()] && pair.1@ == old(self).images_list()[old(self).position()]
                &&& final(self).position() == old(self).position() + 1
            },
            old(self).position() >= old(self).labels_list().len() ==> {
                &&& r is None
                &&& final(self).position() == old(self).position()
            },
    {
        match self.labels.next() {
            Some(label) => {
                match self.images.next() {
                    Some(image) => Some((label, image)),
                    None => {
                        assert(false);
                        None
                    },
                }
            },
            None => None,
        }
    }
}

} // verus!
