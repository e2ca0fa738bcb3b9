//! Decoded images and the identifiers under which they are kept.

use crate::ordered::Key;
use vstd::prelude::*;

verus! {

/// The identifier of a piece of content: a file on a home server, a bare id on the
/// server at hand, or an address elsewhere.
#[derive(Debug, Clone)]
pub enum FileId {
    Hmc(String),
    Id(String),
    External(String),
}

/// The identity of a [`FileId`]: its kind and its text.
pub enum FileIdView {
    Hmc(Seq<char>),
    Id(Seq<char>),
    External(Seq<char>),
}

impl View for FileId {
    type V = FileIdView;

    open spec fn view(&self) -> FileIdView {
        match self {
            FileId::Hmc(text) => FileIdView::Hmc(text@),
            FileId::Id(text) => FileIdView::Id(text@),
            FileId::External(text) => FileIdView::External(text@),
        }
    }
}

impl Key for FileId {
    fn same_key(&self, other: &Self) -> (same: bool) {
        match (self, other) {
            (FileId::Hmc(a), FileId::Hmc(b)) => *a == *b,
            (FileId::Id(a), FileId::Id(b)) => *a == *b,
            (FileId::External(a), FileId::External(b)) => *a == *b,
            _ => false,
        }
    }
}

/// A decoded image held in memory: the bytes of an encoded file, or raw pixels
/// with their dimensions.
#[derive(Debug, Clone)]
pub enum ImageHandle {
    Bytes(Vec<u8>),
    Pixels { width: u32, height: u32, pixels: Vec<u8> },
}

impl ImageHandle {
    /// The number of bytes that the image occupies.
    pub open spec fn size(&self) -> nat {
        match self {
            ImageHandle::Bytes(raw) => raw@.len(),
            ImageHandle::Pixels { pixels, .. } => pixels@.len(),
        }
    }
}

/// The number of bytes that `handle` occupies.
pub fn get_image_size_from_handle(handle: &ImageHandle) -> (size: usize)
    ensures
        size == handle.size(),
{
    match handle {
        ImageHandle::Bytes(raw) => raw.len(),
        ImageHandle::Pixels { pixels, .. } => pixels.len(),
    }
}

} // verus!
