//! The MZ header: its fields, how it is decoded and which byte ranges of the
//! executable it describes.

use crate::words::{le_word, le_words, read_u16_le};
use vstd::prelude::*;
use vstd::slice::slice_subrange;

verus! {

/// At the start of every mz header: the bytes "MZ" read as a little-endian word.
pub const MZ_HEADER_START: u16 = 0x5A4D;

/// An error in a header
#[derive(Copy, Clone, Debug, PartialEq, Eq, Structural)]
pub enum HeaderError {
    /// Does not follow the format of an mz 16 bit dos executable.
    NotMZ,
    /// Header could not be read from bytes (too few bytes)
    NoHeader,
    /// A region that the header describes does not lie inside the buffer.
    RegionOutOfBounds,
}

impl HeaderError {
    /// The text that describes each error.
    pub open spec fn message(self) -> Seq<char> {
        match self {
            HeaderError::NotMZ => "Not an MZ header."@,
            HeaderError::NoHeader => "No header could be read."@,
            HeaderError::RegionOutOfBounds => "A region lies outside the buffer."@,
        }
    }

    /// A short description of the error.
    pub fn to_str(&self) -> (text: &'static str)
        ensures
            text@ == self.message(),
    {
        match self {
            HeaderError::NotMZ => "Not an MZ header.",
            HeaderError::NoHeader => "No header could be read.",
            HeaderError::RegionOutOfBounds => "A region lies outside the buffer.",
        }
    }
}

/// A definition of a header in a 16 bit dos executable
#[derive(Debug)]
pub struct Header {
    pub signature: u16,
    pub extra_bytes: u16,
    pub pages: u16,
    pub reloc_items: u16,
    pub header_size: u16,
    pub min_alloc: u16,
    pub max_alloc: u16,
    pub init_ss: u16,
    pub init_sp: u16,
    pub checksum: u16,
    pub init_ip: u16,
    pub init_cs: u16,
    pub reloc_table: u16,
    pub overlay: u16,
}

impl Header {
    /// A header is well formed when it carries the MZ signature. Decoding
    /// returns only well-formed headers.
    pub open spec fn wf(&self) -> bool {
        self.signature == MZ_HEADER_START
    }

    /// The header whose fields are the fourteen words, in the order in which
    /// the format lays them out.
    pub open spec fn of_words(words: Seq<u16>) -> Header {
        Header {
            signature: words[0],
            extra_bytes: words[1],
            pages: words[2],
            reloc_items: words[3],
            header_size: words[4],
            min_alloc: words[5],
            max_alloc: words[6],
            init_ss: words[7],
            init_sp: words[8],
            checksum: words[9],
            init_ip: words[10],
            init_cs: words[11],
            reloc_table: words[12],
            overlay: words[13],
        }
    }

    /// What decoding fourteen words gives: the header made of them when the
    /// first is the MZ signature, `NotMZ` otherwise.
    pub open spec fn decode_words(words: Seq<u16>) -> Result<Header, HeaderError> {
        if words[0] == MZ_HEADER_START {
            Ok(Header::of_words(words))
        } else {
            Err(HeaderError::NotMZ)
        }
    }

    /// What decoding a byte buffer gives: `NoHeader` when it is too short to
    /// hold fourteen words, otherwise what its first fourteen little-endian
    /// words decode to. Bytes after the 28th play no part.
    pub open spec fn decode_bytes(bytes: Seq<u8>) -> Result<Header, HeaderError> {
        if bytes.len() < 28 {
            Err(HeaderError::NoHeader)
        } else {
            Header::decode_words(le_words(bytes))
        }
    }

    /// Read a header from 14 16-bit words
    pub fn from_words(words: [u16; 14]) -> (decoded: Result<Header, HeaderError>)
        ensures
            decoded == Header::decode_words(words@),
            words@[0] != MZ_HEADER_START ==> decoded == Err::<Header, HeaderError>(
                HeaderError::NotMZ,
            ),
            words@[0] == MZ_HEADER_START ==> decoded == Ok::<Header, HeaderError>(
                Header::of_words(words@),
            ),
            decoded matches Ok(header) ==> header.wf(),
    {
        if words[0] != MZ_HEADER_START {
            return Err(HeaderError::NotMZ);
        }
        let out = Header {
            signature: words[0],
            extra_bytes: words[1],
            pages: words[2],
            reloc_items: words[3],
            header_size: words[4],
            min_alloc: words[5],
            max_alloc: words[6],
            init_ss: words[7],
            init_sp: words[8],
            checksum: words[9],
            init_ip: words[10],
            init_cs: words[11],
            reloc_table: words[12],
            overlay: words[13],
        };
        Ok(out)
    }

    /// Read a header from bytes
    pub fn new(bytes: &[u8]) -> (decoded: Result<Header, HeaderError>)
        ensures
            decoded == Header::decode_bytes(bytes@),
            bytes@.len() < 28 ==> decoded == Err::<Header, HeaderError>(HeaderError::NoHeader),
            bytes@.len() >= 28 && le_word(bytes@[0], bytes@[1]) != MZ_HEADER_START ==> decoded
                == Err::<Header, HeaderError>(HeaderError::NotMZ),
            bytes@.len() >= 28 && le_word(bytes@[0], bytes@[1]) == MZ_HEADER_START ==> decoded
                == Ok::<Header, HeaderError>(Header::of_words(le_words(bytes@))),
            decoded matches Ok(header) ==> header.wf(),
    {
        let mut words: [u16; 14] = [0u16; 14];
        let mut i: usize = 0;
        while i < 14
            invariant
                i <= 14,
                2 * i <= bytes@.len(),
                forall|k: int|
                    0 <= k < i ==> #[trigger] words@[k] == le_word(
                        bytes@[2 * k],
                        bytes@[2 * k + 1],
                    ),
            decreases 14 - i,
        {
            if bytes.len() - 2 * i < 2 {
                return Err(HeaderError::NoHeader);
            }
            let chunk = slice_subrange(bytes, 2 * i, 2 * i + 2);
            words[i] = read_u16_le(chunk);
            i += 1;
        }
        assert(words@ =~= le_words(bytes@));
        Header::from_words(words)
    }

    /// Offset of the first byte after the header region, where the executable
    /// image begins: the header size in paragraphs of 16 bytes.
    pub open spec fn header_region_end(&self) -> int {
        self.header_size * 16
    }

    /// Whether the page count and the byte count of the last page fit
    /// together: a last page that is only partly used has to exist.
    pub open spec fn has_image_end(&self) -> bool {
        self.extra_bytes != 0 ==> self.pages >= 1
    }

    /// Offset of the first byte after the executable image, where the extra
    /// data begins: all pages of 512 bytes, less the unused rest of the last
    /// page when `extra_bytes` says that it is only partly used.
    pub open spec fn image_region_end(&self) -> int {
        if self.extra_bytes == 0 {
            self.pages * 512
        } else {
            self.pages * 512 - (512 - self.extra_bytes)
        }
    }

    /// Offset of the first relocation entry.
    pub open spec fn reloc_region_start(&self) -> int {
        self.reloc_table as int
    }

    /// Offset of the first byte after the relocation table, whose entries
    /// take 4 bytes each.
    pub open spec fn reloc_region_end(&self) -> int {
        self.reloc_table + self.reloc_items * 4
    }

    /// Get the start of the exe data
    #[inline]
    pub fn exe_data_start(&self) -> (offset: usize)
        ensures
            offset == self.header_size * 16,
            offset == self.header_region_end(),
    {
        (self.header_size as usize) * 16
    }

    /// Get the start of the extra data
    pub fn extra_data_start(&self) -> (offset: usize)
        requires
            self.has_image_end(),
        ensures
            offset == self.image_region_end(),
            self.extra_bytes == 0 ==> offset == self.pages * 512,
            self.extra_bytes != 0 ==> offset == self.pages * 512 - (512 - self.extra_bytes),
    {
        let mut extra_data_start: usize = (self.pages as usize) * 512;
        if self.extra_bytes != 0 {
            extra_data_start = extra_data_start + (self.extra_bytes as usize) - 512;
        }
        extra_data_start
    }

    /// Get the start of the relocation table
    #[inline]
    pub fn relocation_table_start(&self) -> (offset: usize)
        ensures
            offset == self.reloc_table,
            offset == self.reloc_region_start(),
    {
        self.reloc_table as usize
    }

    /// Get the end of the relocation table
    #[inline]
    pub fn relocation_table_end(&self) -> (offset: usize)
        ensures
            offset == self.reloc_table + self.reloc_items * 4,
            offset == self.reloc_region_end(),
    {
        // The *2 *2 comes from there being two
        // words in a relocation table entry
        // and two bytes in a word
        (self.reloc_table as usize) + (self.reloc_items as usize) * 2 * 2
    }

    /// Get the exe data as a slice
    pub fn exe_data<'a>(&self, bytes: &'a [u8]) -> (data: Result<&'a [u8], HeaderError>)
        ensures
            self.has_image_end() && self.header_region_end() <= self.image_region_end()
                <= bytes@.len() ==> (data matches Ok(slice) && slice@ == bytes@.subrange(
                self.header_region_end(),
                self.image_region_end(),
            )),
            !(self.has_image_end() && self.header_region_end() <= self.image_region_end()
                <= bytes@.len()) ==> data == Err::<&[u8], HeaderError>(
                HeaderError::RegionOutOfBounds,
            ),
    {
        if self.extra_bytes != 0 && self.pages == 0 {
            return Err(HeaderError::RegionOutOfBounds);
        }
        region(bytes, self.exe_data_start(), self.extra_data_start())
    }

    /// Get the extra data as a slice
    pub fn extra_data<'a>(&self, bytes: &'a [u8]) -> (data: Result<&'a [u8], HeaderError>)
        ensures
            self.has_image_end() && self.image_region_end() <= bytes@.len() ==> (
            data matches Ok(slice) && slice@ == bytes@.subrange(
                self.image_region_end(),
                bytes@.len() as int,
            )),
            !(self.has_image_end() && self.image_region_end() <= bytes@.len()) ==> data == Err::<
                &[u8],
                HeaderError,
            >(HeaderError::RegionOutOfBounds),
    {
        if self.extra_bytes != 0 && self.pages == 0 {
            return Err(HeaderError::RegionOutOfBounds);
        }
        region(bytes, self.extra_data_start(), bytes.len())
    }

    /// Get the header data
    pub fn header_data<'a>(&self, bytes: &'a [u8]) -> (data: Result<&'a [u8], HeaderError>)
        ensures
            self.header_region_end() <= bytes@.len() ==> (data matches Ok(slice) && slice@
                == bytes@.subrange(0, self.header_region_end())),
            self.header_region_end() > bytes@.len() ==> data == Err::<&[u8], HeaderError>(
                HeaderError::RegionOutOfBounds,
            ),
    {
        // A paragraph = 16 bytes
        region(bytes, 0, self.exe_data_start())
    }

    /// Get the relocation table data
    pub fn relocation_table_data<'a>(&self, bytes: &'a [u8]) -> (data: Result<
        &'a [u8],
        HeaderError,
    >)
        ensures
            self.reloc_region_end() <= bytes@.len() ==> (data matches Ok(slice) && slice@
                == bytes@.subrange(self.reloc_region_start(), self.reloc_region_end())),
            self.reloc_region_end() > bytes@.len() ==> data == Err::<&[u8], HeaderError>(
                HeaderError::RegionOutOfBounds,
            ),
    {
        region(bytes, self.relocation_table_start(), self.relocation_table_end())
    }
}

/// Decoding reads the first 28 bytes and nothing else: a buffer and its
/// first 28 bytes decode to the same header or error.
pub proof fn lemma_decode_ignores_tail(bytes: Seq<u8>)
    requires
        bytes.len() >= 28,
    ensures
        Header::decode_bytes(bytes) == Header::decode_bytes(bytes.subrange(0, 28)),
{
    assert(le_words(bytes) =~= le_words(bytes.subrange(0, 28)));
}

/// The header region, the executable image and the extra data lie one after
/// the other and together make up the whole buffer, whenever the header's
/// offsets are in order and inside the buffer.
pub proof fn lemma_regions_tile_buffer(header: Header, bytes: Seq<u8>)
    requires
        header.has_image_end(),
        header.header_region_end() <= header.image_region_end() <= bytes.len(),
    ensures
        bytes.subrange(0, header.header_region_end()) + bytes.subrange(
            header.header_region_end(),
            header.image_region_end(),
        ) + bytes.subrange(header.image_region_end(), bytes.len() as int) == bytes,
{
    assert(bytes.subrange(0, header.header_region_end()) + bytes.subrange(
        header.header_region_end(),
        header.image_region_end(),
    ) + bytes.subrange(header.image_region_end(), bytes.len() as int) =~= bytes);
}

/// The bytes of `bytes` from offset `start` up to, not including, offset
/// `end`, borrowed from the buffer: first the buffer is cut off at `end`, then
/// the leading `start` bytes are dropped. A range that does not lie inside
/// the buffer is refused.
fn region<'a>(bytes: &'a [u8], start: usize, end: usize) -> (data: Result<&'a [u8], HeaderError>)
    ensures
        start <= end <= bytes@.len() ==> (data matches Ok(slice) && slice@ == bytes@.subrange(
            start as int,
            end as int,
        )),
        !(start <= end <= bytes@.len()) ==> data == Err::<&[u8], HeaderError>(
            HeaderError::RegionOutOfBounds,
        ),
{
    if start > end || end > bytes.len() {
        return Err(HeaderError::RegionOutOfBounds);
    }
    let (head, _) = bytes.split_at(end);
    let (_, data) = head.split_at(start);
    assert(data@ =~= bytes@.subrange(start as int, end as int));
    Ok(data)
}

} // verus!
