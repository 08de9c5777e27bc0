//! Keys of the ledger's storage.

use vstd::prelude::*;
use vstd::string::StrSliceExecFns;

use crate::address::Address;
use crate::text::contains_char;

verus! {

/// What separates the segments of a key that is written out.
pub const KEY_SEGMENT_SEPARATOR: char = '/';

/// What marks an address in a key that is written out.
pub const RESERVED_ADDRESS_PREFIX: char = '#';

/// A segment of a key.
#[derive(Debug, PartialEq, Eq)]
pub enum DbKeySeg {
    /// An address.
    AddressSeg(Address),
    /// Any other text.
    StringSeg(String),
}

/// A key of the storage: a path of segments.
#[derive(Debug, PartialEq, Eq)]
pub struct Key {
    /// The segments, outermost first.
    pub segments: Vec<DbKeySeg>,
}

/// The text cannot be a segment of a key.
#[derive(Debug, PartialEq, Eq)]
pub struct InvalidKeySeg {
    /// The text.
    pub segment: String,
}

/// What a segment holds.
pub enum SegView {
    AddressSeg(Address),
    StringSeg(Seq<char>),
}

impl View for DbKeySeg {
    type V = SegView;

    open spec fn view(&self) -> SegView {
        match self {
            DbKeySeg::AddressSeg(address) => SegView::AddressSeg(*address),
            DbKeySeg::StringSeg(text) => SegView::StringSeg(text@),
        }
    }
}

impl View for Key {
    type V = Seq<SegView>;

    open spec fn view(&self) -> Seq<SegView> {
        self.segments@.map_values(|s: DbKeySeg| s@)
    }
}

/// Text that can be told from the rest of a key that is written out: it holds no
/// separator, and is not marked as an address.
pub open spec fn is_segment_text(text: Seq<char>) -> bool {
    &&& !text.contains(KEY_SEGMENT_SEPARATOR)
    &&& !(text.len() > 0 && text[0] == RESERVED_ADDRESS_PREFIX)
}

impl SegView {
    /// Whether the segment can be told from the rest of a key that is written out.
    pub open spec fn valid(self) -> bool {
        match self {
            SegView::AddressSeg(_) => true,
            SegView::StringSeg(text) => is_segment_text(text),
        }
    }
}

impl DbKeySeg {
    /// Whether the segment can be told from the rest of a key that is written out.
    pub fn is_valid(&self) -> (r: bool)
        ensures
            r == self@.valid(),
    {
        match self {
            DbKeySeg::AddressSeg(_) => true,
            DbKeySeg::StringSeg(text) => {
                let text = text.as_str();
                if contains_char(text, KEY_SEGMENT_SEPARATOR) {
                    return false;
                }
                text.unicode_len() == 0 || text.get_char(0) != RESERVED_ADDRESS_PREFIX
            },
        }
    }
}

impl Address {
    /// The segment of a key that the address is.
    pub fn to_db_key(&self) -> (r: DbKeySeg)
        ensures
            r@ == SegView::AddressSeg(*self),
    {
        DbKeySeg::AddressSeg(*self)
    }
}

impl Key {
    /// The key of one segment.
    pub fn from_segment(segment: DbKeySeg) -> (r: Key)
        ensures
            r@ == seq![segment@],
    {
        let mut segments: Vec<DbKeySeg> = Vec::new();
        segments.push(segment);
        let key = Key { segments };
        assert(key@ == seq![segment@]);
        key
    }

    /// The key with one more segment at its end. It is an error to push text that
    /// could not be told from the rest of the key.
    pub fn push(self, segment: DbKeySeg) -> (r: Result<Key, InvalidKeySeg>)
        ensures
            segment@.valid() ==> (r matches Ok(key) && key@ == self@.push(segment@)),
            !segment@.valid() ==> (r matches Err(error) && segment@ == SegView::StringSeg(
                error.segment@,
            )),
    {
        if !segment.is_valid() {
            if let DbKeySeg::StringSeg(text) = segment {
                return Err(InvalidKeySeg { segment: text });
            }
        }
        let mut segments = self.segments;
        segments.push(segment);
        let key = Key { segments };
        assert(key@ == self@.push(segment@));
        Ok(key)
    }
}

/// A key holds its segments, outermost first; a segment holds its address, or its text.
pub proof fn law_key_holds_segments(key: Key, address: Address, text: String)
    ensures
        key@.len() == key.segments@.len(),
        forall|i: int| 0 <= i < key.segments@.len() ==> #[trigger] key@[i] == key.segments@[i]@,
        DbKeySeg::AddressSeg(address)@ == SegView::AddressSeg(address),
        DbKeySeg::StringSeg(text)@ == SegView::StringSeg(text@),
{
}

/// Text with a separator anywhere in it is no segment, and neither is text that is marked
/// as an address. All other text is one, the empty text too, and so is every address.
pub proof fn law_segments(
    before: Seq<char>,
    after: Seq<char>,
    text: Seq<char>,
    address: Address,
)
    ensures
        !SegView::StringSeg(before.push('/') + after).valid(),
        !SegView::StringSeg(seq!['#'] + after).valid(),
        !text.contains('/') && (text.len() == 0 || text[0] != '#') ==> SegView::StringSeg(
            text,
        ).valid(),
        SegView::AddressSeg(address).valid(),
        forall|t: Seq<char>| #[trigger] is_segment_text(t) <==> SegView::StringSeg(t).valid(),
{
    assert((before.push('/') + after)[before.len() as int] == '/');
    assert((seq!['#'] + after)[0] == '#');
}

} // verus!
