//! BER-TLV tags: identifiers, contents, and ordered lists of tags.

use crate::error::CardError;
use vstd::prelude::*;
use vstd::slice::slice_subrange;
use vstd::slice::slice_to_vec;
use vstd::utf8::decode_utf8;
use vstd::utf8::encode_utf8;
use vstd::utf8::valid_utf8;

verus! {

/// Identifier of a tag: the well-known ones by name, any other by its number.
#[derive(Debug, PartialEq, Eq, Structural, Copy, Clone)]
pub enum TagID {
    IssuerIdentificationNumber,
    ApplicationDedicatedFileName,
    ApplicationLabel,
    LanguagePreference,
    IssuerURL,
    InternationalBankAccountNumber,
    BankIdentifierCode,
    IssuerCountryCodeAlpha2,
    IssuerCountryCodeAlpha6,
    ApplicationTemplate,
    FileControlInformationTemplate,
    ReadRecordResponseMessageTemplate,
    DirectoryDiscretionaryTemplate,
    DedicatedFileName,
    CommandTemplate,
    ApplicationPriorityIndicator,
    ShortFileIdentifier,
    DirectoryDefinitionFileName,
    ApplicationIdentifier,
    IssuerCodeTableIndex,
    ApplicationPreferredName,
    ProcessingOptionsDataObjectList,
    LogEntry,
    FileControlInformationProprietaryTemplate,
    FileControlInformationIssuerDiscretionaryData,
    Unknown(u32),
}

/// The identifier that a number read from the wire stands for.
pub open spec fn tag_id_of(value: u32) -> TagID {
    if value == 0x42 {
        TagID::IssuerIdentificationNumber
    } else if value == 0x4f {
        TagID::ApplicationDedicatedFileName
    } else if value == 0x50 {
        TagID::ApplicationLabel
    } else if value == 0x5f2d {
        TagID::LanguagePreference
    } else if value == 0x5f50 {
        TagID::IssuerURL
    } else if value == 0x5f53 {
        TagID::InternationalBankAccountNumber
    } else if value == 0x5f54 {
        TagID::BankIdentifierCode
    } else if value == 0x5f55 {
        TagID::IssuerCountryCodeAlpha2
    } else if value == 0x5f56 {
        TagID::IssuerCountryCodeAlpha6
    } else if value == 0x61 {
        TagID::ApplicationTemplate
    } else if value == 0x6f {
        TagID::FileControlInformationTemplate
    } else if value == 0x70 {
        TagID::ReadRecordResponseMessageTemplate
    } else if value == 0x73 {
        TagID::DirectoryDiscretionaryTemplate
    } else if value == 0x84 {
        TagID::DedicatedFileName
    } else if value == 0x87 {
        TagID::ApplicationPriorityIndicator
    } else if value == 0x88 {
        TagID::ShortFileIdentifier
    } else if value == 0x9d {
        TagID::DirectoryDefinitionFileName
    } else if value == 0x9f06 {
        TagID::ApplicationIdentifier
    } else if value == 0x9f11 {
        TagID::IssuerCodeTableIndex
    } else if value == 0x9f12 {
        TagID::ApplicationPreferredName
    } else if value == 0x9f38 {
        TagID::ProcessingOptionsDataObjectList
    } else if value == 0x9f4d {
        TagID::LogEntry
    } else if value == 0xa5 {
        TagID::FileControlInformationProprietaryTemplate
    } else if value == 0xbf0c {
        TagID::FileControlInformationIssuerDiscretionaryData
    } else {
        TagID::Unknown(value)
    }
}

/// The number that an identifier is written as.
pub open spec fn tag_number(id: TagID) -> u32 {
    match id {
        TagID::IssuerIdentificationNumber => 0x42,
        TagID::ApplicationDedicatedFileName => 0x4f,
        TagID::ApplicationLabel => 0x50,
        TagID::LanguagePreference => 0x5f2d,
        TagID::IssuerURL => 0x5f50,
        TagID::InternationalBankAccountNumber => 0x5f53,
        TagID::BankIdentifierCode => 0x5f54,
        TagID::IssuerCountryCodeAlpha2 => 0x5f55,
        TagID::IssuerCountryCodeAlpha6 => 0x5f56,
        TagID::ApplicationTemplate => 0x61,
        TagID::FileControlInformationTemplate => 0x6f,
        TagID::ReadRecordResponseMessageTemplate => 0x70,
        TagID::DirectoryDiscretionaryTemplate => 0x73,
        TagID::DedicatedFileName => 0x84,
        TagID::CommandTemplate => 0x83,
        TagID::ApplicationPriorityIndicator => 0x87,
        TagID::ShortFileIdentifier => 0x88,
        TagID::DirectoryDefinitionFileName => 0x9d,
        TagID::ApplicationIdentifier => 0x9f06,
        TagID::IssuerCodeTableIndex => 0x9f11,
        TagID::ApplicationPreferredName => 0x9f12,
        TagID::ProcessingOptionsDataObjectList => 0x9f38,
        TagID::LogEntry => 0x9f4d,
        TagID::FileControlInformationProprietaryTemplate => 0xa5,
        TagID::FileControlInformationIssuerDiscretionaryData => 0xbf0c,
        TagID::Unknown(u) => u,
    }
}

impl From<u32> for TagID {
    fn from(value: u32) -> (id: TagID) {
        match value {
            0x42 => TagID::IssuerIdentificationNumber,
            0x4f => TagID::ApplicationDedicatedFileName,
            0x50 => TagID::ApplicationLabel,
            0x5f2d => TagID::LanguagePreference,
            0x5f50 => TagID::IssuerURL,
            0x5f53 => TagID::InternationalBankAccountNumber,
            0x5f54 => TagID::BankIdentifierCode,
            0x5f55 => TagID::IssuerCountryCodeAlpha2,
            0x5f56 => TagID::IssuerCountryCodeAlpha6,
            0x61 => TagID::ApplicationTemplate,
            0x6f => TagID::FileControlInformationTemplate,
            0x70 => TagID::ReadRecordResponseMessageTemplate,
            0x73 => TagID::DirectoryDiscretionaryTemplate,
            0x84 => TagID::DedicatedFileName,
            0x87 => TagID::ApplicationPriorityIndicator,
            0x88 => TagID::ShortFileIdentifier,
            0x9d => TagID::DirectoryDefinitionFileName,
            0x9f06 => TagID::ApplicationIdentifier,
            0x9f11 => TagID::IssuerCodeTableIndex,
            0x9f12 => TagID::ApplicationPreferredName,
            0x9f38 => TagID::ProcessingOptionsDataObjectList,
            0x9f4d => TagID::LogEntry,
            0xa5 => TagID::FileControlInformationProprietaryTemplate,
            0xbf0c => TagID::FileControlInformationIssuerDiscretionaryData,
            u => TagID::Unknown(u),
        }
    }
}

impl vstd::std_specs::convert::FromSpecImpl<u32> for TagID {
    open spec fn obeys_from_spec() -> bool {
        true
    }

    open spec fn from_spec(value: u32) -> TagID {
        tag_id_of(value)
    }
}

impl From<TagID> for u32 {
    fn from(value: TagID) -> (number: u32) {
        match value {
            TagID::IssuerIdentificationNumber => 0x42,
            TagID::ApplicationDedicatedFileName => 0x4f,
            TagID::ApplicationLabel => 0x50,
            TagID::LanguagePreference => 0x5f2d,
            TagID::IssuerURL => 0x5f50,
            TagID::InternationalBankAccountNumber => 0x5f53,
            TagID::BankIdentifierCode => 0x5f54,
            TagID::IssuerCountryCodeAlpha2 => 0x5f55,
            TagID::IssuerCountryCodeAlpha6 => 0x5f56,
            TagID::ApplicationTemplate => 0x61,
            TagID::FileControlInformationTemplate => 0x6f,
            TagID::ReadRecordResponseMessageTemplate => 0x70,
            TagID::DirectoryDiscretionaryTemplate => 0x73,
            TagID::DedicatedFileName => 0x84,
            TagID::CommandTemplate => 0x83,
            TagID::ApplicationPriorityIndicator => 0x87,
            TagID::ShortFileIdentifier => 0x88,
            TagID::DirectoryDefinitionFileName => 0x9d,
            TagID::ApplicationIdentifier => 0x9f06,
            TagID::IssuerCodeTableIndex => 0x9f11,
            TagID::ApplicationPreferredName => 0x9f12,
            TagID::ProcessingOptionsDataObjectList => 0x9f38,
            TagID::LogEntry => 0x9f4d,
            TagID::FileControlInformationProprietaryTemplate => 0xa5,
            TagID::FileControlInformationIssuerDiscretionaryData => 0xbf0c,
            TagID::Unknown(u) => u,
        }
    }
}

impl vstd::std_specs::convert::FromSpecImpl<TagID> for u32 {
    open spec fn obeys_from_spec() -> bool {
        true
    }

    open spec fn from_spec(value: TagID) -> u32 {
        tag_number(value)
    }
}

/// What a tag holds, as a mathematical value.
pub enum ContentsModel {
    Invalid,
    Text(Seq<char>),
    Bytes(Seq<u8>),
    Byte(u8),
    Number(u32),
    Nested(Seq<TagModel>),
}

/// A tag as a mathematical value: its identifier and what it holds.
pub struct TagModel {
    pub id: TagID,
    pub contents: ContentsModel,
}

/// What a tag holds.
#[derive(Debug, PartialEq)]
pub enum TagContents {
    Invalid,
    Text(String),
    Bytes(Vec<u8>),
    Byte(u8),
    Number(u32),
    Nested(TagList),
}

/// One tag: an identifier with its contents.
#[derive(Debug, PartialEq)]
pub struct Tag {
    id: TagID,
    contents: TagContents,
}

/// Tags in the order in which they stand on the wire.
#[derive(Debug, PartialEq)]
pub struct TagList {
    tags: Vec<Tag>,
}

impl View for TagContents {
    type V = ContentsModel;

    open spec fn view(&self) -> ContentsModel
        decreases self,
    {
        match self {
            TagContents::Invalid => ContentsModel::Invalid,
            TagContents::Text(s) => ContentsModel::Text(s@),
            TagContents::Bytes(b) => ContentsModel::Bytes(b@),
            TagContents::Byte(b) => ContentsModel::Byte(*b),
            TagContents::Number(n) => ContentsModel::Number(*n),
            TagContents::Nested(l) => ContentsModel::Nested(l@),
        }
    }
}

impl View for Tag {
    type V = TagModel;

    closed spec fn view(&self) -> TagModel
        decreases self,
    {
        TagModel { id: self.id, contents: self.contents@ }
    }
}

impl View for TagList {
    type V = Seq<TagModel>;

    closed spec fn view(&self) -> Seq<TagModel>
        decreases self,
    {
        Seq::new(
            self.tags@.len(),
            |i: int|
                if 0 <= i < self.tags@.len() {
                    self.tags@[i]@
                } else {
                    arbitrary()
                },
        )
    }
}


/// An accumulator of 32 bits after one more byte came in at the bottom: the
/// byte that was on top is lost.
pub open spec fn shift_in32(acc: u32, b: u8) -> u32 {
    ((acc % 0x100_0000) * 256 + b) as u32
}

/// An accumulator of 64 bits after one more byte came in at the bottom: the
/// byte that was on top is lost.
pub open spec fn shift_in64(acc: u64, b: u8) -> u64 {
    ((acc % 0x100_0000_0000_0000) * 256 + b) as u64
}

/// The continuation bytes of an identifier, read from `pos` on: every byte
/// goes into the accumulator, and the first one below `0x80` is the last.
/// Gives the identifier and the position behind it, or nothing where the
/// input ends first.
pub open spec fn id_continuation(s: Seq<u8>, pos: int, acc: u32) -> Option<(u32, int)>
    decreases s.len() - pos,
{
    if pos < 0 || pos >= s.len() {
        None
    } else if s[pos] >= 0x80 {
        id_continuation(s, pos + 1, shift_in32(acc, s[pos]))
    } else {
        Some((shift_in32(acc, s[pos]), pos + 1))
    }
}

/// The identifier that starts at `pos`, and the position behind it. A first
/// byte whose low five bits are all set announces continuation bytes.
pub open spec fn wire_id(s: Seq<u8>, pos: int) -> Option<(u32, int)> {
    if pos < 0 || pos >= s.len() {
        None
    } else if s[pos] % 32 == 31 {
        id_continuation(s, pos + 1, s[pos] as u32)
    } else {
        Some((s[pos] as u32, pos + 1))
    }
}

/// `count` length octets from `pos` on, accumulated big-endian.
pub open spec fn length_octets(s: Seq<u8>, pos: int, count: int, acc: u64) -> Option<(u64, int)>
    decreases count,
{
    if count <= 0 {
        Some((acc, pos))
    } else if pos < 0 || pos >= s.len() {
        None
    } else {
        length_octets(s, pos + 1, count - 1, shift_in64(acc, s[pos]))
    }
}

/// The length that starts at `pos`, and the position behind it: one byte
/// below `0x80` is the length itself, any other gives in its low seven bits
/// the number of octets that follow and hold the length.
pub open spec fn wire_length(s: Seq<u8>, pos: int) -> Option<(u64, int)> {
    if pos < 0 || pos >= s.len() {
        None
    } else if s[pos] < 0x80 {
        Some((s[pos] as u64, pos + 1))
    } else {
        length_octets(s, pos + 1, s[pos] - 0x80, 0)
    }
}

/// The most significant non-zero byte of an identifier: its first byte on
/// the wire.
pub open spec fn leading_byte(id: u32) -> u32
    decreases id,
{
    if id < 0x100 {
        id
    } else {
        leading_byte(id / 0x100)
    }
}

/// An identifier is primitive where bit `0x20` of its leading byte is clear,
/// and constructed where it is set.
pub open spec fn is_primitive(id: u32) -> bool {
    (leading_byte(id) / 0x20) % 2 == 0
}

/// The shortest big-endian form of a number: no leading zero byte, and one
/// byte for zero.
pub open spec fn least_bytes(value: u64) -> Seq<u8>
    decreases value,
{
    if value < 0x100 {
        seq![value as u8]
    } else {
        least_bytes(value / 0x100).push((value % 0x100) as u8)
    }
}

/// A length on the wire: itself up to 127, else `0x80` plus the number of
/// octets, then the octets.
pub open spec fn length_bytes(len: u64) -> Seq<u8> {
    if len <= 127 {
        seq![len as u8]
    } else {
        seq![(0x80 + least_bytes(len).len()) as u8] + least_bytes(len)
    }
}

/// The four big-endian bytes of a number.
pub open spec fn number_bytes(n: u32) -> Seq<u8> {
    seq![
        (n / 0x100_0000) as u8,
        (n / 0x1_0000 % 0x100) as u8,
        (n / 0x100 % 0x100) as u8,
        (n % 0x100) as u8,
    ]
}

/// Tags whose contents are text.
pub open spec fn is_text_tag(id: TagID) -> bool {
    id == TagID::LanguagePreference || id == TagID::ApplicationLabel
}

/// Tags whose contents are one byte.
pub open spec fn is_byte_tag(id: TagID) -> bool {
    id == TagID::ShortFileIdentifier || id == TagID::ApplicationPriorityIndicator || id
        == TagID::IssuerCodeTableIndex
}

/// What the content bytes of a primitive tag stand for. Text that is not
/// UTF-8, and a one-byte tag without a byte, are invalid.
pub open spec fn primitive_contents(bytes: Seq<u8>, id: TagID) -> ContentsModel {
    if is_text_tag(id) {
        if valid_utf8(bytes) {
            ContentsModel::Text(decode_utf8(bytes))
        } else {
            ContentsModel::Invalid
        }
    } else if is_byte_tag(id) {
        if bytes.len() > 0 {
            ContentsModel::Byte(bytes[0])
        } else {
            ContentsModel::Invalid
        }
    } else {
        ContentsModel::Bytes(bytes)
    }
}

/// The extent of the tag at the start of the input.
pub struct TagExtent {
    /// The identifier as a number.
    pub id: u32,
    /// Where the content starts.
    pub start: int,
    /// Where the content ends, which is where the next tag starts.
    pub end: int,
}

/// Identifier, length and content bounds of the first tag of `s`; nothing
/// where the input ends inside the tag.
pub open spec fn first_extent(s: Seq<u8>) -> Option<TagExtent> {
    match wire_id(s, 0) {
        None => None,
        Some((id, id_end)) => match wire_length(s, id_end) {
            None => None,
            Some((len, len_end)) => if len > s.len() - len_end {
                None
            } else {
                Some(TagExtent { id, start: len_end, end: len_end + len })
            },
        },
    }
}

/// An identifier takes at least one byte.
pub proof fn lemma_id_continuation_advances(s: Seq<u8>, pos: int, acc: u32)
    ensures
        match id_continuation(s, pos, acc) {
            Some((_, end)) => pos < end <= s.len(),
            None => true,
        },
    decreases s.len() - pos,
{
    if 0 <= pos < s.len() && s[pos] >= 0x80 {
        lemma_id_continuation_advances(s, pos + 1, shift_in32(acc, s[pos]));
    }
}

/// Length octets never move backwards nor beyond the input.
pub proof fn lemma_length_octets_advances(s: Seq<u8>, pos: int, count: int, acc: u64)
    requires
        0 <= pos <= s.len(),
    ensures
        match length_octets(s, pos, count, acc) {
            Some((_, end)) => pos <= end <= s.len(),
            None => true,
        },
    decreases count,
{
    if count > 0 && pos < s.len() {
        lemma_length_octets_advances(s, pos + 1, count - 1, shift_in64(acc, s[pos]));
    }
}

/// The content of the first tag lies inside the input, behind a header of
/// at least two bytes.
pub proof fn lemma_first_extent_bounds(s: Seq<u8>)
    ensures
        match first_extent(s) {
            Some(e) => 2 <= e.start <= e.end <= s.len(),
            None => true,
        },
{
    match wire_id(s, 0) {
        None => {},
        Some((id, id_end)) => {
            if s[0] % 32 == 31 {
                lemma_id_continuation_advances(s, 1, s[0] as u32);
            }
            if id_end < s.len() && s[id_end] >= 0x80 {
                lemma_length_octets_advances(s, id_end + 1, s[id_end] - 0x80, 0);
            }
        },
    }
}

/// The tags that a byte sequence holds, read from the front until the input
/// is used up; nothing where the input ends inside a tag, at any depth.
pub open spec fn decode_tags(s: Seq<u8>) -> Option<Seq<TagModel>>
    decreases s.len(),
    via decode_tags_decreases
{
    if s.len() == 0 {
        Some(Seq::empty())
    } else {
        match first_extent(s) {
            None => None,
            Some(e) => {
                let content = s.subrange(e.start, e.end);
                let contents = if is_primitive(e.id) {
                    Some(primitive_contents(content, tag_id_of(e.id)))
                } else {
                    match decode_tags(content) {
                        Some(inner) => Some(ContentsModel::Nested(inner)),
                        None => None,
                    }
                };
                match (contents, decode_tags(s.skip(e.end))) {
                    (Some(c), Some(rest)) => Some(
                        seq![TagModel { id: tag_id_of(e.id), contents: c }] + rest,
                    ),
                    _ => None,
                }
            },
        }
    }
}

#[via_fn]
proof fn decode_tags_decreases(s: Seq<u8>) {
    lemma_first_extent_bounds(s);
}

/// The bytes that a list of tags is written as.
pub open spec fn encode_tags(tags: Seq<TagModel>) -> Seq<u8>
    decreases tags,
{
    if tags.len() == 0 {
        Seq::empty()
    } else {
        encode_tag(tags[0]) + encode_tags(tags.subrange(1, tags.len() as int))
    }
}

/// The bytes that one tag is written as: identifier, length, content.
pub open spec fn encode_tag(tag: TagModel) -> Seq<u8>
    decreases tag,
{
    let data = contents_bytes(tag.contents);
    least_bytes(tag_number(tag.id) as u64) + length_bytes(data.len() as u64) + data
}

/// The content bytes of a tag.
pub open spec fn contents_bytes(contents: ContentsModel) -> Seq<u8>
    decreases contents,
{
    match contents {
        ContentsModel::Invalid => Seq::empty(),
        ContentsModel::Text(s) => encode_utf8(s),
        ContentsModel::Bytes(b) => b,
        ContentsModel::Byte(b) => seq![b],
        ContentsModel::Number(n) => number_bytes(n),
        ContentsModel::Nested(l) => encode_tags(l),
    }
}


/// The first tag of a list that has the identifier, if there is one.
pub open spec fn first_with_id(tags: Seq<TagModel>, id: TagID) -> Option<TagModel>
    decreases tags.len(),
{
    if tags.len() == 0 {
        None
    } else if tags[0].id == id {
        Some(tags[0])
    } else {
        first_with_id(tags.skip(1), id)
    }
}

/// The tags of a list that have the identifier, in their order.
pub open spec fn all_with_id(tags: Seq<TagModel>, id: TagID) -> Seq<TagModel>
    decreases tags.len(),
{
    if tags.len() == 0 {
        Seq::empty()
    } else if tags.last().id == id {
        all_with_id(tags.drop_last(), id).push(tags.last())
    } else {
        all_with_id(tags.drop_last(), id)
    }
}

/// The tags nested in a tag; none for a tag that is not constructed.
pub open spec fn children(tag: TagModel) -> Seq<TagModel> {
    match tag.contents {
        ContentsModel::Nested(l) => l,
        _ => Seq::empty(),
    }
}

/// The shortest form of a 64-bit number has one to eight bytes.
pub proof fn lemma_least_bytes_len(value: u64)
    ensures
        1 <= least_bytes(value).len() <= 8,
{
    reveal_with_fuel(least_bytes, 9);
}

/// `String::from_utf8` of std: the text that the bytes encode where they
/// are valid UTF-8, and nothing where they are not.
#[verifier::external_body]
fn text_from_utf8(bytes: Vec<u8>) -> (text: Option<String>)
    ensures
        match text {
            Some(s) => valid_utf8(bytes@) && s@ == decode_utf8(bytes@),
            None => !valid_utf8(bytes@),
        },
{
    String::from_utf8(bytes).ok()
}

/// Writes a number in its shortest big-endian form.
pub fn int_to_least_bytes(value: u64) -> (bytes: Vec<u8>)
    ensures
        bytes@ == least_bytes(value),
    decreases value,
{
    if value < 0x100 {
        vec![value as u8]
    } else {
        let mut bytes = int_to_least_bytes(value / 0x100);
        bytes.push((value % 0x100) as u8);
        bytes
    }
}

impl TagContents {
    /// Interprets the content bytes of a primitive tag by its identifier.
    pub fn make_primitive(bytes: &[u8], tag: &TagID) -> (contents: TagContents)
        ensures
            contents@ == primitive_contents(bytes@, *tag),
    {
        match tag {
            TagID::LanguagePreference | TagID::ApplicationLabel => {
                match text_from_utf8(slice_to_vec(bytes)) {
                    Some(s) => TagContents::Text(s),
                    None => TagContents::Invalid,
                }
            },
            TagID::ShortFileIdentifier
            | TagID::ApplicationPriorityIndicator
            | TagID::IssuerCodeTableIndex => {
                if bytes.len() > 0 {
                    TagContents::Byte(bytes[0])
                } else {
                    TagContents::Invalid
                }
            },
            _ => TagContents::Bytes(slice_to_vec(bytes)),
        }
    }

    /// The content bytes that these contents are written as.
    pub fn to_bytes(&self) -> (bytes: Vec<u8>)
        ensures
            bytes@ == contents_bytes(self@),
        decreases self,
    {
        match self {
            TagContents::Invalid => Vec::new(),
            TagContents::Text(s) => slice_to_vec(s.as_str().as_bytes()),
            TagContents::Bytes(b) => slice_to_vec(b.as_slice()),
            TagContents::Byte(b) => vec![*b],
            TagContents::Number(n) => {
                let n: u32 = *n;
                vec![
                    (n / 0x100_0000) as u8,
                    (n / 0x1_0000 % 0x100) as u8,
                    (n / 0x100 % 0x100) as u8,
                    (n % 0x100) as u8,
                ]
            },
            TagContents::Nested(l) => l.to_bytes(),
        }
    }
}

impl Tag {
    /// A tag with the given identifier and contents.
    pub fn new(id: TagID, contents: TagContents) -> (tag: Tag)
        ensures
            tag@ == (TagModel { id, contents: contents@ }),
    {
        Tag { id, contents }
    }

    /// The identifier.
    pub fn id(&self) -> (id: TagID)
        ensures
            id == self@.id,
    {
        self.id
    }

    /// The first nested tag with the identifier; none in a tag that is not
    /// constructed.
    pub fn get_tag(&self, tag_id: TagID) -> (found: Option<&Tag>)
        ensures
            match found {
                Some(t) => first_with_id(children(self@), tag_id) == Some(t@),
                None => first_with_id(children(self@), tag_id) is None,
            },
    {
        match &self.contents {
            TagContents::Nested(tl) => tl.get_tag(tag_id),
            _ => None,
        }
    }

    /// The nested tags with the identifier, in their order; none in a tag
    /// that is not constructed.
    pub fn get_tags(&self, tag_id: TagID) -> (found: Vec<&Tag>)
        ensures
            found@.len() == all_with_id(children(self@), tag_id).len(),
            forall|i: int|
                0 <= i < found@.len() ==> (#[trigger] found@[i])@ == all_with_id(
                    children(self@),
                    tag_id,
                )[i],
    {
        match &self.contents {
            TagContents::Nested(tl) => tl.get_tags(tag_id),
            _ => Vec::new(),
        }
    }

    /// What the tag holds.
    pub fn contents(&self) -> (contents: &TagContents)
        ensures
            contents@ == self@.contents,
    {
        &self.contents
    }
}

impl TagList {
    /// The empty list.
    pub fn new() -> (list: TagList)
        ensures
            list@ == Seq::<TagModel>::empty(),
    {
        let list = TagList { tags: Vec::new() };
        assert(list@ =~= Seq::<TagModel>::empty());
        list
    }

    /// Appends a tag.
    pub fn add_tag(&mut self, tag: Tag)
        ensures
            final(self)@ == old(self)@.push(tag@),
    {
        self.tags.push(tag);
        assert(self@ =~= old(self)@.push(tag@));
    }

    /// The first tag with the identifier.
    pub fn get_tag(&self, tag_id: TagID) -> (found: Option<&Tag>)
        ensures
            match found {
                Some(t) => first_with_id(self@, tag_id) == Some(t@),
                None => first_with_id(self@, tag_id) is None,
            },
    {
        let mut i: usize = 0;
        assert(self@.skip(0) =~= self@);
        while i < self.tags.len()
            invariant
                i <= self.tags@.len(),
                first_with_id(self@, tag_id) == first_with_id(self@.skip(i as int), tag_id),
            decreases self.tags@.len() - i,
        {
            let tag = &self.tags[i];
            assert(self@.skip(i as int)[0] == tag@);
            assert(self@.skip(i as int).skip(1) =~= self@.skip(i as int + 1));
            if tag.id == tag_id {
                return Some(tag);
            }
            i += 1;
        }
        None
    }

    /// The tags with the identifier, in their order.
    pub fn get_tags(&self, tag_id: TagID) -> (found: Vec<&Tag>)
        ensures
            found@.len() == all_with_id(self@, tag_id).len(),
            forall|i: int|
                0 <= i < found@.len() ==> (#[trigger] found@[i])@ == all_with_id(self@, tag_id)[i],
    {
        let mut tags: Vec<&Tag> = Vec::new();
        let mut i: usize = 0;
        while i < self.tags.len()
            invariant
                i <= self.tags@.len(),
                tags@.len() == all_with_id(self@.take(i as int), tag_id).len(),
                forall|k: int|
                    0 <= k < tags@.len() ==> (#[trigger] tags@[k])@ == all_with_id(
                        self@.take(i as int),
                        tag_id,
                    )[k],
            decreases self.tags@.len() - i,
        {
            let tag = &self.tags[i];
            assert(self@.take(i as int + 1).last() == tag@);
            assert(self@.take(i as int + 1).drop_last() =~= self@.take(i as int));
            if tag.id == tag_id {
                tags.push(tag);
            }
            i += 1;
        }
        assert(self@.take(i as int) =~= self@);
        tags
    }

    /// The byte at `pos` and the position behind it.
    pub fn read_byte(data: &[u8], pos: usize) -> (r: Result<(u8, usize), CardError>)
        ensures
            match r {
                Ok((b, next)) => pos < data@.len() && b == data@[pos as int] && next == pos + 1,
                Err(e) => pos >= data@.len() && e == CardError::Eof,
            },
    {
        if pos < data.len() {
            Ok((data[pos], pos + 1))
        } else {
            Err(CardError::Eof)
        }
    }

    /// Reads the identifier that starts at `pos`; gives it with the position
    /// behind it.
    pub fn read_id(data: &[u8], pos: usize) -> (r: Result<(u32, usize), CardError>)
        ensures
            match wire_id(data@, pos as int) {
                Some((id, end)) => r matches Ok((i, e)) && i == id && e == end,
                None => r matches Err(e) && e == CardError::Eof,
            },
    {
        let (first, mut at) = match Self::read_byte(data, pos) {
            Ok(x) => x,
            Err(e) => return Err(e),
        };
        let mut id: u32 = first as u32;
        if first % 32 == 31 {
            loop
                invariant
                    at <= data@.len(),
                    wire_id(data@, pos as int) == id_continuation(data@, at as int, id),
                decreases data@.len() - at,
            {
                let (next, behind) = match Self::read_byte(data, at) {
                    Ok(x) => x,
                    Err(e) => return Err(e),
                };
                id = (id % 0x100_0000) * 256 + (next as u32);
                at = behind;
                if next < 0x80 {
                    return Ok((id, at));
                }
            }
        }
        Ok((id, at))
    }

    /// Whether an identifier names a primitive tag.
    pub fn is_id_primitive(id: u32) -> (primitive: bool)
        ensures
            primitive == is_primitive(id),
    {
        let mut data: u32 = id;
        while data >= 0x100
            invariant
                leading_byte(data) == leading_byte(id),
            decreases data,
        {
            data = data / 0x100;
        }
        (data / 0x20) % 2 == 0
    }

    /// Reads the length that starts at `pos`; gives it with the position
    /// behind it.
    pub fn read_length(data: &[u8], pos: usize) -> (r: Result<(u64, usize), CardError>)
        ensures
            match wire_length(data@, pos as int) {
                Some((len, end)) => r matches Ok((l, e)) && l == len && e == end,
                None => r matches Err(e) && e == CardError::Eof,
            },
    {
        let (first, mut at) = match Self::read_byte(data, pos) {
            Ok(x) => x,
            Err(e) => return Err(e),
        };
        let mut length: u64 = first as u64;
        if first >= 0x80 {
            let mut num_octets: u8 = first - 0x80;
            length = 0;
            while num_octets > 0
                invariant
                    at <= data@.len(),
                    wire_length(data@, pos as int) == length_octets(
                        data@,
                        at as int,
                        num_octets as int,
                        length,
                    ),
                decreases num_octets,
            {
                let (octet, behind) = match Self::read_byte(data, at) {
                    Ok(x) => x,
                    Err(e) => return Err(e),
                };
                length = (length % 0x100_0000_0000_0000) * 256 + (octet as u64);
                at = behind;
                num_octets -= 1;
            }
        }
        Ok((length, at))
    }

    /// Writes a length.
    pub fn make_length(len: u64) -> (out: Vec<u8>)
        ensures
            out@ == length_bytes(len),
    {
        let mut out: Vec<u8> = Vec::new();
        if len <= 127 {
            out.push(len as u8);
        } else {
            let mut bytes = int_to_least_bytes(len);
            proof {
                lemma_least_bytes_len(len);
            }
            let num_octets: u8 = 0x80 + (bytes.len() as u8);
            out.push(num_octets);
            out.append(&mut bytes);
        }
        assert(out@ =~= length_bytes(len));
        out
    }

    /// Takes `length` content bytes from `pos` on; gives them with the
    /// position behind them. Where fewer are left, that is the end of input.
    pub fn read_content(data: &[u8], pos: usize, length: u64) -> (r: Result<
        (Vec<u8>, usize),
        CardError,
    >)
        ensures
            match r {
                Ok((content, end)) => pos + length <= data@.len() && content@ == data@.subrange(
                    pos as int,
                    pos + length,
                ) && end == pos + length,
                Err(e) => pos + length > data@.len() && e == CardError::Eof,
            },
    {
        if pos > data.len() || length > (data.len() - pos) as u64 {
            return Err(CardError::Eof);
        }
        let end: usize = pos + (length as usize);
        Ok((slice_to_vec(slice_subrange(data, pos, end)), end))
    }

    /// Decodes a byte sequence into the tags it holds. The whole input is
    /// read; constructed tags are decoded to any depth.
    pub fn try_from(value: &[u8]) -> (r: Result<TagList, CardError>)
        ensures
            match decode_tags(value@) {
                Some(tags) => r matches Ok(list) && list@ == tags,
                None => r matches Err(e) && e == CardError::Eof,
            },
        decreases value@.len(),
    {
        let mut out = TagList { tags: Vec::new() };
        let mut rest: &[u8] = value;
        assert(out@ =~= Seq::<TagModel>::empty());
        assert(out@ + decode_tags(value@).unwrap() =~= decode_tags(value@).unwrap());
        while rest.len() != 0
            invariant
                rest@.len() <= value@.len(),
                match decode_tags(rest@) {
                    Some(tail) => decode_tags(value@) == Some(out@ + tail),
                    None => decode_tags(value@) is None,
                },
            decreases rest@.len(),
        {
            proof {
                lemma_first_extent_bounds(rest@);
            }
            let (id, id_end) = match Self::read_id(rest, 0) {
                Ok(x) => x,
                Err(e) => return Err(e),
            };
            let tag_id = TagID::from(id);
            let (length, len_end) = match Self::read_length(rest, id_end) {
                Ok(x) => x,
                Err(e) => return Err(e),
            };
            let (contents, end) = match Self::read_content(rest, len_end, length) {
                Ok(x) => x,
                Err(e) => return Err(e),
            };
            let contents = if Self::is_id_primitive(id) {
                TagContents::make_primitive(contents.as_slice(), &tag_id)
            } else {
                match TagList::try_from(contents.as_slice()) {
                    Ok(list) => TagContents::Nested(list),
                    Err(e) => return Err(e),
                }
            };
            let tag = Tag { id: tag_id, contents };
            let ghost before = out@;
            out.tags.push(tag);
            let ghost whole = rest@;
            rest = slice_subrange(rest, end, rest.len());
            proof {
                assert(out@ =~= before.push(out.tags@.last()@));
                match decode_tags(rest@) {
                    Some(tail) => {
                        assert(decode_tags(whole) == Some(seq![out.tags@.last()@] + tail));
                        assert(out@ + tail =~= before + (seq![out.tags@.last()@] + tail));
                    },
                    None => {},
                }
            }
        }
        proof {
            assert(out@ + Seq::<TagModel>::empty() =~= out@);
        }
        Ok(out)
    }

    /// The bytes that the list is written as: each tag as its identifier in
    /// the shortest form, the length of its content, and the content.
    pub fn to_bytes(&self) -> (bytes: Vec<u8>)
        ensures
            bytes@ == encode_tags(self@),
        decreases self,
    {
        let mut out: Vec<u8> = Vec::new();
        let mut i: usize = 0;
        assert(self@.skip(0) =~= self@);
        while i < self.tags.len()
            invariant
                i <= self.tags@.len(),
                out@ + encode_tags(self@.skip(i as int)) == encode_tags(self@),
            decreases self.tags@.len() - i,
        {
            let tag = &self.tags[i];
            let mut data = tag.contents.to_bytes();
            let mut len = Self::make_length(data.len() as u64);
            let mut id = int_to_least_bytes(u32::from(tag.id) as u64);
            let ghost before = out@;
            out.append(&mut id);
            out.append(&mut len);
            out.append(&mut data);
            proof {
                let tail = self@.skip(i as int);
                assert(tail[0] == tag@);
                assert(tail.subrange(1, tail.len() as int) =~= self@.skip(i as int + 1));
                assert(out@ =~= before + encode_tag(tag@));
                assert(out@ + encode_tags(self@.skip(i as int + 1)) =~= before + encode_tags(tail));
            }
            i += 1;
        }
        assert(out@ + Seq::<u8>::empty() =~= out@);
        out
    }
}


/// One field of a data object list as a mathematical value.
pub struct DolFieldModel {
    pub id: TagID,
    pub contents: ContentsModel,
    pub exp_len: u8,
}

/// One field of a data object list: a tag, the number of bytes that its
/// value takes in a request, and the value, which is invalid until one is
/// assigned.
#[derive(Debug, PartialEq)]
pub struct DOLTag {
    id: TagID,
    contents: TagContents,
    exp_len: u8,
}

/// A data object list: the fields of a request, in their order.
#[derive(Debug, PartialEq)]
pub struct DOL {
    fields: Vec<DOLTag>,
}

impl View for DOLTag {
    type V = DolFieldModel;

    closed spec fn view(&self) -> DolFieldModel {
        DolFieldModel { id: self.id, contents: self.contents@, exp_len: self.exp_len }
    }
}

impl View for DOL {
    type V = Seq<DolFieldModel>;

    closed spec fn view(&self) -> Seq<DolFieldModel> {
        self.fields@.map_values(|f: DOLTag| f@)
    }
}

/// `n` zero bytes.
pub open spec fn zeros(n: int) -> Seq<u8> {
    Seq::new(n as nat, |i: int| 0u8)
}

/// A value fitted to a field of `exp_len` bytes. A short value is filled
/// with zero bytes, in front where it is numeric and behind where it is
/// not; of a long value the last bytes stay where it is numeric and the
/// first where it is not.
pub open spec fn fit(value: Seq<u8>, exp_len: int, numeric: bool) -> Seq<u8> {
    if value.len() == exp_len {
        value
    } else if value.len() < exp_len {
        if numeric {
            zeros(exp_len - value.len()) + value
        } else {
            value + zeros(exp_len - value.len())
        }
    } else {
        if numeric {
            value.skip(value.len() - exp_len)
        } else {
            value.take(exp_len)
        }
    }
}

/// The bytes of one field in a request. A field without a value, or with
/// nested tags for one, is all zero; only a number counts as numeric.
pub open spec fn field_bytes(field: DolFieldModel) -> Seq<u8> {
    match field.contents {
        ContentsModel::Invalid => zeros(field.exp_len as int),
        ContentsModel::Nested(_) => zeros(field.exp_len as int),
        ContentsModel::Text(s) => fit(encode_utf8(s), field.exp_len as int, false),
        ContentsModel::Bytes(b) => fit(b, field.exp_len as int, false),
        ContentsModel::Byte(b) => fit(seq![b], field.exp_len as int, false),
        ContentsModel::Number(n) => fit(number_bytes(n), field.exp_len as int, true),
    }
}

/// The request that a data object list with its values is written as: the
/// fields one behind the other, each in its own width.
pub open spec fn encode_dol(fields: Seq<DolFieldModel>) -> Seq<u8>
    decreases fields.len(),
{
    if fields.len() == 0 {
        Seq::empty()
    } else {
        field_bytes(fields[0]) + encode_dol(fields.skip(1))
    }
}

/// The fields that a byte sequence describes: pairs of an identifier and a
/// one-byte length, read until the input is used up. No pair is followed by
/// content. Nothing where the input ends inside a pair.
pub open spec fn decode_dol(s: Seq<u8>) -> Option<Seq<DolFieldModel>>
    decreases s.len(),
    via decode_dol_decreases
{
    if s.len() == 0 {
        Some(Seq::empty())
    } else {
        match wire_id(s, 0) {
            None => None,
            Some((id, id_end)) => if id_end >= s.len() {
                None
            } else {
                match decode_dol(s.skip(id_end + 1)) {
                    None => None,
                    Some(rest) => Some(
                        seq![
                            DolFieldModel {
                                id: tag_id_of(id),
                                contents: ContentsModel::Invalid,
                                exp_len: s[id_end],
                            },
                        ] + rest,
                    ),
                }
            },
        }
    }
}

/// An identifier at the start of the input ends behind its first byte.
pub proof fn lemma_wire_id_advances(s: Seq<u8>)
    ensures
        match wire_id(s, 0) {
            Some((_, end)) => 1 <= end <= s.len(),
            None => true,
        },
{
    if s.len() > 0 && s[0] % 32 == 31 {
        lemma_id_continuation_advances(s, 1, s[0] as u32);
    }
}

#[via_fn]
proof fn decode_dol_decreases(s: Seq<u8>) {
    lemma_wire_id_advances(s);
}

impl DOLTag {
    /// A field with a value assigned.
    pub fn new(id: TagID, contents: TagContents, exp_len: u8) -> (field: DOLTag)
        ensures
            field@ == (DolFieldModel { id, contents: contents@, exp_len }),
    {
        DOLTag { id, contents, exp_len }
    }

    /// The tag that the field asks for.
    pub fn id(&self) -> (id: TagID)
        ensures
            id == self@.id,
    {
        self.id
    }

    /// The value of the field.
    pub fn contents(&self) -> (contents: &TagContents)
        ensures
            contents@ == self@.contents,
    {
        &self.contents
    }

    /// The number of bytes that the field takes in a request.
    pub fn exp_len(&self) -> (exp_len: u8)
        ensures
            exp_len == self@.exp_len,
    {
        self.exp_len
    }
}

impl DOL {
    /// The list without fields.
    pub fn new() -> (dol: DOL)
        ensures
            dol@ == Seq::<DolFieldModel>::empty(),
    {
        let dol = DOL { fields: Vec::new() };
        assert(dol@ =~= Seq::<DolFieldModel>::empty());
        dol
    }

    /// Appends a field.
    pub fn add_field(&mut self, field: DOLTag)
        ensures
            final(self)@ == old(self)@.push(field@),
    {
        self.fields.push(field);
        assert(self@ =~= old(self)@.push(field@));
    }

    /// The number of fields.
    pub fn len(&self) -> (n: usize)
        ensures
            n == self@.len(),
    {
        self.fields.len()
    }

    /// Assigns a value to the field at `index`.
    pub fn set_value(&mut self, index: usize, contents: TagContents)
        requires
            index < old(self)@.len(),
        ensures
            final(self)@ == old(self)@.update(
                index as int,
                DolFieldModel { contents: contents@, ..old(self)@[index as int] },
            ),
    {
        let field = DOLTag {
            id: self.fields[index].id,
            contents,
            exp_len: self.fields[index].exp_len,
        };
        self.fields.set(index, field);
        assert(self@ =~= old(self)@.update(
            index as int,
            DolFieldModel { contents: contents@, ..old(self)@[index as int] },
        ));
    }

    /// The field at `index`.
    pub fn field(&self, index: usize) -> (field: &DOLTag)
        requires
            index < self@.len(),
        ensures
            field@ == self@[index as int],
    {
        &self.fields[index]
    }

    /// Fits a value to a field of `exp_len` bytes.
    pub fn fit_bytes(value: &[u8], exp_len: u8, numeric: bool) -> (out: Vec<u8>)
        ensures
            out@ == fit(value@, exp_len as int, numeric),
    {
        let width: usize = exp_len as usize;
        let len: usize = value.len();
        let mut out: Vec<u8> = Vec::new();
        if len == width {
            out = slice_to_vec(value);
        } else if len < width {
            let mut data = slice_to_vec(value);
            let mut fill = Self::zero_bytes(width - len);
            if numeric {
                out.append(&mut fill);
                out.append(&mut data);
            } else {
                out.append(&mut data);
                out.append(&mut fill);
            }
        } else {
            if numeric {
                out = slice_to_vec(slice_subrange(value, len - width, len));
            } else {
                out = slice_to_vec(slice_subrange(value, 0, width));
            }
        }
        assert(out@ =~= fit(value@, exp_len as int, numeric));
        out
    }

    /// `n` zero bytes.
    pub fn zero_bytes(n: usize) -> (out: Vec<u8>)
        ensures
            out@ == zeros(n as int),
    {
        let mut out: Vec<u8> = Vec::new();
        while out.len() < n
            invariant
                out@.len() <= n,
                forall|i: int| 0 <= i < out@.len() ==> out@[i] == 0,
            decreases n - out@.len(),
        {
            out.push(0);
        }
        assert(out@ =~= zeros(n as int));
        out
    }

    /// Decodes the description of a data object list. No field has a value
    /// yet.
    pub fn try_from(value: &[u8]) -> (r: Result<DOL, CardError>)
        ensures
            match decode_dol(value@) {
                Some(fields) => r matches Ok(dol) && dol@ == fields,
                None => r matches Err(e) && e == CardError::Eof,
            },
    {
        let mut out = DOL { fields: Vec::new() };
        let mut rest: &[u8] = value;
        assert(out@ =~= Seq::<DolFieldModel>::empty());
        assert(out@ + decode_dol(value@).unwrap() =~= decode_dol(value@).unwrap());
        while rest.len() != 0
            invariant
                match decode_dol(rest@) {
                    Some(tail) => decode_dol(value@) == Some(out@ + tail),
                    None => decode_dol(value@) is None,
                },
            decreases rest@.len(),
        {
            proof {
                lemma_wire_id_advances(rest@);
            }
            let (id, id_end) = match TagList::read_id(rest, 0) {
                Ok(x) => x,
                Err(e) => return Err(e),
            };
            let tag_id = TagID::from(id);
            let (length, end) = match TagList::read_byte(rest, id_end) {
                Ok(x) => x,
                Err(e) => return Err(e),
            };
            let ghost before = out@;
            let ghost whole = rest@;
            rest = slice_subrange(rest, end, rest.len());
            let field = DOLTag { id: tag_id, contents: TagContents::Invalid, exp_len: length };
            out.fields.push(field);
            proof {
                assert(out@ =~= before.push(field@));
                match decode_dol(rest@) {
                    Some(tail) => {
                        assert(decode_dol(whole) == Some(seq![field@] + tail));
                        assert(out@ + tail =~= before + (seq![field@] + tail));
                    },
                    None => {},
                }
            }
        }
        proof {
            assert(out@ + Seq::<DolFieldModel>::empty() =~= out@);
        }
        Ok(out)
    }

    /// The request that the list with its values is written as.
    pub fn to_bytes(&self) -> (bytes: Vec<u8>)
        ensures
            bytes@ == encode_dol(self@),
    {
        let mut out: Vec<u8> = Vec::new();
        let mut i: usize = 0;
        assert(self@.skip(0) =~= self@);
        while i < self.fields.len()
            invariant
                i <= self.fields@.len(),
                out@ + encode_dol(self@.skip(i as int)) == encode_dol(self@),
            decreases self.fields@.len() - i,
        {
            let tag = &self.fields[i];
            let mut data = match &tag.contents {
                TagContents::Invalid => Self::zero_bytes(tag.exp_len as usize),
                TagContents::Nested(_) => Self::zero_bytes(tag.exp_len as usize),
                TagContents::Text(s) => Self::fit_bytes(s.as_str().as_bytes(), tag.exp_len, false),
                TagContents::Bytes(b) => Self::fit_bytes(b.as_slice(), tag.exp_len, false),
                TagContents::Byte(b) => {
                    let one: Vec<u8> = vec![*b];
                    Self::fit_bytes(one.as_slice(), tag.exp_len, false)
                },
                TagContents::Number(n) => {
                    let four = TagContents::Number(*n).to_bytes();
                    Self::fit_bytes(four.as_slice(), tag.exp_len, true)
                },
            };
            let ghost before = out@;
            out.append(&mut data);
            proof {
                let tail = self@.skip(i as int);
                assert(tail[0] == tag@);
                assert(tail.skip(1) =~= self@.skip(i as int + 1));
                assert(out@ + encode_dol(self@.skip(i as int + 1)) =~= before + encode_dol(tail));
            }
            i += 1;
        }
        assert(out@ + Seq::<u8>::empty() =~= out@);
        out
    }
}


impl TagContents {
    fn duplicate(&self) -> (copy: TagContents)
        ensures
            copy@ == self@,
        decreases self,
    {
        match self {
            TagContents::Invalid => TagContents::Invalid,
            TagContents::Text(s) => TagContents::Text(s.clone()),
            TagContents::Bytes(b) => TagContents::Bytes(slice_to_vec(b.as_slice())),
            TagContents::Byte(b) => TagContents::Byte(*b),
            TagContents::Number(n) => TagContents::Number(*n),
            TagContents::Nested(l) => TagContents::Nested(l.duplicate()),
        }
    }
}

impl Tag {
    fn duplicate(&self) -> (copy: Tag)
        ensures
            copy@ == self@,
        decreases self,
    {
        Tag { id: self.id, contents: self.contents.duplicate() }
    }
}

impl TagList {
    fn duplicate(&self) -> (copy: TagList)
        ensures
            copy@ == self@,
        decreases self,
    {
        let mut copy = TagList { tags: Vec::new() };
        let mut i: usize = 0;
        while i < self.tags.len()
            invariant
                i <= self.tags@.len(),
                copy.tags@.len() == i,
                forall|k: int| 0 <= k < i ==> (#[trigger] copy.tags@[k])@ == self.tags@[k]@,
            decreases self.tags@.len() - i,
        {
            copy.tags.push(self.tags[i].duplicate());
            i += 1;
        }
        assert(copy@ =~= self@);
        copy
    }
}

impl Clone for TagContents {
    fn clone(&self) -> (copy: TagContents)
        ensures
            copy@ == self@,
    {
        self.duplicate()
    }
}

impl Clone for Tag {
    fn clone(&self) -> (copy: Tag)
        ensures
            copy@ == self@,
    {
        self.duplicate()
    }
}

impl Clone for TagList {
    fn clone(&self) -> (copy: TagList)
        ensures
            copy@ == self@,
    {
        self.duplicate()
    }
}

impl Clone for DOLTag {
    fn clone(&self) -> (copy: DOLTag)
        ensures
            copy@ == self@,
    {
        DOLTag { id: self.id, contents: self.contents.duplicate(), exp_len: self.exp_len }
    }
}

impl Clone for DOL {
    fn clone(&self) -> (copy: DOL)
        ensures
            copy@ == self@,
    {
        let mut copy = DOL { fields: Vec::new() };
        let mut i: usize = 0;
        while i < self.fields.len()
            invariant
                i <= self.fields@.len(),
                copy.fields@.len() == i,
                forall|k: int| 0 <= k < i ==> (#[trigger] copy.fields@[k])@ == self.fields@[k]@,
            decreases self.fields@.len() - i,
        {
            copy.fields.push(self.fields[i].clone());
            i += 1;
        }
        assert(copy@ =~= self@);
        copy
    }
}

} // verus!
