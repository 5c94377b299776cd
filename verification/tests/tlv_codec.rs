use emv_card::error::CardError;
use emv_card::tlv::int_to_least_bytes;
use emv_card::tlv::Tag;
use emv_card::tlv::TagContents;
use emv_card::tlv::TagID;
use emv_card::tlv::TagList;

fn list_of(tags: Vec<Tag>) -> TagList {
    let mut list = TagList::new();
    for tag in tags {
        list.add_tag(tag);
    }
    list
}

fn bytes_tag(id: u32, len: usize) -> Tag {
    Tag::new(TagID::from(id), TagContents::Bytes(vec![0xab; len]))
}

#[test]
fn tag_id_from_number_knows_the_named_tags() {
    assert_eq!(TagID::from(0x4f), TagID::ApplicationDedicatedFileName);
    assert_eq!(TagID::from(0x5f2d), TagID::LanguagePreference);
    assert_eq!(TagID::from(0xbf0c), TagID::FileControlInformationIssuerDiscretionaryData);
    assert_eq!(TagID::from(0x83), TagID::Unknown(0x83));
    assert_eq!(TagID::from(0x1234), TagID::Unknown(0x1234));
}

#[test]
fn tag_id_to_number() {
    assert_eq!(u32::from(TagID::CommandTemplate), 0x83);
    assert_eq!(u32::from(TagID::LanguagePreference), 0x5f2d);
    assert_eq!(u32::from(TagID::Unknown(0xdf01)), 0xdf01);
}

#[test]
fn least_bytes_strip_leading_zeros() {
    assert_eq!(int_to_least_bytes(0), vec![0x00]);
    assert_eq!(int_to_least_bytes(0x7f), vec![0x7f]);
    assert_eq!(int_to_least_bytes(0x100), vec![0x01, 0x00]);
    assert_eq!(int_to_least_bytes(0x9f38), vec![0x9f, 0x38]);
    assert_eq!(int_to_least_bytes(u64::MAX), vec![0xff; 8]);
}

#[test]
fn read_byte_at_the_end_is_eof() {
    assert_eq!(TagList::read_byte(&[7, 8], 1), Ok((8, 2)));
    assert_eq!(TagList::read_byte(&[7, 8], 2), Err(CardError::Eof));
    assert_eq!(TagList::read_byte(&[], 0), Err(CardError::Eof));
}

#[test]
fn read_id_single_byte() {
    assert_eq!(TagList::read_id(&[0x4f, 0x07], 0), Ok((0x4f, 1)));
}

#[test]
fn read_id_follows_continuation_bytes() {
    assert_eq!(TagList::read_id(&[0x5f, 0x2d, 0x02], 0), Ok((0x5f2d, 2)));
    assert_eq!(TagList::read_id(&[0xdf, 0x81, 0x01, 0x00], 0), Ok((0xdf8101, 3)));
    assert_eq!(TagList::read_id(&[0x00, 0xbf, 0x0c], 1), Ok((0xbf0c, 3)));
}

#[test]
fn read_id_drops_the_top_byte_of_a_long_id() {
    assert_eq!(
        TagList::read_id(&[0x1f, 0x81, 0x82, 0x83, 0x04], 0),
        Ok((0x81828304, 5))
    );
}

#[test]
fn read_id_cut_short_is_eof() {
    assert_eq!(TagList::read_id(&[], 0), Err(CardError::Eof));
    assert_eq!(TagList::read_id(&[0x5f], 0), Err(CardError::Eof));
    assert_eq!(TagList::read_id(&[0xdf, 0x81], 0), Err(CardError::Eof));
}

#[test]
fn primitive_and_constructed_ids() {
    assert!(TagList::is_id_primitive(0x4f));
    assert!(TagList::is_id_primitive(0x5f2d));
    assert!(TagList::is_id_primitive(0x9f38));
    assert!(!TagList::is_id_primitive(0x61));
    assert!(!TagList::is_id_primitive(0x6f));
    assert!(!TagList::is_id_primitive(0xa5));
    assert!(!TagList::is_id_primitive(0xbf0c));
}

#[test]
fn read_length_short_and_long_form() {
    assert_eq!(TagList::read_length(&[0x00], 0), Ok((0, 1)));
    assert_eq!(TagList::read_length(&[0x7f], 0), Ok((127, 1)));
    assert_eq!(TagList::read_length(&[0x81, 0x80], 0), Ok((128, 2)));
    assert_eq!(TagList::read_length(&[0x82, 0xff, 0xff], 0), Ok((65535, 3)));
    assert_eq!(TagList::read_length(&[0x80, 0x55], 0), Ok((0, 1)));
    assert_eq!(TagList::read_length(&[0x82, 0x01], 0), Err(CardError::Eof));
    assert_eq!(TagList::read_length(&[], 0), Err(CardError::Eof));
}

#[test]
fn make_length_short_and_long_form() {
    assert_eq!(TagList::make_length(0), vec![0x00]);
    assert_eq!(TagList::make_length(127), vec![0x7f]);
    assert_eq!(TagList::make_length(128), vec![0x81, 0x80]);
    assert_eq!(TagList::make_length(255), vec![0x81, 0xff]);
    assert_eq!(TagList::make_length(256), vec![0x82, 0x01, 0x00]);
    assert_eq!(TagList::make_length(65535), vec![0x82, 0xff, 0xff]);
}

#[test]
fn read_content_takes_exactly_the_length() {
    assert_eq!(TagList::read_content(&[1, 2, 3, 4], 1, 2), Ok((vec![2, 3], 3)));
    assert_eq!(TagList::read_content(&[1, 2, 3, 4], 4, 0), Ok((vec![], 4)));
    assert_eq!(TagList::read_content(&[1, 2, 3, 4], 1, 4), Err(CardError::Eof));
    assert_eq!(TagList::read_content(&[1, 2], 0, u64::MAX), Err(CardError::Eof));
}

#[test]
fn make_primitive_text_tag() {
    assert_eq!(
        TagContents::make_primitive(b"en", &TagID::LanguagePreference),
        TagContents::Text("en".to_string())
    );
    assert_eq!(
        TagContents::make_primitive(&[0xc3, 0xa9], &TagID::ApplicationLabel),
        TagContents::Text("\u{e9}".to_string())
    );
}

#[test]
fn make_primitive_text_that_is_not_utf8_is_invalid() {
    assert_eq!(
        TagContents::make_primitive(&[0x41, 0xff], &TagID::ApplicationLabel),
        TagContents::Invalid
    );
}

#[test]
fn make_primitive_byte_tag() {
    assert_eq!(
        TagContents::make_primitive(&[0x0a], &TagID::ShortFileIdentifier),
        TagContents::Byte(0x0a)
    );
    assert_eq!(
        TagContents::make_primitive(&[0x81, 0x02], &TagID::ApplicationPriorityIndicator),
        TagContents::Byte(0x81)
    );
    assert_eq!(
        TagContents::make_primitive(&[], &TagID::IssuerCodeTableIndex),
        TagContents::Invalid
    );
}

#[test]
fn make_primitive_other_tags_keep_their_bytes() {
    assert_eq!(
        TagContents::make_primitive(&[1, 2, 3], &TagID::ApplicationDedicatedFileName),
        TagContents::Bytes(vec![1, 2, 3])
    );
    assert_eq!(
        TagContents::make_primitive(&[], &TagID::Unknown(0x01)),
        TagContents::Bytes(vec![])
    );
}

#[test]
fn contents_to_bytes() {
    assert_eq!(TagContents::Invalid.to_bytes(), Vec::<u8>::new());
    assert_eq!(TagContents::Text("A\u{e9}".to_string()).to_bytes(), vec![0x41, 0xc3, 0xa9]);
    assert_eq!(TagContents::Bytes(vec![9, 8]).to_bytes(), vec![9, 8]);
    assert_eq!(TagContents::Byte(0x42).to_bytes(), vec![0x42]);
    assert_eq!(TagContents::Number(0x01020304).to_bytes(), vec![1, 2, 3, 4]);
    assert_eq!(TagContents::Number(5).to_bytes(), vec![0, 0, 0, 5]);
}

#[test]
fn decode_empty_input_is_the_empty_list() {
    assert_eq!(TagList::try_from(&[]), Ok(TagList::new()));
}

#[test]
fn decode_two_byte_id_is_one_tag() {
    let decoded = TagList::try_from(&[0x5f, 0x2d, 0x02, 0x65, 0x6e]).unwrap();
    let expected = list_of(vec![Tag::new(
        TagID::LanguagePreference,
        TagContents::Text("en".to_string()),
    )]);
    assert_eq!(decoded, expected);
    assert!(decoded.get_tag(TagID::Unknown(0x5f)).is_none());
    assert_eq!(decoded.get_tags(TagID::LanguagePreference).len(), 1);
}

#[test]
fn decode_nested_template() {
    let bytes = [
        0x6f, 0x0b, 0x84, 0x02, 0xaa, 0xbb, 0xa5, 0x05, 0x88, 0x01, 0x01, 0x50, 0x00,
    ];
    let inner = list_of(vec![
        Tag::new(TagID::ShortFileIdentifier, TagContents::Byte(1)),
        Tag::new(TagID::ApplicationLabel, TagContents::Text(String::new())),
    ]);
    let fci = list_of(vec![
        Tag::new(TagID::DedicatedFileName, TagContents::Bytes(vec![0xaa, 0xbb])),
        Tag::new(
            TagID::FileControlInformationProprietaryTemplate,
            TagContents::Nested(inner),
        ),
    ]);
    let expected = list_of(vec![Tag::new(
        TagID::FileControlInformationTemplate,
        TagContents::Nested(fci),
    )]);
    assert_eq!(TagList::try_from(&bytes), Ok(expected));
}

#[test]
fn constructed_id_always_decodes_as_nested() {
    let decoded = TagList::try_from(&[0x61, 0x00]).unwrap();
    assert_eq!(
        decoded,
        list_of(vec![Tag::new(
            TagID::ApplicationTemplate,
            TagContents::Nested(TagList::new())
        )])
    );
    let decoded = TagList::try_from(&[0x21, 0x03, 0x01, 0x01, 0x07]).unwrap();
    let inner = list_of(vec![Tag::new(TagID::Unknown(0x01), TagContents::Bytes(vec![0x07]))]);
    assert_eq!(
        decoded,
        list_of(vec![Tag::new(TagID::Unknown(0x21), TagContents::Nested(inner))])
    );
    assert_eq!(TagList::try_from(&[0x61, 0x01, 0x4f]), Err(CardError::Eof));
}

#[test]
fn decode_short_content_is_eof() {
    assert_eq!(TagList::try_from(&[0x4f, 0x03, 0x01, 0x02]), Err(CardError::Eof));
    assert_eq!(TagList::try_from(&[0x4f]), Err(CardError::Eof));
    assert_eq!(TagList::try_from(&[0x4f, 0x01, 0x01, 0x5f]), Err(CardError::Eof));
}

#[test]
fn encode_single_tags() {
    let list = list_of(vec![Tag::new(
        TagID::CommandTemplate,
        TagContents::Bytes(vec![1, 2, 3]),
    )]);
    assert_eq!(list.to_bytes(), vec![0x83, 0x03, 1, 2, 3]);
    let list = list_of(vec![Tag::new(TagID::Unknown(0), TagContents::Invalid)]);
    assert_eq!(list.to_bytes(), vec![0x00, 0x00]);
    let list = list_of(vec![Tag::new(TagID::Unknown(0x9f02), TagContents::Number(0x1234))]);
    assert_eq!(list.to_bytes(), vec![0x9f, 0x02, 0x04, 0x00, 0x00, 0x12, 0x34]);
}

#[test]
fn length_boundaries_round_trip() {
    for len in [0usize, 127, 128, 65535] {
        let list = list_of(vec![bytes_tag(0x4f, len)]);
        let bytes = list.to_bytes();
        let header = match len {
            0 => vec![0x4f, 0x00],
            127 => vec![0x4f, 0x7f],
            128 => vec![0x4f, 0x81, 0x80],
            _ => vec![0x4f, 0x82, 0xff, 0xff],
        };
        assert_eq!(bytes.len(), header.len() + len);
        assert_eq!(&bytes[..header.len()], &header[..]);
        let decoded = TagList::try_from(&bytes).unwrap();
        assert_eq!(decoded, list);
        assert_eq!(decoded.to_bytes(), bytes);
    }
}

#[test]
fn round_trip_of_a_nested_tree() {
    let application = list_of(vec![
        Tag::new(
            TagID::ApplicationDedicatedFileName,
            TagContents::Bytes(vec![0xa0, 0, 0, 0, 4, 0x10, 0x10]),
        ),
        Tag::new(TagID::ApplicationLabel, TagContents::Text("MASTERCARD".to_string())),
        Tag::new(TagID::ApplicationPriorityIndicator, TagContents::Byte(0x01)),
        Tag::new(TagID::Unknown(0xdf8101), TagContents::Bytes(vec![0x55; 200])),
    ]);
    let record = list_of(vec![
        Tag::new(TagID::ApplicationTemplate, TagContents::Nested(application)),
        Tag::new(TagID::ApplicationTemplate, TagContents::Nested(TagList::new())),
    ]);
    let list = list_of(vec![
        Tag::new(
            TagID::ReadRecordResponseMessageTemplate,
            TagContents::Nested(record),
        ),
        Tag::new(TagID::LanguagePreference, TagContents::Text("ende".to_string())),
    ]);
    let bytes = list.to_bytes();
    let decoded = TagList::try_from(&bytes).unwrap();
    assert_eq!(decoded, list);
    assert_eq!(decoded.to_bytes(), bytes);
}

#[test]
fn truncation_inside_a_tag_is_eof() {
    let inner = list_of(vec![
        Tag::new(TagID::LanguagePreference, TagContents::Text("en".to_string())),
        bytes_tag(0x4f, 130),
    ]);
    let list = list_of(vec![Tag::new(
        TagID::FileControlInformationTemplate,
        TagContents::Nested(inner),
    )]);
    let bytes = list.to_bytes();
    assert_eq!(TagList::try_from(&bytes), Ok(list));
    for cut in 1..bytes.len() {
        assert_eq!(TagList::try_from(&bytes[..cut]), Err(CardError::Eof));
    }
}

#[test]
fn truncation_between_tags_keeps_the_whole_tags() {
    let list = list_of(vec![bytes_tag(0x4f, 2), bytes_tag(0x50, 0)]);
    let bytes = list.to_bytes();
    assert_eq!(bytes, vec![0x4f, 0x02, 0xab, 0xab, 0x50, 0x00]);
    assert_eq!(TagList::try_from(&bytes[..4]), Ok(list_of(vec![bytes_tag(0x4f, 2)])));
    assert_eq!(TagList::try_from(&bytes[..5]), Err(CardError::Eof));
}

#[test]
fn lookup_first_and_all() {
    let list = list_of(vec![
        Tag::new(TagID::ApplicationLabel, TagContents::Text("one".to_string())),
        Tag::new(TagID::ApplicationTemplate, TagContents::Byte(1)),
        Tag::new(TagID::ApplicationLabel, TagContents::Text("two".to_string())),
    ]);
    let first = list.get_tag(TagID::ApplicationLabel).unwrap();
    assert_eq!(first.contents(), &TagContents::Text("one".to_string()));
    assert_eq!(first.id(), TagID::ApplicationLabel);
    let all = list.get_tags(TagID::ApplicationLabel);
    assert_eq!(all.len(), 2);
    assert_eq!(all[1].contents(), &TagContents::Text("two".to_string()));
    assert!(list.get_tag(TagID::LogEntry).is_none());
    assert!(list.get_tags(TagID::LogEntry).is_empty());

    let parent = Tag::new(TagID::ApplicationTemplate, TagContents::Nested(list));
    assert_eq!(parent.get_tags(TagID::ApplicationLabel).len(), 2);
    assert_eq!(
        parent.get_tag(TagID::ApplicationTemplate).unwrap().contents(),
        &TagContents::Byte(1)
    );
    let leaf = Tag::new(TagID::ApplicationLabel, TagContents::Bytes(vec![1]));
    assert!(leaf.get_tag(TagID::ApplicationLabel).is_none());
    assert!(leaf.get_tags(TagID::ApplicationLabel).is_empty());
}

#[test]
fn clone_is_a_deep_copy() {
    let inner = list_of(vec![
        Tag::new(TagID::ApplicationLabel, TagContents::Text("one".to_string())),
        bytes_tag(0x4f, 3),
    ]);
    let tag = Tag::new(TagID::ApplicationTemplate, TagContents::Nested(inner));
    let copy = tag.clone();
    assert_eq!(copy, tag);
    let list = list_of(vec![tag, Tag::new(TagID::Unknown(0x9a), TagContents::Number(7))]);
    assert_eq!(list.clone(), list);
    assert_eq!(list.clone().to_bytes(), list.to_bytes());
}
