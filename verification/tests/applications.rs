use emv_card::data::Application;
use emv_card::data::ApplicationError;
use emv_card::data::ApplicationPriorityIndicator;
use emv_card::apdu::ApduCommand;
use emv_card::discovery::find_possible_applications;
use emv_card::discovery::processing_options_list;
use emv_card::discovery::processing_options_request;
use emv_card::discovery::DirectoryScan;
use emv_card::discovery::ScanStep;
use emv_card::error::CardError;
use emv_card::tlv::DOLTag;
use emv_card::tlv::DOL;
use emv_card::discovery::get_pse_sfi;
use emv_card::discovery::is_acceptable_aid;
use emv_card::discovery::pse_name;
use emv_card::discovery::select_aid;
use emv_card::discovery::select_application;
use emv_card::discovery::Selection;
use emv_card::tlv::Tag;
use emv_card::tlv::TagContents;
use emv_card::tlv::TagID;
use emv_card::tlv::TagList;
use emv_card::util::code_table;
use emv_card::util::code_table_index_decode;
use emv_card::util::compare_slice;
use emv_card::util::CodeTable;

const MASTERCARD: [u8; 7] = [0xa0, 0x00, 0x00, 0x00, 0x04, 0x10, 0x10];
const VISA: [u8; 7] = [0xa0, 0x00, 0x00, 0x00, 0x03, 0x10, 0x10];
const OTHER: [u8; 7] = [0xa0, 0x00, 0x00, 0x00, 0x25, 0x01, 0x01];

fn nested(id: TagID, tags: Vec<Tag>) -> Tag {
    let mut list = TagList::new();
    for tag in tags {
        list.add_tag(tag);
    }
    Tag::new(id, TagContents::Nested(list))
}

fn template(aid: &[u8], label: &str, priority: u8) -> Tag {
    nested(
        TagID::ApplicationTemplate,
        vec![
            Tag::new(TagID::ApplicationDedicatedFileName, TagContents::Bytes(aid.to_vec())),
            Tag::new(TagID::ApplicationLabel, TagContents::Text(label.to_string())),
            Tag::new(TagID::ApplicationPriorityIndicator, TagContents::Byte(priority)),
        ],
    )
}

fn record(templates: Vec<Tag>) -> TagList {
    let mut list = TagList::new();
    list.add_tag(nested(TagID::ReadRecordResponseMessageTemplate, templates));
    list
}

#[test]
fn compare_slice_is_equality() {
    assert!(compare_slice(&[1, 2, 3], &[1, 2, 3]));
    assert!(compare_slice::<u8>(&[], &[]));
    assert!(compare_slice(&["a", "b"], &["a", "b"]));
    assert!(!compare_slice(&["a", "b"], &["a", "c"]));
    assert!(!compare_slice(&[1, 2, 3], &[1, 2, 4]));
    assert!(!compare_slice(&[1, 2], &[1, 2, 3]));
    assert!(!compare_slice(&[1, 2, 3], &[1, 2]));
}

#[test]
fn code_table_by_index() {
    assert_eq!(code_table(1), Some(CodeTable::Part1));
    assert_eq!(code_table(8), Some(CodeTable::Part8));
    assert_eq!(code_table(10), Some(CodeTable::Part10));
    assert_eq!(code_table(16), Some(CodeTable::Part16));
    for index in [0u8, 9, 11, 12, 17, 255] {
        assert_eq!(code_table(index), None);
    }
}

#[test]
fn code_table_decode_uses_the_table_of_the_index() {
    assert_eq!(code_table_index_decode(&[0x41, 0xa4], 1), Some("A\u{a4}".to_string()));
    assert_eq!(code_table_index_decode(&[0x41, 0xa4], 15), Some("A\u{20ac}".to_string()));
    assert_eq!(code_table_index_decode(&[0xe6], 5), Some("\u{446}".to_string()));
    assert_eq!(code_table_index_decode(&[0x41, 0xa1, 0x42], 3), Some("A\u{126}B".to_string()));
}

#[test]
fn code_table_decode_leaves_out_undefined_bytes() {
    assert_eq!(code_table_index_decode(&[0x41, 0xa5, 0x42], 3), Some("AB".to_string()));
}

#[test]
fn code_table_decode_unknown_index() {
    assert_eq!(code_table_index_decode(&[0x41], 0), None);
    assert_eq!(code_table_index_decode(&[0x41], 9), None);
    assert_eq!(code_table_index_decode(&[0x41], 12), None);
}

#[test]
fn priority_indicator_bits() {
    let tag = Tag::new(TagID::ApplicationPriorityIndicator, TagContents::Byte(0x01));
    let p = ApplicationPriorityIndicator::try_from(&tag).unwrap();
    assert!(p.auto_selection_allowed());
    assert_eq!(p.prority(), 1);
    let tag = Tag::new(TagID::ApplicationPriorityIndicator, TagContents::Byte(0x8f));
    let p = ApplicationPriorityIndicator::try_from(&tag).unwrap();
    assert!(!p.auto_selection_allowed());
    assert_eq!(p.prority(), 15);
    let tag = Tag::new(TagID::ApplicationPriorityIndicator, TagContents::Byte(0x72));
    let p = ApplicationPriorityIndicator::try_from(&tag).unwrap();
    assert!(p.auto_selection_allowed());
    assert_eq!(p.prority(), 2);
}

#[test]
fn priority_indicator_must_be_a_byte() {
    let tag = Tag::new(TagID::ApplicationPriorityIndicator, TagContents::Bytes(vec![1]));
    assert_eq!(
        ApplicationPriorityIndicator::try_from(&tag),
        Err(ApplicationError::NotAByteValue)
    );
    assert_eq!(ApplicationError::NotAByteValue.message(), "Not a byte value");
}

#[test]
fn application_from_label() {
    let app = Application::try_from(&template(&MASTERCARD, "MASTERCARD", 0x01)).unwrap();
    assert_eq!(app.name(), "MASTERCARD");
    assert_eq!(app.aid(), &MASTERCARD);
    assert!(app.priority().auto_selection_allowed());
    assert_eq!(app.priority().prority(), 1);
}

#[test]
fn application_prefers_the_preferred_name() {
    let tag = nested(
        TagID::ApplicationTemplate,
        vec![
            Tag::new(TagID::ApplicationDedicatedFileName, TagContents::Bytes(VISA.to_vec())),
            Tag::new(TagID::ApplicationLabel, TagContents::Text("VISA".to_string())),
            Tag::new(TagID::ApplicationPriorityIndicator, TagContents::Byte(0x82)),
            Tag::new(TagID::IssuerCodeTableIndex, TagContents::Byte(1)),
            Tag::new(
                TagID::ApplicationPreferredName,
                TagContents::Bytes(vec![0x43, 0x72, 0xe9, 0x64, 0x69, 0x74]),
            ),
        ],
    );
    assert_eq!(
        Application::get_application_name(&tag),
        Some("Cr\u{e9}dit".to_string())
    );
    let app = Application::try_from(&tag).unwrap();
    assert_eq!(app.name(), "Cr\u{e9}dit");
    assert!(!app.priority().auto_selection_allowed());
    assert_eq!(app.priority().prority(), 2);
}

#[test]
fn application_name_falls_back_to_the_label() {
    let tag = nested(
        TagID::ApplicationTemplate,
        vec![
            Tag::new(TagID::ApplicationLabel, TagContents::Text("VISA".to_string())),
            Tag::new(TagID::IssuerCodeTableIndex, TagContents::Byte(9)),
            Tag::new(TagID::ApplicationPreferredName, TagContents::Bytes(vec![0x43])),
        ],
    );
    assert_eq!(Application::get_application_name(&tag), Some("VISA".to_string()));
    let tag = nested(
        TagID::ApplicationTemplate,
        vec![
            Tag::new(TagID::ApplicationLabel, TagContents::Text("VISA".to_string())),
            Tag::new(TagID::ApplicationPreferredName, TagContents::Bytes(vec![0x43])),
        ],
    );
    assert_eq!(Application::get_application_name(&tag), Some("VISA".to_string()));
    assert_eq!(
        Application::name_or_label(Some("X".to_string()), &tag),
        Some("X".to_string())
    );
    assert_eq!(Application::name_or_label(None, &tag), Some("VISA".to_string()));
}

#[test]
fn application_without_name() {
    let tag = nested(
        TagID::ApplicationTemplate,
        vec![
            Tag::new(TagID::ApplicationDedicatedFileName, TagContents::Bytes(VISA.to_vec())),
            Tag::new(TagID::ApplicationLabel, TagContents::Invalid),
            Tag::new(TagID::ApplicationPriorityIndicator, TagContents::Byte(0x01)),
        ],
    );
    assert_eq!(Application::get_application_name(&tag), None);
    assert_eq!(Application::try_from(&tag), Err(ApplicationError::NoApplicationName));
    assert_eq!(ApplicationError::NoApplicationName.message(), "No application name");
}

#[test]
fn application_without_priority_indicator() {
    let tag = nested(
        TagID::ApplicationTemplate,
        vec![
            Tag::new(TagID::ApplicationDedicatedFileName, TagContents::Bytes(VISA.to_vec())),
            Tag::new(TagID::ApplicationLabel, TagContents::Text("VISA".to_string())),
        ],
    );
    assert_eq!(Application::try_from(&tag), Err(ApplicationError::NoPriorityIndicator));
    assert_eq!(ApplicationError::NoPriorityIndicator.message(), "No API");
}

#[test]
fn application_with_a_priority_indicator_that_is_no_byte() {
    let tag = nested(
        TagID::ApplicationTemplate,
        vec![
            Tag::new(TagID::ApplicationDedicatedFileName, TagContents::Bytes(VISA.to_vec())),
            Tag::new(TagID::ApplicationLabel, TagContents::Text("VISA".to_string())),
            Tag::new(TagID::ApplicationPriorityIndicator, TagContents::Invalid),
        ],
    );
    assert_eq!(Application::try_from(&tag), Err(ApplicationError::NotAByteValue));
}

#[test]
fn application_without_dedicated_file_name() {
    let tag = nested(
        TagID::ApplicationTemplate,
        vec![
            Tag::new(TagID::ApplicationLabel, TagContents::Text("VISA".to_string())),
            Tag::new(TagID::ApplicationPriorityIndicator, TagContents::Byte(0x01)),
        ],
    );
    assert_eq!(Application::try_from(&tag), Err(ApplicationError::NoDedicatedFileName));
    assert_eq!(ApplicationError::NoDedicatedFileName.message(), "No ADF name");
    assert_eq!(
        Application::with_name(None, &tag),
        Err(ApplicationError::NoApplicationName)
    );
}

#[test]
fn application_of_a_decoded_template() {
    let bytes = [
        0x61, 0x16, 0x4f, 0x07, 0xa0, 0x00, 0x00, 0x00, 0x03, 0x10, 0x10, 0x50, 0x04, 0x56, 0x49,
        0x53, 0x41, 0x87, 0x01, 0x81, 0x9f, 0x11, 0x01, 0x01,
    ];
    let list = TagList::try_from(&bytes).unwrap();
    let tag = list.get_tag(TagID::ApplicationTemplate).unwrap();
    let app = Application::try_from(tag).unwrap();
    assert_eq!(app.name(), "VISA");
    assert_eq!(app.aid(), &VISA);
    assert!(!app.priority().auto_selection_allowed());
    assert_eq!(app.priority().prority(), 1);
}

#[test]
fn pse_name_is_the_directory_name() {
    assert_eq!(pse_name(), b"1PAY.SYS.DDF01".to_vec());
}

#[test]
fn pse_sfi_from_the_select_response() {
    let bytes = [
        0x6f, 0x15, 0x84, 0x0e, 0x31, 0x50, 0x41, 0x59, 0x2e, 0x53, 0x59, 0x53, 0x2e, 0x44, 0x44,
        0x46, 0x30, 0x31, 0xa5, 0x03, 0x88, 0x01, 0x01,
    ];
    let response = TagList::try_from(&bytes).unwrap();
    assert_eq!(get_pse_sfi(&response), Some(1));
}

#[test]
fn pse_sfi_missing_at_any_level() {
    assert_eq!(get_pse_sfi(&TagList::new()), None);
    let mut response = TagList::new();
    response.add_tag(nested(TagID::FileControlInformationTemplate, vec![]));
    assert_eq!(get_pse_sfi(&response), None);
    let mut response = TagList::new();
    response.add_tag(nested(
        TagID::FileControlInformationTemplate,
        vec![nested(TagID::FileControlInformationProprietaryTemplate, vec![])],
    ));
    assert_eq!(get_pse_sfi(&response), None);
    let mut response = TagList::new();
    response.add_tag(nested(
        TagID::FileControlInformationTemplate,
        vec![nested(
            TagID::FileControlInformationProprietaryTemplate,
            vec![Tag::new(TagID::ShortFileIdentifier, TagContents::Invalid)],
        )],
    ));
    assert_eq!(get_pse_sfi(&response), None);
}

#[test]
fn select_aid_gives_name_and_proprietary_template() {
    let proprietary = nested(
        TagID::FileControlInformationProprietaryTemplate,
        vec![Tag::new(
            TagID::ProcessingOptionsDataObjectList,
            TagContents::Bytes(vec![0x9f, 0x66, 0x04]),
        )],
    );
    let expected = nested(
        TagID::FileControlInformationProprietaryTemplate,
        vec![Tag::new(
            TagID::ProcessingOptionsDataObjectList,
            TagContents::Bytes(vec![0x9f, 0x66, 0x04]),
        )],
    );
    let mut response = TagList::new();
    response.add_tag(nested(
        TagID::FileControlInformationTemplate,
        vec![
            Tag::new(TagID::DedicatedFileName, TagContents::Bytes(VISA.to_vec())),
            proprietary,
        ],
    ));
    let (name, template) = select_aid(&response).unwrap();
    assert_eq!(name, VISA.to_vec());
    assert_eq!(template, &expected);
    assert_eq!(select_aid(&TagList::new()), None);
}

#[test]
fn acceptable_aids() {
    assert!(is_acceptable_aid(&MASTERCARD));
    assert!(is_acceptable_aid(&VISA));
    assert!(!is_acceptable_aid(&OTHER));
    assert!(!is_acceptable_aid(&MASTERCARD[..6]));
    assert!(!is_acceptable_aid(&[0xa0, 0x00, 0x00, 0x00, 0x04, 0x10, 0x10, 0x01]));
    assert!(!is_acceptable_aid(&[]));
}

#[test]
fn discovery_keeps_only_accepted_applications() {
    let rec = record(vec![
        template(&OTHER, "OTHER", 0x01),
        template(&MASTERCARD, "MASTERCARD", 0x02),
    ]);
    let found = find_possible_applications(&rec);
    assert_eq!(found.len(), 1);
    assert_eq!(found[0], &template(&MASTERCARD, "MASTERCARD", 0x02));
}

#[test]
fn discovery_keeps_the_order_of_the_record() {
    let rec = record(vec![
        template(&VISA, "VISA", 0x01),
        nested(TagID::ApplicationTemplate, vec![]),
        template(&OTHER, "OTHER", 0x03),
        template(&MASTERCARD, "MASTERCARD", 0x02),
    ]);
    let found = find_possible_applications(&rec);
    assert_eq!(found.len(), 2);
    assert_eq!(found[0], &template(&VISA, "VISA", 0x01));
    assert_eq!(found[1], &template(&MASTERCARD, "MASTERCARD", 0x02));
}

#[test]
fn discovery_in_a_record_without_template() {
    assert!(find_possible_applications(&TagList::new()).is_empty());
    let mut list = TagList::new();
    list.add_tag(template(&VISA, "VISA", 0x01));
    assert!(find_possible_applications(&list).is_empty());
}

#[test]
fn selection_without_candidates() {
    assert_eq!(select_application(&vec![]), Selection::NoApplication);
}

#[test]
fn selection_of_the_only_candidate() {
    let auto = template(&VISA, "VISA", 0x01);
    match select_application(&vec![auto]) {
        Selection::Selected(app) => assert_eq!(app.name(), "VISA"),
        other => panic!("unexpected {:?}", other),
    }
    let ask = template(&VISA, "VISA", 0x81);
    match select_application(&vec![ask]) {
        Selection::Confirm(app) => assert_eq!(app.aid(), &VISA),
        other => panic!("unexpected {:?}", other),
    }
    let broken = nested(TagID::ApplicationTemplate, vec![]);
    assert_eq!(
        select_application(&vec![broken]),
        Selection::Invalid(ApplicationError::NoApplicationName)
    );
}

#[test]
fn selection_among_several_is_left_open() {
    let a = template(&VISA, "VISA", 0x01);
    let b = template(&MASTERCARD, "MASTERCARD", 0x02);
    assert_eq!(select_application(&vec![a, b]), Selection::Unresolved);
}

fn next_scan(step: ScanStep) -> DirectoryScan {
    match step {
        ScanStep::Read(scan) => scan,
        ScanStep::Done(found) => panic!("the scan ended with {:?}", found),
    }
}

#[test]
fn scan_reads_records_from_the_first() {
    let scan = DirectoryScan::start(1);
    assert_eq!(scan.record_number(), 1);
    assert_eq!(scan.command(), ApduCommand::new(0x00, 0xb2, 0x01, 0x0c, &[], 0));
    let scan = next_scan(scan.advance(Ok(record(vec![template(&VISA, "VISA", 1)]))));
    assert_eq!(scan.record_number(), 2);
    assert_eq!(scan.command(), ApduCommand::new(0x00, 0xb2, 0x02, 0x0c, &[], 0));
}

#[test]
fn scan_stops_at_the_first_failure() {
    let scan = DirectoryScan::start(2);
    let scan = next_scan(scan.advance(Ok(record(vec![
        template(&OTHER, "OTHER", 1),
        template(&MASTERCARD, "MASTERCARD", 2),
    ]))));
    let scan = next_scan(scan.advance(Ok(TagList::new())));
    assert_eq!(scan.record_number(), 3);
    let scan = next_scan(scan.advance(Ok(record(vec![template(&VISA, "VISA", 1)]))));
    let step = scan.advance(Err(CardError::FileNotFound));
    assert_eq!(
        step,
        ScanStep::Done(vec![
            template(&MASTERCARD, "MASTERCARD", 2),
            template(&VISA, "VISA", 1),
        ])
    );
}

#[test]
fn scan_of_an_empty_directory() {
    let step = DirectoryScan::start(1).advance(Err(CardError::UnknownError));
    assert_eq!(step, ScanStep::Done(vec![]));
}

#[test]
fn scan_ends_behind_the_last_record_number() {
    let mut scan = DirectoryScan::start(1);
    for _ in 1..255 {
        scan = next_scan(scan.advance(Ok(TagList::new())));
    }
    assert_eq!(scan.record_number(), 255);
    let step = scan.advance(Ok(record(vec![template(&VISA, "VISA", 1)])));
    assert_eq!(step, ScanStep::Done(vec![template(&VISA, "VISA", 1)]));
}

#[test]
fn processing_options_list_of_a_template() {
    let with_list = nested(
        TagID::FileControlInformationProprietaryTemplate,
        vec![Tag::new(
            TagID::ProcessingOptionsDataObjectList,
            TagContents::Bytes(vec![0x9f, 0x66, 0x04, 0x9f, 0x02, 0x06]),
        )],
    );
    let dol = processing_options_list(&with_list).unwrap();
    assert_eq!(dol.len(), 2);
    assert_eq!(dol.field(0).id(), TagID::Unknown(0x9f66));
    assert_eq!(dol.field(1).exp_len(), 6);
    let without = nested(TagID::FileControlInformationProprietaryTemplate, vec![]);
    assert_eq!(processing_options_list(&without), Ok(DOL::new()));
    let cut = nested(
        TagID::FileControlInformationProprietaryTemplate,
        vec![Tag::new(
            TagID::ProcessingOptionsDataObjectList,
            TagContents::Bytes(vec![0x9f, 0x66]),
        )],
    );
    assert_eq!(processing_options_list(&cut), Err(CardError::Eof));
}

#[test]
fn processing_options_request_wraps_the_fields() {
    assert_eq!(processing_options_request(&DOL::new()), vec![0x83, 0x00]);
    let mut dol = DOL::new();
    dol.add_field(DOLTag::new(TagID::Unknown(0x9f66), TagContents::Bytes(vec![0xf0]), 4));
    dol.add_field(DOLTag::new(TagID::Unknown(0x9f02), TagContents::Number(0x1234), 6));
    assert_eq!(
        processing_options_request(&dol),
        vec![0x83, 0x0a, 0xf0, 0, 0, 0, 0, 0, 0, 0, 0x12, 0x34]
    );
}
