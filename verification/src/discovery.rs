//! Finding the payment applications of a card in its directory.

use crate::apdu::ApduCommand;
use crate::apdu::CommandModel;
use crate::card::read_record_command;
use crate::card::record_reference;
use crate::data::application_of;
use crate::data::dedicated_file_name;
use crate::error::CardError;
use crate::data::name_or_label;
use crate::data::preferred_name;
use crate::data::Application;
use crate::data::ApplicationError;
use crate::data::ApplicationModel;
use crate::tlv::all_with_id;
use crate::tlv::children;
use crate::tlv::decode_dol;
use crate::tlv::encode_dol;
use crate::tlv::encode_tags;
use crate::tlv::first_with_id;
use crate::tlv::ContentsModel;
use crate::tlv::Tag;
use crate::tlv::TagContents;
use crate::tlv::TagID;
use crate::tlv::TagList;
use crate::tlv::TagModel;
use crate::tlv::DolFieldModel;
use crate::tlv::DOL;
use crate::util::compare_slice;
use crate::util::lemma_same_bytes;
use vstd::prelude::*;
use vstd::slice::slice_to_vec;

verus! {

/// The name of the payment system environment, `1PAY.SYS.DDF01`.
pub open spec fn pse_name_bytes() -> Seq<u8> {
    seq![0x31, 0x50, 0x41, 0x59, 0x2e, 0x53, 0x59, 0x53, 0x2e, 0x44, 0x44, 0x46, 0x30, 0x31]
}

/// The dedicated file name of the first accepted issuer.
pub open spec fn mastercard_aid() -> Seq<u8> {
    seq![0xa0, 0x00, 0x00, 0x00, 0x04, 0x10, 0x10]
}

/// The dedicated file name of the second accepted issuer.
pub open spec fn visa_aid() -> Seq<u8> {
    seq![0xa0, 0x00, 0x00, 0x00, 0x03, 0x10, 0x10]
}

/// Whether a dedicated file name is one of the accepted ones.
pub open spec fn is_acceptable(aid: Seq<u8>) -> bool {
    aid == mastercard_aid() || aid == visa_aid()
}

/// The short file identifier of the directory, from the response to the
/// selection of the payment system environment: the byte of the short file
/// identifier in the proprietary template of the file control information.
pub open spec fn directory_sfi(response: Seq<TagModel>) -> Option<u8> {
    match first_with_id(response, TagID::FileControlInformationTemplate) {
        None => None,
        Some(fci) => match first_with_id(
            children(fci),
            TagID::FileControlInformationProprietaryTemplate,
        ) {
            None => None,
            Some(fcipt) => match first_with_id(children(fcipt), TagID::ShortFileIdentifier) {
                None => None,
                Some(sfi) => match sfi.contents {
                    ContentsModel::Byte(b) => Some(b),
                    _ => None,
                },
            },
        },
    }
}

/// The dedicated file name and the proprietary template of a selected
/// application, from the response to its selection.
pub open spec fn selected_file(response: Seq<TagModel>) -> Option<(Seq<u8>, TagModel)> {
    match first_with_id(response, TagID::FileControlInformationTemplate) {
        None => None,
        Some(fci) => match first_with_id(
            children(fci),
            TagID::FileControlInformationProprietaryTemplate,
        ) {
            None => None,
            Some(fcipt) => match first_with_id(children(fci), TagID::DedicatedFileName) {
                None => None,
                Some(name) => match name.contents {
                    ContentsModel::Bytes(b) => Some((b, fcipt)),
                    _ => None,
                },
            },
        },
    }
}

/// The bytes that describe the data object list of the processing options
/// in the proprietary template of a selected application; none where the
/// template holds no such list.
pub open spec fn pdol_bytes(template: TagModel) -> Option<Seq<u8>> {
    match first_with_id(children(template), TagID::ProcessingOptionsDataObjectList) {
        Some(d) => match d.contents {
            ContentsModel::Bytes(b) => Some(b),
            _ => None,
        },
        None => None,
    }
}

/// The data of `GET PROCESSING OPTIONS`: one command template that holds
/// the request written from the data object list.
pub open spec fn processing_options_data(fields: Seq<DolFieldModel>) -> Seq<u8> {
    encode_tags(
        seq![
            TagModel {
                id: TagID::CommandTemplate,
                contents: ContentsModel::Bytes(encode_dol(fields)),
            },
        ],
    )
}

/// Whether an application template names an accepted dedicated file.
pub open spec fn is_candidate(template: TagModel) -> bool {
    match dedicated_file_name(template) {
        Some(aid) => is_acceptable(aid),
        None => false,
    }
}

/// The candidates among application templates, in their order.
pub open spec fn candidates_among(templates: Seq<TagModel>) -> Seq<TagModel>
    decreases templates.len(),
{
    if templates.len() == 0 {
        Seq::empty()
    } else if is_candidate(templates.last()) {
        candidates_among(templates.drop_last()).push(templates.last())
    } else {
        candidates_among(templates.drop_last())
    }
}

/// The candidates that one record of the directory holds: those among the
/// application templates of its response template. A record without a
/// response template holds none.
pub open spec fn record_candidates(record: Seq<TagModel>) -> Seq<TagModel> {
    match first_with_id(record, TagID::ReadRecordResponseMessageTemplate) {
        Some(r) => candidates_among(all_with_id(children(r), TagID::ApplicationTemplate)),
        None => Seq::empty(),
    }
}

/// The tags of a vector as mathematical values.
pub open spec fn tag_views(tags: Seq<Tag>) -> Seq<TagModel> {
    tags.map_values(|t: Tag| t@)
}

/// The scan of a directory as a mathematical value.
pub struct ScanModel {
    /// The short file identifier of the directory.
    pub sfi: u8,
    /// The number of the record to read next.
    pub record: u8,
    /// The candidates found so far.
    pub found: Seq<TagModel>,
}

/// The next move of a scan as a mathematical value.
pub enum ScanStepModel {
    Read(ScanModel),
    Done(Seq<TagModel>),
}

/// The scan of a directory, record by record from the first.
#[derive(Debug, PartialEq)]
pub struct DirectoryScan {
    sfi: u8,
    record: u8,
    found: Vec<Tag>,
}

/// The next move of a scan.
#[derive(Debug, PartialEq)]
pub enum ScanStep {
    /// Read the record that this scan asks for and hand the outcome back.
    Read(DirectoryScan),
    /// The directory has no more records: these are the candidates, in the
    /// order in which they were met.
    Done(Vec<Tag>),
}

impl View for DirectoryScan {
    type V = ScanModel;

    closed spec fn view(&self) -> ScanModel {
        ScanModel { sfi: self.sfi, record: self.record, found: tag_views(self.found@) }
    }
}

impl View for ScanStep {
    type V = ScanStepModel;

    open spec fn view(&self) -> ScanStepModel {
        match self {
            ScanStep::Read(scan) => ScanStepModel::Read(scan@),
            ScanStep::Done(found) => ScanStepModel::Done(tag_views(found@)),
        }
    }
}

/// How a scan goes on after a record was asked for. A record that could
/// not be read ends the scan: the directory has no more. A record that was
/// read adds its candidates, and the record with the next number comes
/// next; behind record 255 there is none.
pub open spec fn next_scan_step(
    scan: ScanModel,
    outcome: Result<Seq<TagModel>, CardError>,
) -> ScanStepModel {
    match outcome {
        Err(_) => ScanStepModel::Done(scan.found),
        Ok(record) => {
            let found = scan.found + record_candidates(record);
            if scan.record == 255 {
                ScanStepModel::Done(found)
            } else {
                ScanStepModel::Read(
                    ScanModel { sfi: scan.sfi, record: (scan.record + 1) as u8, found },
                )
            }
        },
    }
}

/// What to do with the candidates of a card, as a mathematical value.
pub enum SelectionModel {
    NoApplication,
    Selected(ApplicationModel),
    Confirm(ApplicationModel),
    Invalid(ApplicationError),
    Unresolved,
}

/// What to do with the candidates of a card.
#[derive(Debug, PartialEq)]
pub enum Selection {
    /// The card holds no accepted application.
    NoApplication,
    /// The one candidate, which may be used without asking.
    Selected(Application),
    /// The one candidate, which may be used once the holder agrees.
    Confirm(Application),
    /// The one candidate does not describe an application.
    Invalid(ApplicationError),
    /// More than one candidate: the choice among them is left to the caller.
    Unresolved,
}

impl View for Selection {
    type V = SelectionModel;

    open spec fn view(&self) -> SelectionModel {
        match self {
            Selection::NoApplication => SelectionModel::NoApplication,
            Selection::Selected(a) => SelectionModel::Selected(a@),
            Selection::Confirm(a) => SelectionModel::Confirm(a@),
            Selection::Invalid(e) => SelectionModel::Invalid(*e),
            Selection::Unresolved => SelectionModel::Unresolved,
        }
    }
}

/// What to do with a single candidate, once it is decoded.
pub open spec fn decision(decoded: Result<ApplicationModel, ApplicationError>) -> SelectionModel {
    match decoded {
        Err(e) => SelectionModel::Invalid(e),
        Ok(a) => if a.priority.auto_selection_allowed {
            SelectionModel::Selected(a)
        } else {
            SelectionModel::Confirm(a)
        },
    }
}

/// What to do with the candidates of a card: nothing without one, a
/// decision on the only one, and no choice among several.
pub open spec fn selection_of(candidates: Seq<TagModel>) -> SelectionModel {
    if candidates.len() == 0 {
        SelectionModel::NoApplication
    } else if candidates.len() == 1 {
        decision(
            application_of(
                name_or_label(preferred_name(candidates[0]), candidates[0]),
                candidates[0],
            ),
        )
    } else {
        SelectionModel::Unresolved
    }
}

/// The name by which the payment system environment is selected.
pub fn pse_name() -> (name: Vec<u8>)
    ensures
        name@ == pse_name_bytes(),
{
    let name: Vec<u8> = vec![
        0x31, 0x50, 0x41, 0x59, 0x2e, 0x53, 0x59, 0x53, 0x2e, 0x44, 0x44, 0x46, 0x30, 0x31,
    ];
    assert(name@ =~= pse_name_bytes());
    name
}

/// The short file identifier of the directory, from the response to the
/// selection of the payment system environment.
pub fn get_pse_sfi(response: &TagList) -> (sfi: Option<u8>)
    ensures
        sfi == directory_sfi(response@),
{
    let fci = match response.get_tag(TagID::FileControlInformationTemplate) {
        Some(t) => t,
        None => return None,
    };
    let fcipt = match fci.get_tag(TagID::FileControlInformationProprietaryTemplate) {
        Some(t) => t,
        None => return None,
    };
    match fcipt.get_tag(TagID::ShortFileIdentifier) {
        Some(t) => match t.contents() {
            TagContents::Byte(b) => Some(*b),
            _ => None,
        },
        None => None,
    }
}

/// The dedicated file name and the proprietary template of a selected
/// application, from the response to its selection.
pub fn select_aid(response: &TagList) -> (selected: Option<(Vec<u8>, &Tag)>)
    ensures
        match selected_file(response@) {
            Some((name, template)) => selected matches Some((n, t)) && n@ == name && t@
                == template,
            None => selected is None,
        },
{
    let fci = match response.get_tag(TagID::FileControlInformationTemplate) {
        Some(t) => t,
        None => return None,
    };
    let fcipt = match fci.get_tag(TagID::FileControlInformationProprietaryTemplate) {
        Some(t) => t,
        None => return None,
    };
    match fci.get_tag(TagID::DedicatedFileName) {
        Some(t) => match t.contents() {
            TagContents::Bytes(b) => Some((slice_to_vec(b.as_slice()), fcipt)),
            _ => None,
        },
        None => None,
    }
}

/// The data object list of the processing options of a selected
/// application, from its proprietary template: the list that the template
/// describes, and the list without fields where it describes none.
pub fn processing_options_list(template: &Tag) -> (r: Result<DOL, CardError>)
    ensures
        match pdol_bytes(template@) {
            Some(bytes) => match decode_dol(bytes) {
                Some(fields) => r matches Ok(dol) && dol@ == fields,
                None => r matches Err(e) && e == CardError::Eof,
            },
            None => r matches Ok(dol) && dol@ == Seq::<DolFieldModel>::empty(),
        },
{
    match template.get_tag(TagID::ProcessingOptionsDataObjectList) {
        Some(d) => match d.contents() {
            TagContents::Bytes(b) => DOL::try_from(b.as_slice()),
            _ => Ok(DOL::new()),
        },
        None => Ok(DOL::new()),
    }
}

/// The data of `GET PROCESSING OPTIONS` for a data object list with its
/// values.
pub fn processing_options_request(pdol: &DOL) -> (data: Vec<u8>)
    ensures
        data@ == processing_options_data(pdol@),
{
    let mut request = TagList::new();
    request.add_tag(Tag::new(TagID::CommandTemplate, TagContents::Bytes(pdol.to_bytes())));
    assert(request@ =~= seq![
        TagModel {
            id: TagID::CommandTemplate,
            contents: ContentsModel::Bytes(encode_dol(pdol@)),
        },
    ]);
    request.to_bytes()
}

/// Whether a dedicated file name is one of the accepted ones.
pub fn is_acceptable_aid(aid: &[u8]) -> (acceptable: bool)
    ensures
        acceptable == is_acceptable(aid@),
{
    let mastercard: [u8; 7] = [0xa0, 0x00, 0x00, 0x00, 0x04, 0x10, 0x10];
    let visa: [u8; 7] = [0xa0, 0x00, 0x00, 0x00, 0x03, 0x10, 0x10];
    assert(mastercard@ =~= mastercard_aid());
    assert(visa@ =~= visa_aid());
    proof {
        lemma_same_bytes(mastercard@, aid@);
        lemma_same_bytes(visa@, aid@);
    }
    compare_slice(mastercard.as_slice(), aid) || compare_slice(visa.as_slice(), aid)
}

/// The candidates that one record of the directory holds, in their order.
pub fn find_possible_applications(record: &TagList) -> (found: Vec<&Tag>)
    ensures
        found@.len() == record_candidates(record@).len(),
        forall|i: int|
            0 <= i < found@.len() ==> (#[trigger] found@[i])@ == record_candidates(record@)[i],
{
    let mut possible_applications: Vec<&Tag> = Vec::new();
    let response = match record.get_tag(TagID::ReadRecordResponseMessageTemplate) {
        Some(r) => r,
        None => return possible_applications,
    };
    let applications = response.get_tags(TagID::ApplicationTemplate);
    let ghost templates = all_with_id(children(response@), TagID::ApplicationTemplate);
    let mut i: usize = 0;
    while i < applications.len()
        invariant
            i <= applications@.len(),
            applications@.len() == templates.len(),
            forall|k: int|
                0 <= k < applications@.len() ==> (#[trigger] applications@[k])@ == templates[k],
            possible_applications@.len() == candidates_among(templates.take(i as int)).len(),
            forall|k: int|
                0 <= k < possible_applications@.len() ==> (#[trigger] possible_applications@[k])@
                    == candidates_among(templates.take(i as int))[k],
        decreases applications@.len() - i,
    {
        let application: &Tag = applications[i];
        assert(templates.take(i as int + 1).last() == application@);
        assert(templates.take(i as int + 1).drop_last() =~= templates.take(i as int));
        let acceptable = match application.get_tag(TagID::ApplicationDedicatedFileName) {
            Some(n) => match n.contents() {
                TagContents::Bytes(a) => is_acceptable_aid(a.as_slice()),
                _ => false,
            },
            None => false,
        };
        if acceptable {
            possible_applications.push(application);
        }
        i += 1;
    }
    assert(templates.take(i as int) =~= templates);
    possible_applications
}

/// What to do with a single candidate, once it is decoded.
pub fn decide(decoded: Result<Application, ApplicationError>) -> (selection: Selection)
    ensures
        selection@ == decision(
            match decoded {
                Ok(a) => Ok(a@),
                Err(e) => Err(e),
            },
        ),
{
    match decoded {
        Err(e) => Selection::Invalid(e),
        Ok(a) => if a.priority().auto_selection_allowed() {
            Selection::Selected(a)
        } else {
            Selection::Confirm(a)
        },
    }
}

/// What to do with the candidates of a card.
pub fn select_application(candidates: &Vec<Tag>) -> (selection: Selection)
    ensures
        selection@ == selection_of(tag_views(candidates@)),
{
    if candidates.len() == 0 {
        Selection::NoApplication
    } else if candidates.len() == 1 {
        decide(Application::try_from(&candidates[0]))
    } else {
        Selection::Unresolved
    }
}

impl DirectoryScan {
    /// Records are numbered from one.
    #[verifier::type_invariant]
    spec fn record_is_numbered(self) -> bool {
        self.record >= 1
    }

    /// The scan of the directory with the short file identifier, before
    /// its first record is read.
    pub fn start(sfi: u8) -> (scan: DirectoryScan)
        ensures
            scan@ == (ScanModel { sfi, record: 1, found: Seq::empty() }),
    {
        let scan = DirectoryScan { sfi, record: 1, found: Vec::new() };
        assert(scan@.found =~= Seq::<TagModel>::empty());
        scan
    }

    /// The number of the record to read next.
    pub fn record_number(&self) -> (record: u8)
        ensures
            record == self@.record,
            record >= 1,
    {
        proof {
            use_type_invariant(self);
        }
        self.record
    }

    /// The command that reads the next record.
    pub fn command(&self) -> (command: ApduCommand)
        ensures
            command@ == (CommandModel {
                class: 0x00,
                instruction: 0xb2,
                param1: self@.record,
                param2: record_reference(self@.sfi),
                data: Seq::empty(),
                length_expected: 0,
            }),
    {
        read_record_command(self.sfi, self.record)
    }

    /// Takes what reading the next record gave and decides how to go on.
    pub fn advance(self, outcome: Result<TagList, CardError>) -> (step: ScanStep)
        ensures
            step@ == next_scan_step(
                self@,
                match outcome {
                    Ok(record) => Ok(record@),
                    Err(e) => Err(e),
                },
            ),
    {
        let DirectoryScan { sfi, record, found } = self;
        let mut found = found;
        match outcome {
            Err(_) => ScanStep::Done(found),
            Ok(tags) => {
                let applications = find_possible_applications(&tags);
                let ghost before = tag_views(found@);
                let ghost added = record_candidates(tags@);
                let mut i: usize = 0;
                while i < applications.len()
                    invariant
                        i <= applications@.len(),
                        applications@.len() == added.len(),
                        forall|k: int|
                            0 <= k < applications@.len() ==> (#[trigger] applications@[k])@
                                == added[k],
                        tag_views(found@) == before + added.take(i as int),
                    decreases applications@.len() - i,
                {
                    let ghost sofar = found@;
                    let copy = applications[i].clone();
                    assert(copy@ == added[i as int]);
                    found.push(copy);
                    assert(tag_views(found@) =~= tag_views(sofar).push(copy@));
                    assert(added.take(i as int + 1) =~= added.take(i as int).push(added[i as int]));
                    assert(tag_views(found@) =~= before + added.take(i as int + 1));
                    i += 1;
                }
                assert(added.take(i as int) =~= added);
                if record == 255 {
                    ScanStep::Done(found)
                } else {
                    ScanStep::Read(DirectoryScan { sfi, record: record + 1, found })
                }
            },
        }
    }
}

} // verus!
