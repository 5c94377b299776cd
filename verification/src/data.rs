//! A payment application as a card's directory describes it.

use crate::tlv::children;
use crate::tlv::first_with_id;
use crate::tlv::ContentsModel;
use crate::tlv::Tag;
use crate::tlv::TagContents;
use crate::tlv::TagID;
use crate::tlv::TagModel;
use crate::util::code_table_index_decode;
use crate::util::code_table_text;
use crate::util::text_of;
use vstd::prelude::*;
use vstd::slice::slice_to_vec;

verus! {

/// Why an application template does not describe an application.
#[derive(Debug, Clone, Copy, PartialEq, Eq, Structural)]
pub enum ApplicationError {
    /// The priority indicator does not hold one byte.
    NotAByteValue,
    /// Neither a preferred name in a known code table nor a label.
    NoApplicationName,
    /// No priority indicator.
    NoPriorityIndicator,
    /// No dedicated file name.
    NoDedicatedFileName,
}

/// A priority indicator as a mathematical value.
pub struct PriorityModel {
    pub auto_selection_allowed: bool,
    pub priority: u8,
}

/// An application as a mathematical value.
pub struct ApplicationModel {
    pub name: Seq<char>,
    pub adf_name: Seq<u8>,
    pub priority: PriorityModel,
}

/// Whether an application may be selected without asking, and its rank
/// among the applications of a card.
#[derive(Debug, Clone, Copy, PartialEq, Eq)]
pub struct ApplicationPriorityIndicator {
    auto_selection_allowed: bool,
    priority: u8,
}

/// A payment application: its name, the name of its dedicated file, and its
/// priority indicator.
#[derive(Debug, PartialEq)]
pub struct Application {
    name: String,
    adf_name: Vec<u8>,
    priority: ApplicationPriorityIndicator,
}

impl View for ApplicationPriorityIndicator {
    type V = PriorityModel;

    closed spec fn view(&self) -> PriorityModel {
        PriorityModel {
            auto_selection_allowed: self.auto_selection_allowed,
            priority: self.priority,
        }
    }
}

impl View for Application {
    type V = ApplicationModel;

    closed spec fn view(&self) -> ApplicationModel {
        ApplicationModel { name: self.name@, adf_name: self.adf_name@, priority: self.priority@ }
    }
}

/// What the byte of a priority indicator says: selection without asking is
/// allowed where the high bit is clear, and the low four bits are the rank.
pub open spec fn priority_of(byte: u8) -> PriorityModel {
    PriorityModel { auto_selection_allowed: byte & 0x80 == 0, priority: byte & 0x0f }
}

/// The priority indicator that a tag holds.
pub open spec fn priority_indicator(tag: TagModel) -> Result<PriorityModel, ApplicationError> {
    match tag.contents {
        ContentsModel::Byte(b) => Ok(priority_of(b)),
        _ => Err(ApplicationError::NotAByteValue),
    }
}

/// The bytes of the preferred name and the index of its code table, where
/// a template holds both.
pub open spec fn preferred_name_source(tag: TagModel) -> Option<(Seq<u8>, u8)> {
    match (
        first_with_id(children(tag), TagID::ApplicationPreferredName),
        first_with_id(children(tag), TagID::IssuerCodeTableIndex),
    ) {
        (Some(n), Some(i)) => match (n.contents, i.contents) {
            (ContentsModel::Bytes(b), ContentsModel::Byte(x)) => Some((b, x)),
            _ => None,
        },
        _ => None,
    }
}

/// The preferred name of a template, decoded in its code table.
pub open spec fn preferred_name(tag: TagModel) -> Option<Seq<char>> {
    match preferred_name_source(tag) {
        Some((bytes, index)) => code_table_text(bytes, index),
        None => None,
    }
}

/// The label of a template, where it holds one that is text.
pub open spec fn label_name(tag: TagModel) -> Option<Seq<char>> {
    match first_with_id(children(tag), TagID::ApplicationLabel) {
        Some(n) => match n.contents {
            ContentsModel::Text(s) => Some(s),
            _ => None,
        },
        None => None,
    }
}

/// The preferred name where there is one, else the label.
pub open spec fn name_or_label(preferred: Option<Seq<char>>, tag: TagModel) -> Option<Seq<char>> {
    match preferred {
        Some(s) => Some(s),
        None => label_name(tag),
    }
}

/// The dedicated file name of a template.
pub open spec fn dedicated_file_name(tag: TagModel) -> Option<Seq<u8>> {
    match first_with_id(children(tag), TagID::ApplicationDedicatedFileName) {
        Some(a) => match a.contents {
            ContentsModel::Bytes(b) => Some(b),
            _ => None,
        },
        None => None,
    }
}

/// The application that a template describes, given its name. The name is
/// asked for first, then the priority indicator, then the dedicated file
/// name.
pub open spec fn application_of(name: Option<Seq<char>>, tag: TagModel) -> Result<
    ApplicationModel,
    ApplicationError,
> {
    match name {
        None => Err(ApplicationError::NoApplicationName),
        Some(n) => match first_with_id(children(tag), TagID::ApplicationPriorityIndicator) {
            None => Err(ApplicationError::NoPriorityIndicator),
            Some(p) => match priority_indicator(p) {
                Err(e) => Err(e),
                Ok(priority) => match dedicated_file_name(tag) {
                    None => Err(ApplicationError::NoDedicatedFileName),
                    Some(adf_name) => Ok(ApplicationModel { name: n, adf_name, priority }),
                },
            },
        },
    }
}

impl ApplicationError {
    /// The failure in words.
    pub fn message(&self) -> (text: &'static str)
        ensures
            text@ == match *self {
                ApplicationError::NotAByteValue => "Not a byte value"@,
                ApplicationError::NoApplicationName => "No application name"@,
                ApplicationError::NoPriorityIndicator => "No API"@,
                ApplicationError::NoDedicatedFileName => "No ADF name"@,
            },
    {
        match self {
            ApplicationError::NotAByteValue => "Not a byte value",
            ApplicationError::NoApplicationName => "No application name",
            ApplicationError::NoPriorityIndicator => "No API",
            ApplicationError::NoDedicatedFileName => "No ADF name",
        }
    }
}

impl ApplicationPriorityIndicator {
    /// The rank takes four bits.
    #[verifier::type_invariant]
    spec fn rank_in_range(self) -> bool {
        self.priority <= 15
    }

    /// Whether the application may be selected without asking.
    pub fn auto_selection_allowed(&self) -> (allowed: bool)
        ensures
            allowed == self@.auto_selection_allowed,
    {
        self.auto_selection_allowed
    }

    /// The rank of the application, from the low four bits.
    pub fn prority(&self) -> (priority: u8)
        ensures
            priority == self@.priority,
            priority <= 15,
    {
        proof {
            use_type_invariant(self);
        }
        self.priority
    }

    /// Reads the priority indicator that a tag holds.
    pub fn try_from(value: &Tag) -> (r: Result<ApplicationPriorityIndicator, ApplicationError>)
        ensures
            match priority_indicator(value@) {
                Ok(model) => r matches Ok(p) && p@ == model,
                Err(error) => r matches Err(e) && e == error,
            },
    {
        let contents: u8 = match value.contents() {
            TagContents::Byte(b) => *b,
            _ => return Err(ApplicationError::NotAByteValue),
        };
        let auto_selection_allowed = contents & 0x80 == 0;
        let priority = contents & 0x0f;
        assert(contents & 0x0f <= 15) by (bit_vector);
        Ok(ApplicationPriorityIndicator { auto_selection_allowed, priority })
    }
}

impl Application {
    /// The name behind a decoded preferred name: that name where there is
    /// one, else the label of the template.
    pub fn name_or_label(preferred: Option<String>, tag: &Tag) -> (name: Option<String>)
        ensures
            text_of(name) == name_or_label(text_of(preferred), tag@),
    {
        match preferred {
            Some(s) => Some(s),
            None => match tag.get_tag(TagID::ApplicationLabel) {
                Some(n) => match n.contents() {
                    TagContents::Text(s) => Some(s.clone()),
                    _ => None,
                },
                None => None,
            },
        }
    }

    /// The name of the application that a template describes: its preferred
    /// name decoded in its code table, else its label.
    pub fn get_application_name(tag: &Tag) -> (name: Option<String>)
        ensures
            text_of(name) == name_or_label(preferred_name(tag@), tag@),
    {
        let preferred = match (
            tag.get_tag(TagID::ApplicationPreferredName),
            tag.get_tag(TagID::IssuerCodeTableIndex),
        ) {
            (Some(n), Some(i)) => match (n.contents(), i.contents()) {
                (TagContents::Bytes(b), TagContents::Byte(x)) => code_table_index_decode(
                    b.as_slice(),
                    *x,
                ),
                _ => None,
            },
            _ => None,
        };
        Self::name_or_label(preferred, tag)
    }

    /// The application that a template describes, given its name.
    pub fn with_name(name: Option<String>, value: &Tag) -> (r: Result<
        Application,
        ApplicationError,
    >)
        ensures
            match application_of(text_of(name), value@) {
                Ok(model) => r matches Ok(a) && a@ == model,
                Err(error) => r matches Err(e) && e == error,
            },
    {
        let name = match name {
            Some(s) => s,
            None => return Err(ApplicationError::NoApplicationName),
        };
        let priority = match value.get_tag(TagID::ApplicationPriorityIndicator) {
            Some(p) => match ApplicationPriorityIndicator::try_from(p) {
                Ok(api) => api,
                Err(e) => return Err(e),
            },
            None => return Err(ApplicationError::NoPriorityIndicator),
        };
        let adf_name = match value.get_tag(TagID::ApplicationDedicatedFileName) {
            Some(a) => match a.contents() {
                TagContents::Bytes(b) => slice_to_vec(b.as_slice()),
                _ => return Err(ApplicationError::NoDedicatedFileName),
            },
            None => return Err(ApplicationError::NoDedicatedFileName),
        };
        Ok(Application { name, adf_name, priority })
    }

    /// The application that a template describes.
    pub fn try_from(value: &Tag) -> (r: Result<Application, ApplicationError>)
        ensures
            match application_of(name_or_label(preferred_name(value@), value@), value@) {
                Ok(model) => r matches Ok(a) && a@ == model,
                Err(error) => r matches Err(e) && e == error,
            },
    {
        Self::with_name(Self::get_application_name(value), value)
    }

    /// The priority indicator.
    pub fn priority(&self) -> (priority: &ApplicationPriorityIndicator)
        ensures
            priority@ == self@.priority,
    {
        &self.priority
    }

    /// The name.
    pub fn name(&self) -> (name: &str)
        ensures
            name@ == self@.name,
    {
        self.name.as_str()
    }

    /// The name of the dedicated file, by which the application is selected.
    pub fn aid(&self) -> (aid: &[u8])
        ensures
            aid@ == self@.adf_name,
    {
        self.adf_name.as_slice()
    }
}

} // verus!
