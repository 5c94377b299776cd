//! Client-side EMV contact-card application discovery: a BER-TLV codec, a
//! Data Object List codec, APDU framing with the continuation and
//! length-correction protocol, and the selection of a payment application.

pub mod apdu;
pub mod card;
pub mod codec_lemmas;
pub mod data;
pub mod discovery;
pub mod error;
pub mod tlv;
pub mod util;
