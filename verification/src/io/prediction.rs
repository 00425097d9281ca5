//! The identifier that a predicted label starts with.

use vstd::prelude::*;
use vstd::string::*;
use crate::text::{lemma_split_len, split, split_text};

verus! {

/// The 128-bit value that `uuid::Uuid::try_parse` reads from a text; `None`
/// where it does not read the text as a UUID.
pub uninterp spec fn uuid_in(text: Seq<char>) -> Option<u128>;

/// `uuid::Uuid::try_parse`, with the UUID handed on by `Uuid::as_u128`. What
/// it reads depends on the text alone.
#[verifier::external_body]
fn parse_uuid(text: &str) -> (r: Option<u128>)
    ensures
        r == uuid_in(text@),
{
    match uuid::Uuid::try_parse(text) {
        Ok(id) => Some(id.as_u128()),
        Err(_) => None,
    }
}

/// The first field of a label: the text before its first semicolon, or all of
/// it where it has none.
pub open spec fn id_field(label: Seq<char>) -> Seq<char> {
    split(label, ';')[0]
}

/// Extracts the identifier of a predicted label, which has the form
/// `id;class;order;family;genus;species;common name`, as a 128-bit value;
/// `None` where the first field is no UUID.
pub fn prediction_id(prediction: &str) -> (r: Option<u128>)
    ensures
        r == uuid_in(id_field(prediction@)),
{
    let fields = split_text(prediction, ';');
    proof {
        lemma_split_len(prediction@, ';');
    }
    parse_uuid(fields[0].as_str())
}

} // verus!
