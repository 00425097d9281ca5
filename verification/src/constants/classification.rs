//! Labels that stand for an outcome rather than for an observed taxon.

use vstd::prelude::*;

verus! {

/// Nothing of interest is in the image.
pub const BLANK: &'static str = "f1856211-cfb7-4a5b-9158-c0f72fd09ee6;;;;;;blank";

/// An animal that could not be placed below the kingdom.
pub const ANIMAL: &'static str = "1f689929-883d-4dae-958c-3d57ab5b6c16;;;;;;animal";

/// A person.
pub const HUMAN: &'static str =
    "990ae9dd-7a59-4344-afcb-1b7b21368000;mammalia;primates;hominidae;homo;sapiens;human";

/// A vehicle.
pub const VEHICLE: &'static str = "e2895ed5-780b-48f6-8a11-9e27cb594511;;;;;;vehicle";

/// No stage produced a usable answer.
pub const UNKNOWN: &'static str =
    "f2efdae9-efb8-48fb-8a91-eccf79ab4ffb;no cv result;no cv result;no cv result;no cv result;no cv result;no cv result";

} // verus!
