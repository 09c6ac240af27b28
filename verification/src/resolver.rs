//! From what the discovery command printed to the address to keep.

use crate::address::{address_value, AddressView, Family, IpAddress};
use crate::registrar::RecordType;
use crate::text::{trim, trimmed};
use vstd::prelude::*;

verus! {

/// Why no address came out of a discovery.
#[derive(Clone, Copy, Debug, PartialEq, Eq, Structural)]
pub enum ResolutionError {
    /// The command could not be started or did not end well.
    CommandError,
    /// What the command printed is no address, or an address of the family
    /// that the record's type does not take.
    ParseError,
}

/// Whether a record of this type takes addresses of this family: `A` takes
/// the first, `AAAA` the second, and of any other type nothing is asked.
pub open spec fn takes_family(record_type: RecordType, family: Family) -> bool {
    match record_type {
        RecordType::A => family == Family::V4,
        RecordType::AAAA => family == Family::V6,
        RecordType::Other => true,
    }
}

/// The address that what was printed writes once the white space round it is
/// taken off, for a record of this type.
pub open spec fn resolved(printed: Seq<char>, record_type: RecordType) -> Result<
    AddressView,
    ResolutionError,
> {
    match address_value(trimmed(printed)) {
        Some(address) => if takes_family(record_type, address.family()) {
            Ok(address)
        } else {
            Err(ResolutionError::ParseError)
        },
        None => Err(ResolutionError::ParseError),
    }
}

/// The address that a discovery yields: `outcome` is what the command
/// printed, or, where it could not be started or did not end well, why.
pub open spec fn resolution(outcome: Result<String, String>, record_type: RecordType) -> Result<
    AddressView,
    ResolutionError,
> {
    match outcome {
        Ok(printed) => resolved(printed@, record_type),
        Err(_) => Err(ResolutionError::CommandError),
    }
}

/// The view of a result that holds an address.
pub open spec fn resolution_view(result: Result<IpAddress, ResolutionError>) -> Result<
    AddressView,
    ResolutionError,
> {
    match result {
        Ok(address) => Ok(address@),
        Err(e) => Err(e),
    }
}

/// Whether a record of this type takes addresses of this family.
pub fn family_taken(record_type: RecordType, family: Family) -> (taken: bool)
    ensures
        taken == takes_family(record_type, family),
{
    match record_type {
        RecordType::A => match family {
            Family::V4 => true,
            Family::V6 => false,
        },
        RecordType::AAAA => match family {
            Family::V4 => false,
            Family::V6 => true,
        },
        RecordType::Other => true,
    }
}

/// Reads the address that a discovery yields.
pub fn resolve(outcome: &Result<String, String>, record_type: RecordType) -> (result: Result<
    IpAddress,
    ResolutionError,
>)
    ensures
        resolution_view(result) == resolution(*outcome, record_type),
        result matches Ok(a) ==> a@.wf(),
{
    let printed = match outcome {
        Ok(printed) => printed,
        Err(_) => {
            return Err(ResolutionError::CommandError);
        },
    };
    let bare = trim(printed.as_str());
    match IpAddress::parse(bare.as_str()) {
        Some(address) => if family_taken(record_type, address.family()) {
            Ok(address)
        } else {
            Err(ResolutionError::ParseError)
        },
        None => Err(ResolutionError::ParseError),
    }
}

/// What prints a literal resolves to the address that the literal writes,
/// where the record takes addresses of its family.
pub proof fn lemma_literal_resolves_to_its_address(printed: Seq<char>, record_type: RecordType)
    requires
        address_value(printed) is Some,
        takes_family(record_type, address_value(printed).unwrap().family()),
    ensures
        resolved(printed, record_type) == Ok::<AddressView, ResolutionError>(
            address_value(printed).unwrap(),
        ),
{
    crate::address::lemma_literal_is_bare(printed);
}

/// What prints the text of an address resolves to that address, where the
/// record takes addresses of its family.
pub proof fn lemma_text_resolves_to_its_address(address: AddressView, record_type: RecordType)
    requires
        address.wf(),
        takes_family(record_type, address.family()),
    ensures
        resolved(address.text(), record_type) == Ok::<AddressView, ResolutionError>(address),
{
    crate::canonical::lemma_text_round_trip(address);
    lemma_literal_resolves_to_its_address(address.text(), record_type);
}

/// What prints no literal, not even with the white space round it taken
/// off, resolves to a parse error, whatever the type of the record.
pub proof fn lemma_no_literal_is_a_parse_error(printed: Seq<char>, record_type: RecordType)
    requires
        address_value(trimmed(printed)) is None,
    ensures
        resolved(printed, record_type) == Err::<AddressView, ResolutionError>(
            ResolutionError::ParseError,
        ),
{
}

} // verus!
