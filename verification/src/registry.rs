//! The manufacturer registry: the names that identifiers are registered
//! under, and the regional group that an identifier falls into.
//!
//! The table itself is the one that the `syxpack` crate ships. It is reached
//! through three small functions whose contracts are taken on trust; what
//! each contract claims is said above it.

use vstd::prelude::*;
use vstd::string::*;
use crate::manufacturer::{valid_code, Manufacturer};
use crate::wire::{copy_range, SysexError, DEVELOPMENT};

verus! {

/// The regional group of a manufacturer identifier.
#[derive(Clone, Copy, Debug, PartialEq, Eq, Structural)]
pub enum ManufacturerGroup {
    Development,
    NorthAmerican,
    EuropeanAndOther,
    Japanese,
}

impl ManufacturerGroup {
    /// The name of this group, as a report shows it.
    pub open spec fn label_text(self) -> Seq<char> {
        match self {
            ManufacturerGroup::Development => "Development"@,
            ManufacturerGroup::NorthAmerican => "North American"@,
            ManufacturerGroup::EuropeanAndOther => "European & Other"@,
            ManufacturerGroup::Japanese => "Japanese"@,
        }
    }

    /// The name of this group, as a report shows it.
    pub fn label(&self) -> (r: &'static str)
        ensures
            r@ == self.label_text(),
    {
        match self {
            ManufacturerGroup::Development => "Development",
            ManufacturerGroup::NorthAmerican => "North American",
            ManufacturerGroup::EuropeanAndOther => "European & Other",
            ManufacturerGroup::Japanese => "Japanese",
        }
    }
}

/// The name that the registry reports for an identifier that it does not
/// hold.
pub const UNKNOWN_NAME: &'static str = "Unknown manufacturer";

/// The display name that the registry gives to the identifier `code`.
pub uninterp spec fn registered_name(code: Seq<u8>) -> Seq<char>;

/// Whether some registered name starts with `prefix`, letter case aside.
pub uninterp spec fn name_is_registered(prefix: Seq<char>) -> bool;

/// Whether `name` starts with `prefix`, letter case aside.
pub uninterp spec fn name_starts_with(name: Seq<char>, prefix: Seq<char>) -> bool;

/// Whether the registry has a name for the identifier `code`.
pub open spec fn is_registered(code: Seq<u8>) -> bool {
    registered_name(code) != UNKNOWN_NAME@
}

/// The group of the identifier `code`.
///
/// A one-byte identifier is grouped by its range, the development identifier
/// standing alone. A three-byte identifier is grouped by two bits of its
/// second byte.
pub open spec fn group_of(code: Seq<u8>) -> ManufacturerGroup {
    if code.len() == 1 {
        let b = code[0];
        if b == DEVELOPMENT {
            ManufacturerGroup::Development
        } else if 0x01 <= b < 0x40 {
            ManufacturerGroup::NorthAmerican
        } else if 0x40 <= b < 0x60 {
            ManufacturerGroup::Japanese
        } else {
            ManufacturerGroup::EuropeanAndOther
        }
    } else {
        let b = code[1];
        if b & 0x40 != 0 {
            ManufacturerGroup::Japanese
        } else if b & 0x20 != 0 {
            ManufacturerGroup::EuropeanAndOther
        } else {
            ManufacturerGroup::NorthAmerican
        }
    }
}

/// Calls `syxpack::Manufacturer::name`.
///
/// Trusted: the name returned depends on the identifier bytes alone. Nothing
/// is claimed about which name it is.
#[verifier::external_body]
pub(crate) fn registry_name(m: &Manufacturer) -> (r: String)
    ensures
        r@ == registered_name(m@),
{
    let outside = match m {
        Manufacturer::Standard(b) => syxpack::Manufacturer::Standard(*b),
        Manufacturer::Extended(bs) => syxpack::Manufacturer::Extended(*bs),
    };
    outside.name()
}

/// Calls `syxpack::Manufacturer::group`.
///
/// Trusted: the group returned is the one that `group_of` computes from the
/// identifier bytes, for every identifier, valid or not.
#[verifier::external_body]
pub(crate) fn registry_group(m: &Manufacturer) -> (r: ManufacturerGroup)
    ensures
        r == group_of(m@),
{
    let outside = match m {
        Manufacturer::Standard(b) => syxpack::Manufacturer::Standard(*b),
        Manufacturer::Extended(bs) => syxpack::Manufacturer::Extended(*bs),
    };
    match outside.group() {
        syxpack::ManufacturerGroup::Development => ManufacturerGroup::Development,
        syxpack::ManufacturerGroup::NorthAmerican => ManufacturerGroup::NorthAmerican,
        syxpack::ManufacturerGroup::EuropeanAndOther => ManufacturerGroup::EuropeanAndOther,
        syxpack::ManufacturerGroup::Japanese => ManufacturerGroup::Japanese,
    }
}

/// Calls `syxpack::find_manufacturer`.
///
/// Trusted: whether an identifier is found depends on the text alone; an
/// identifier that is found is valid, is one that the registry has a name
/// for, and that name starts with the text, letter case aside. All three rest
/// on the keys of the table: none occurs twice, and each is two or six
/// upper-case hexadecimal digits, as `name` looks them up; those of two
/// digits lie between `01` and `7F`, and those of six start with `00`. Where
/// several names start with the text, nothing is claimed about which of
/// their identifiers is returned.
#[verifier::external_body]
pub(crate) fn registry_find(prefix: &str) -> (r: Option<Manufacturer>)
    ensures
        r is Some == name_is_registered(prefix@),
        r matches Some(m) ==> m.wf() && is_registered(m@),
        r matches Some(m) ==> name_starts_with(registered_name(m@), prefix@),
{
    match syxpack::find_manufacturer(prefix) {
        Ok(syxpack::Manufacturer::Standard(b)) => Some(Manufacturer::Standard(b)),
        Ok(syxpack::Manufacturer::Extended(bs)) => Some(Manufacturer::Extended(bs)),
        Err(_) => None,
    }
}

/// What the registry holds for one identifier.
#[derive(Clone, Debug, PartialEq, Eq)]
pub struct Entry {
    pub name: String,
    pub group: ManufacturerGroup,
}

/// Looks up the identifier `code`, byte for byte.
///
/// The result is `None` when `code` is no valid identifier, and when the
/// registry has no name for it.
pub fn lookup_by_code(code: &[u8]) -> (r: Option<Entry>)
    ensures
        r is Some == (valid_code(code@) && is_registered(code@)),
        r matches Some(e) ==> e.name@ == registered_name(code@) && e.group == group_of(code@),
{
    match Manufacturer::new(copy_range(code, 0, code.len())) {
        Ok(m) => {
            assert(m@ == code@) by {
                assert(code@.subrange(0, code@.len() as int) =~= code@);
            }
            let name = registry_name(&m);
            let unknown = String::from_str(UNKNOWN_NAME);
            if name == unknown {
                None
            } else {
                Some(Entry { name, group: registry_group(&m) })
            }
        },
        Err(_) => None,
    }
}

/// Turns the outcome of a search by name into a result: the identifier
/// found, or `ManufacturerNotFound`.
pub fn found_or_missing(found: Option<Manufacturer>) -> (r: Result<Manufacturer, SysexError>)
    ensures
        match found {
            Some(m) => r == Ok::<Manufacturer, SysexError>(m),
            None => r == Err::<Manufacturer, SysexError>(SysexError::ManufacturerNotFound),
        },
{
    match found {
        Some(m) => Ok(m),
        None => Err(SysexError::ManufacturerNotFound),
    }
}

/// Searches the registry for a manufacturer whose name starts with `prefix`,
/// letter case aside.
///
/// Where several names start with `prefix`, any one of their identifiers may
/// be returned; whichever it is, its registered name starts with `prefix`.
pub fn lookup_by_name(prefix: &str) -> (r: Result<Manufacturer, SysexError>)
    ensures
        r is Ok == name_is_registered(prefix@),
        r matches Ok(m) ==> m.wf() && is_registered(m@),
        r matches Ok(m) ==> name_starts_with(registered_name(m@), prefix@),
        r matches Err(e) ==> e == SysexError::ManufacturerNotFound,
{
    found_or_missing(registry_find(prefix))
}

} // verus!
