//! Hardware (MAC) addresses.

use vstd::prelude::*;

verus! {

/// A 6-byte link-layer address, most significant byte first.
#[derive(Clone, Copy, Debug, PartialEq, Eq, Hash)]
pub struct HardwareAddress(pub u8, pub u8, pub u8, pub u8, pub u8, pub u8);

/// Why a piece of text is not a hardware address.
#[derive(Clone, Copy, Debug, PartialEq, Eq)]
pub enum AddressError {
    /// More than six colon-separated components.
    TooManyComponents,
    /// Fewer than six colon-separated components.
    TooFewComponents,
    /// A component that is not a hexadecimal byte.
    InvalidComponent,
}

/// What `pnet`'s `MacAddr::from_str` makes of a piece of text: the address it
/// reads, or the reason it gives for reading none.
pub uninterp spec fn parsed_address(text: Seq<char>) -> Result<HardwareAddress, AddressError>;

/// Calls `<pnet::util::MacAddr as FromStr>::from_str`.
///
/// Trusted: the outcome is a function of the text alone, named
/// [`parsed_address`]; nothing more is claimed of it.
#[verifier::external_body]
fn mac_addr_from_str(text: &str) -> (outcome: Result<HardwareAddress, AddressError>)
    ensures
        outcome == parsed_address(text@),
{
    match text.parse::<pnet::util::MacAddr>() {
        Ok(mac) => Ok(HardwareAddress::from_octets(mac.octets())),
        Err(pnet::util::ParseMacAddrErr::TooManyComponents) => Err(AddressError::TooManyComponents),
        Err(pnet::util::ParseMacAddrErr::TooFewComponents) => Err(AddressError::TooFewComponents),
        Err(pnet::util::ParseMacAddrErr::InvalidComponent) => Err(AddressError::InvalidComponent),
    }
}

impl HardwareAddress {
    /// The six bytes of the address as a sequence, in transmission order.
    pub open spec fn octet_seq(self) -> Seq<u8> {
        seq![self.0, self.1, self.2, self.3, self.4, self.5]
    }

    /// Builds an address from its six bytes.
    pub fn new(a: u8, b: u8, c: u8, d: u8, e: u8, f: u8) -> (address: HardwareAddress)
        ensures
            address == HardwareAddress(a, b, c, d, e, f),
    {
        HardwareAddress(a, b, c, d, e, f)
    }

    /// Builds an address from its six bytes, given in transmission order.
    pub fn from_octets(octets: [u8; 6]) -> (address: HardwareAddress)
        ensures
            address.octet_seq() == octets@,
            address == HardwareAddress(
                octets[0],
                octets[1],
                octets[2],
                octets[3],
                octets[4],
                octets[5],
            ),
    {
        let address = HardwareAddress(
            octets[0],
            octets[1],
            octets[2],
            octets[3],
            octets[4],
            octets[5],
        );
        address
    }

    /// The six bytes of the address, in transmission order.
    pub fn octets(self) -> (bytes: [u8; 6])
        ensures
            bytes@ == self.octet_seq(),
    {
        let bytes = [self.0, self.1, self.2, self.3, self.4, self.5];
        bytes
    }

    /// Reads an address written as six colon-separated hexadecimal bytes,
    /// such as `00:1b:21:3a:4f:90`.
    pub fn parse(text: &str) -> (outcome: Result<HardwareAddress, AddressError>)
        ensures
            outcome == parsed_address(text@),
    {
        mac_addr_from_str(text)
    }
}

} // verus!
