use std::str::FromStr;
use vstd::prelude::*;

use bitcoincore_rpc::bitcoin::address::NetworkUnchecked;
use bitcoincore_rpc::bitcoin::Network as BitcoinNetwork;

use crate::error::GatewayError;

verus! {

/// Whether the text decodes as an address of some network.
pub uninterp spec fn decodes_as_address(s: Seq<char>) -> bool;

/// Whether the decoded text is valid on the regtest network.
pub uninterp spec fn valid_on_regtest(s: Seq<char>) -> bool;

/// What decoding an address text and binding it to regtest gave.
pub enum Decoding {
    /// The text does not decode; the decoder's message.
    Undecodable(String),
    /// The text decodes to an address of another network; the binder's message.
    OtherNetwork(String),
    /// The text decodes to an address valid on regtest.
    Regtest,
}

/// Relies on `Address::<NetworkUnchecked>::from_str`, which succeeds exactly
/// when the text decodes, and on `require_network(Network::Regtest)` of the
/// decoded address, which succeeds exactly when it is valid on regtest. The
/// two calls stand in one wrapper because the decoded address cannot cross
/// into verified code. Messages are the errors' `Display`.
#[verifier::external_body]
fn decode_for_regtest(s: &str) -> (r: Decoding)
    ensures
        (r is Undecodable) == !decodes_as_address(s@),
        (r is OtherNetwork) == (decodes_as_address(s@) && !valid_on_regtest(s@)),
        (r is Regtest) == (decodes_as_address(s@) && valid_on_regtest(s@)),
{
    match bitcoincore_rpc::bitcoin::Address::<NetworkUnchecked>::from_str(s) {
        Err(e) => Decoding::Undecodable(e.to_string()),
        Ok(a) => match a.require_network(BitcoinNetwork::Regtest) {
            Err(e) => Decoding::OtherNetwork(e.to_string()),
            Ok(_) => Decoding::Regtest,
        },
    }
}

/// An address that decodes and is valid on the regtest network.
pub struct RegtestAddress {
    text: String,
}

impl RegtestAddress {
    pub closed spec fn view_text(&self) -> Seq<char> {
        self.text@
    }

    /// Every value of the type decodes and is valid on regtest.
    #[verifier::type_invariant]
    spec fn inv(&self) -> bool {
        is_regtest_address(self.text@)
    }

    /// The address text exactly as it was validated.
    pub fn as_string(&self) -> (r: &String)
        ensures
            r@ == self.view_text(),
            is_regtest_address(r@),
    {
        proof {
            use_type_invariant(self);
        }
        &self.text
    }
}

/// Whether `s` is an address that validation accepts.
pub open spec fn is_regtest_address(s: Seq<char>) -> bool {
    decodes_as_address(s) && valid_on_regtest(s)
}

/// The validation outcome for what decoding an address text gave: success
/// only for a regtest address, else the error of its kind with the message of
/// the decoder or of the network check.
pub fn validation_outcome(d: Decoding) -> (r: Result<(), GatewayError>)
    ensures
        r is Ok <==> d is Regtest,
        d matches Decoding::Undecodable(m) ==> (r matches Err(GatewayError::InvalidAddressFormat(
            e,
        )) && e@ == m@),
        d matches Decoding::OtherNetwork(m) ==> (r matches Err(GatewayError::NetworkMismatch(e))
            && e@ == m@),
{
    match d {
        Decoding::Undecodable(m) => Err(GatewayError::InvalidAddressFormat(m)),
        Decoding::OtherNetwork(m) => Err(GatewayError::NetworkMismatch(m)),
        Decoding::Regtest => Ok(()),
    }
}

/// Decodes `text` and binds it to the regtest network.
pub fn validate_address(text: &String) -> (r: Result<RegtestAddress, GatewayError>)
    ensures
        r is Ok <==> is_regtest_address(text@),
        r is Ok ==> r->Ok_0.view_text() == text@,
        (r matches Err(GatewayError::InvalidAddressFormat(_))) <==> !decodes_as_address(text@),
        (r matches Err(GatewayError::NetworkMismatch(_))) <==> decodes_as_address(text@)
            && !valid_on_regtest(text@),
        !(r matches Err(GatewayError::RequestMalformed(_))),
        !(r matches Err(GatewayError::UpstreamError(_))),
{
    match validation_outcome(decode_for_regtest(text.as_str())) {
        Ok(()) => Ok(RegtestAddress { text: text.clone() }),
        Err(e) => Err(e),
    }
}

} // verus!
