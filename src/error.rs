use vstd::prelude::*;

verus! {

/// The four failure kinds of the gateway, each carrying a human-readable message.
#[derive(Debug)]
pub enum GatewayError {
    /// The request body lacks the `transaction` field or is not valid JSON.
    RequestMalformed(String),
    /// The address text does not decode as an address.
    InvalidAddressFormat(String),
    /// The address decodes but is not valid on the regtest network.
    NetworkMismatch(String),
    /// The upstream daemon failed or rejected the call.
    UpstreamError(String),
}

impl GatewayError {
    /// The message carried by the error, whatever its kind.
    pub open spec fn message_view(&self) -> Seq<char> {
        match self {
            GatewayError::RequestMalformed(m) => m@,
            GatewayError::InvalidAddressFormat(m) => m@,
            GatewayError::NetworkMismatch(m) => m@,
            GatewayError::UpstreamError(m) => m@,
        }
    }

    pub fn message(&self) -> (r: String)
        ensures
            r@ == self.message_view(),
    {
        match self {
            GatewayError::RequestMalformed(m) => m.clone(),
            GatewayError::InvalidAddressFormat(m) => m.clone(),
            GatewayError::NetworkMismatch(m) => m.clone(),
            GatewayError::UpstreamError(m) => m.clone(),
        }
    }
}

} // verus!
