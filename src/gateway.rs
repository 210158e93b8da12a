use vstd::prelude::*;

use crate::address::{decodes_as_address, is_regtest_address, valid_on_regtest, validate_address, RegtestAddress};
use crate::error::GatewayError;
use crate::utxo::{map_utxos, record_accepted, record_error, renders, UpstreamUtxo, UtxoResponse};

verus! {

/// The fewest confirmations an output listed by the address query may have.
pub const MIN_CONFIRMATIONS: u32 = 0;

/// The most confirmations an output listed by the address query may have.
pub const MAX_CONFIRMATIONS: u32 = 9999999;

/// The body of a publish request: a signed transaction, hex-encoded.
pub struct TransactionRequest {
    pub transaction: String,
}

impl TransactionRequest {
    /// Builds the request from the body's `transaction` field, as decoded from
    /// JSON (`None` where the field is absent or not a string). Nothing beyond
    /// its presence is checked: the daemon validates the hex.
    pub fn from_body_field(field: Option<String>) -> (r: Result<TransactionRequest, GatewayError>)
        ensures
            r is Ok <==> field is Some,
            r is Ok ==> r->Ok_0.transaction@ == field->Some_0@,
            r is Err ==> r->Err_0 is RequestMalformed,
    {
        match field {
            Some(transaction) => Ok(TransactionRequest { transaction }),
            None => Err(GatewayError::RequestMalformed(String::from_str("missing field `transaction`"))),
        }
    }
}

/// The result of a publish: the identifier of the broadcast transaction.
pub struct TxResponse {
    pub txid: String,
}

/// The single upstream call that an address query makes.
pub struct UnspentQuery {
    pub min_conf: u32,
    pub max_conf: u32,
    pub address: RegtestAddress,
}

/// The upstream call for an address query: the address is validated first, and
/// only a regtest address yields a query. Any failure here is returned before
/// the upstream is contacted.
pub fn plan_list_utxos(text: &String) -> (r: Result<UnspentQuery, GatewayError>)
    ensures
        r is Ok <==> is_regtest_address(text@),
        r is Ok ==> r->Ok_0.address.view_text() == text@ && r->Ok_0.min_conf == MIN_CONFIRMATIONS
            && r->Ok_0.max_conf == MAX_CONFIRMATIONS,
        !decodes_as_address(text@) ==> (r matches Err(GatewayError::InvalidAddressFormat(_))),
        decodes_as_address(text@) && !valid_on_regtest(text@) ==> (r matches Err(
            GatewayError::NetworkMismatch(_),
        )),
{
    match validate_address(text) {
        Ok(address) => Ok(UnspentQuery { min_conf: MIN_CONFIRMATIONS, max_conf: MAX_CONFIRMATIONS, address }),
        Err(e) => Err(e),
    }
}

/// The outcome of a network-info call: the daemon's object passed through
/// verbatim, or its failure as an upstream error with the same message.
pub fn network_info_outcome<T>(upstream: Result<T, String>) -> (r: Result<T, GatewayError>)
    ensures
        upstream is Ok <==> r is Ok,
        upstream is Ok ==> r->Ok_0 == upstream->Ok_0,
        upstream is Err ==> (r->Err_0 is UpstreamError) && r->Err_0.message_view()
            == upstream->Err_0@,
{
    match upstream {
        Ok(info) => Ok(info),
        Err(m) => Err(GatewayError::UpstreamError(m)),
    }
}

/// The outcome of a broadcast: the daemon's transaction identifier, or its
/// rejection as an upstream error with the same message.
pub fn publish_outcome(upstream: Result<String, String>) -> (r: Result<TxResponse, GatewayError>)
    ensures
        upstream is Ok <==> r is Ok,
        upstream is Ok ==> r->Ok_0.txid@ == upstream->Ok_0@,
        upstream is Err ==> (r->Err_0 is UpstreamError) && r->Err_0.message_view()
            == upstream->Err_0@,
{
    match upstream {
        Ok(txid) => Ok(TxResponse { txid }),
        Err(m) => Err(GatewayError::UpstreamError(m)),
    }
}

/// The outcome of an address query: the upstream records rendered in the
/// order the daemon gave them, or the daemon's failure as an upstream error.
pub fn list_utxos_outcome(upstream: Result<Vec<UpstreamUtxo>, String>) -> (r: Result<
    Vec<UtxoResponse>,
    GatewayError,
>)
    ensures
        upstream is Err ==> (r->Err_0 is UpstreamError) && r->Err_0.message_view()
            == upstream->Err_0@,
        upstream is Ok ==> {
            let recs = upstream->Ok_0@;
            &&& r is Ok <==> forall|i: int| 0 <= i < recs.len() ==> record_accepted(#[trigger] recs[i])
            &&& r is Ok ==> r->Ok_0@.len() == recs.len() && forall|i: int|
                0 <= i < recs.len() ==> renders(#[trigger] r->Ok_0@[i], recs[i])
            &&& r is Err ==> exists|i: int|
                0 <= i < recs.len() && !record_accepted(#[trigger] recs[i]) && record_error(
                    recs[i],
                    r->Err_0,
                )
        },
        upstream matches Ok(v) && v@.len() == 0 ==> (r matches Ok(w) && w@.len() == 0),
{
    match upstream {
        Ok(recs) => map_utxos(&recs),
        Err(m) => Err(GatewayError::UpstreamError(m)),
    }
}

} // verus!
