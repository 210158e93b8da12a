use vstd::prelude::*;

use crate::address::{decodes_as_address, is_regtest_address, valid_on_regtest, validate_address};
use crate::error::GatewayError;

verus! {

/// One unspent output as the upstream daemon reported it, in plain values.
pub struct UpstreamUtxo {
    pub txid: String,
    pub vout: u32,
    /// The amount in satoshis.
    pub amount_sat: u64,
    /// The owning address, absent for non-standard scripts.
    pub address: Option<String>,
}

/// One unspent output as the gateway renders it.
pub struct UtxoResponse {
    pub txid: String,
    pub vout: u32,
    /// The amount in satoshis.
    pub amount_sat: u64,
    pub address: String,
}

/// The text rendered for a record without an owning address.
pub open spec fn unknown_address() -> Seq<char> {
    seq!['u', 'n', 'k', 'n', 'o', 'w', 'n']
}

/// Whether a record can be rendered: it has no address, or a regtest one.
pub open spec fn record_accepted(rec: UpstreamUtxo) -> bool {
    match rec.address {
        None => true,
        Some(a) => is_regtest_address(a@),
    }
}

/// The address text rendered for a record.
pub open spec fn rendered_address(rec: UpstreamUtxo) -> Seq<char> {
    match rec.address {
        None => unknown_address(),
        Some(a) => a@,
    }
}

/// `resp` is the rendering of `rec`: every field carried over, the address
/// replaced by "unknown" where it is missing.
pub open spec fn renders(resp: UtxoResponse, rec: UpstreamUtxo) -> bool {
    &&& resp.txid@ == rec.txid@
    &&& resp.vout == rec.vout
    &&& resp.amount_sat == rec.amount_sat
    &&& resp.address@ == rendered_address(rec)
}

/// `e` is the error that address validation gives for the text `a`.
pub open spec fn address_error(a: Seq<char>, e: GatewayError) -> bool {
    &&& (e is InvalidAddressFormat) == !decodes_as_address(a)
    &&& (e is NetworkMismatch) == (decodes_as_address(a) && !valid_on_regtest(a))
}

/// `e` is the error for the rejected record `rec`.
pub open spec fn record_error(rec: UpstreamUtxo, e: GatewayError) -> bool {
    match rec.address {
        None => false,
        Some(a) => address_error(a@, e),
    }
}

/// A record without an owning address is never rejected, and is rendered
/// with the address "unknown".
pub proof fn lemma_missing_owner_is_kept(rec: UpstreamUtxo)
    requires
        rec.address is None,
    ensures
        record_accepted(rec),
        rendered_address(rec) == unknown_address(),
{
}

/// Renders one upstream record. A record without an owning address is kept,
/// with the address "unknown"; one with an address is bound to regtest.
pub fn map_utxo(rec: &UpstreamUtxo) -> (r: Result<UtxoResponse, GatewayError>)
    ensures
        r is Ok <==> record_accepted(*rec),
        r is Ok ==> renders(r->Ok_0, *rec),
        r is Err ==> record_error(*rec, r->Err_0),
        rec.address is None ==> r is Ok,
{
    let address = match &rec.address {
        None => {
            proof {
                reveal_strlit("unknown");
            }
            let unknown = String::from_str("unknown");
            assert(unknown@ =~= unknown_address());
            unknown
        },
        Some(a) => match validate_address(a) {
            Ok(valid) => valid.as_string().clone(),
            Err(e) => {
                return Err(e);
            },
        },
    };
    Ok(UtxoResponse { txid: rec.txid.clone(), vout: rec.vout, amount_sat: rec.amount_sat, address })
}

/// Renders the upstream records in the order given. Fails with the error of
/// the first record whose address is not a regtest address.
pub fn map_utxos(recs: &Vec<UpstreamUtxo>) -> (r: Result<Vec<UtxoResponse>, GatewayError>)
    ensures
        r is Ok <==> forall|i: int| 0 <= i < recs@.len() ==> record_accepted(#[trigger] recs@[i]),
        r is Ok ==> r->Ok_0@.len() == recs@.len() && forall|i: int|
            0 <= i < recs@.len() ==> renders(#[trigger] r->Ok_0@[i], recs@[i]),
        r is Err ==> exists|i: int|
            0 <= i < recs@.len() && !record_accepted(#[trigger] recs@[i]) && record_error(
                recs@[i],
                r->Err_0,
            ) && forall|j: int| 0 <= j < i ==> record_accepted(#[trigger] recs@[j]),
{
    let mut out: Vec<UtxoResponse> = Vec::new();
    let mut i: usize = 0;
    while i < recs.len()
        invariant
            i <= recs@.len(),
            out@.len() == i,
            forall|j: int| 0 <= j < i ==> record_accepted(#[trigger] recs@[j]),
            forall|j: int| 0 <= j < i ==> renders(#[trigger] out@[j], recs@[j]),
        decreases recs@.len() - i,
    {
        match map_utxo(&recs[i]) {
            Ok(resp) => {
                out.push(resp);
            },
            Err(e) => {
                assert(!record_accepted(recs@[i as int]));
                return Err(e);
            },
        }
        i = i + 1;
    }
    Ok(out)
}

} // verus!
