use regtest_gateway::address::{validate_address, validation_outcome, Decoding};
use regtest_gateway::error::GatewayError;
use regtest_gateway::gateway::{
    list_utxos_outcome, network_info_outcome, plan_list_utxos, publish_outcome, TransactionRequest,
    MAX_CONFIRMATIONS, MIN_CONFIRMATIONS,
};
use regtest_gateway::utxo::{map_utxo, map_utxos, UpstreamUtxo};

const REGTEST_ADDRESS: &str = "bcrt1q2nfxmhd4n3c8834pj72xagvyr9gl57n5r94fsl";
const MAINNET_SEGWIT: &str = "bc1qvzvkjn4q3nszqxrv3nraga2r822xjty3ykvkuw";
const MAINNET_LEGACY: &str = "1QJVDzdqb1VpbDK7uDeyVXy9mR27CJiyhY";

fn record(txid: &str, vout: u32, amount_sat: u64, address: Option<&str>) -> UpstreamUtxo {
    UpstreamUtxo {
        txid: txid.to_string(),
        vout,
        amount_sat,
        address: address.map(|a| a.to_string()),
    }
}

#[test]
fn regtest_address_is_accepted() {
    let a = validate_address(&REGTEST_ADDRESS.to_string()).unwrap();
    assert_eq!(a.as_string(), REGTEST_ADDRESS);
}

#[test]
fn undecodable_address_is_invalid_format() {
    for text in ["bcrt1qexampleaddress", "", "not an address", "bcrt1q2nfxmhd4n3c8834pj72xagvyr9gl57n5r94fsm"] {
        match validate_address(&text.to_string()) {
            Err(GatewayError::InvalidAddressFormat(m)) => assert!(!m.is_empty()),
            other => panic!("unexpected outcome for {text:?}: {:?}", other.map(|a| a.as_string().clone())),
        }
    }
}

#[test]
fn mainnet_address_is_network_mismatch() {
    for text in [MAINNET_SEGWIT, MAINNET_LEGACY] {
        match validate_address(&text.to_string()) {
            Err(GatewayError::NetworkMismatch(m)) => assert!(!m.is_empty()),
            other => panic!("unexpected outcome for {text:?}: {:?}", other.map(|a| a.as_string().clone())),
        }
    }
}

#[test]
fn invalid_address_yields_no_upstream_query() {
    let r = plan_list_utxos(&"bcrt1qexampleaddress".to_string());
    assert!(matches!(r, Err(GatewayError::InvalidAddressFormat(_))));
}

#[test]
fn foreign_network_address_yields_no_upstream_query() {
    let r = plan_list_utxos(&MAINNET_SEGWIT.to_string());
    assert!(matches!(r, Err(GatewayError::NetworkMismatch(_))));
}

#[test]
fn regtest_address_yields_the_unspent_query() {
    let q = plan_list_utxos(&REGTEST_ADDRESS.to_string()).unwrap();
    assert_eq!(q.min_conf, 0);
    assert_eq!(q.max_conf, 9_999_999);
    assert_eq!(MIN_CONFIRMATIONS, 0);
    assert_eq!(MAX_CONFIRMATIONS, 9_999_999);
    assert_eq!(q.address.as_string(), REGTEST_ADDRESS);
}

#[test]
fn zero_unspent_outputs_is_an_empty_list() {
    let q = plan_list_utxos(&REGTEST_ADDRESS.to_string());
    assert!(q.is_ok());
    let r = list_utxos_outcome(Ok(Vec::new())).unwrap();
    assert!(r.is_empty());
}

#[test]
fn one_unspent_output_of_half_a_coin() {
    let txid = "4a5e1e4baab89f3a32518a88c31bc87f618f76673e2cc77ab2127b7afdeda33b";
    let r = list_utxos_outcome(Ok(vec![record(txid, 0, 50_000_000, Some(REGTEST_ADDRESS))])).unwrap();
    assert_eq!(r.len(), 1);
    assert_eq!(r[0].txid, txid);
    assert_eq!(r[0].vout, 0);
    assert_eq!(r[0].amount_sat, 50_000_000);
    assert_eq!(r[0].address, REGTEST_ADDRESS);
}

#[test]
fn missing_owner_is_rendered_unknown() {
    let r = map_utxo(&record("aa", 3, 1_000, None)).unwrap();
    assert_eq!(r.address, "unknown");
    assert_eq!(r.txid, "aa");
    assert_eq!(r.vout, 3);
    assert_eq!(r.amount_sat, 1_000);
}

#[test]
fn missing_owner_is_never_dropped() {
    let recs = vec![
        record("aa", 0, 10, Some(REGTEST_ADDRESS)),
        record("bb", 1, 20, None),
        record("cc", 2, 30, Some(REGTEST_ADDRESS)),
    ];
    let r = map_utxos(&recs).unwrap();
    assert_eq!(r.len(), 3);
    assert_eq!(r[0].txid, "aa");
    assert_eq!(r[1].txid, "bb");
    assert_eq!(r[1].address, "unknown");
    assert_eq!(r[2].txid, "cc");
    assert_eq!(r[2].amount_sat, 30);
}

#[test]
fn foreign_owner_fails_the_listing() {
    let recs = vec![record("aa", 0, 10, None), record("bb", 1, 20, Some(MAINNET_SEGWIT))];
    assert!(matches!(map_utxos(&recs), Err(GatewayError::NetworkMismatch(_))));
    let recs = vec![record("aa", 0, 10, Some("garbage"))];
    assert!(matches!(list_utxos_outcome(Ok(recs)), Err(GatewayError::InvalidAddressFormat(_))));
}

#[test]
fn upstream_failure_of_listing() {
    match list_utxos_outcome(Err("connection refused".to_string())) {
        Err(GatewayError::UpstreamError(m)) => assert_eq!(m, "connection refused"),
        _ => panic!("expected an upstream error"),
    }
}

#[test]
fn missing_transaction_field_is_malformed() {
    let r = TransactionRequest::from_body_field(None);
    assert!(matches!(r, Err(GatewayError::RequestMalformed(_))));
    let r = TransactionRequest::from_body_field(Some("deadbeef".to_string())).unwrap();
    assert_eq!(r.transaction, "deadbeef");
}

#[test]
fn network_info_passes_through() {
    let info = "{\"version\":270000,\"subversion\":\"/Satoshi:27.0.0/\"}".to_string();
    assert_eq!(network_info_outcome(Ok(info.clone())).unwrap(), info);
    match network_info_outcome::<String>(Err("daemon down".to_string())) {
        Err(e) => {
            assert!(matches!(e, GatewayError::UpstreamError(_)));
            assert_eq!(e.message(), "daemon down");
        }
        Ok(_) => panic!("expected an upstream error"),
    }
}

#[test]
fn rejected_transaction_reports_the_rejection() {
    let rejection = "TX decode failed".to_string();
    match publish_outcome(Err(rejection.clone())) {
        Err(e) => {
            assert!(matches!(e, GatewayError::UpstreamError(_)));
            assert!(e.message().contains("TX decode failed"));
        }
        Ok(_) => panic!("expected a rejection"),
    }
    let txid = "4a5e1e4baab89f3a32518a88c31bc87f618f76673e2cc77ab2127b7afdeda33b".to_string();
    assert_eq!(publish_outcome(Ok(txid.clone())).unwrap().txid, txid);
}

#[test]
fn error_messages_are_carried() {
    assert_eq!(GatewayError::RequestMalformed("a".to_string()).message(), "a");
    assert_eq!(GatewayError::InvalidAddressFormat("b".to_string()).message(), "b");
    assert_eq!(GatewayError::NetworkMismatch("c".to_string()).message(), "c");
    assert_eq!(GatewayError::UpstreamError("d".to_string()).message(), "d");
}

#[test]
fn decoding_outcomes_map_to_error_kinds() {
    assert!(validation_outcome(Decoding::Regtest).is_ok());
    match validation_outcome(Decoding::Undecodable("bad checksum".to_string())) {
        Err(GatewayError::InvalidAddressFormat(m)) => assert_eq!(m, "bad checksum"),
        _ => panic!("expected an invalid format"),
    }
    match validation_outcome(Decoding::OtherNetwork("wrong network".to_string())) {
        Err(GatewayError::NetworkMismatch(m)) => assert_eq!(m, "wrong network"),
        _ => panic!("expected a network mismatch"),
    }
}
