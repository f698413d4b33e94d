use ibc::events::{
    AckEvent, AckStatusEvent, Amount, DenomTraceEvent, Event, ModuleEvent, PrefixedDenom,
    RecvEvent, Signer, TimeoutEvent, TokenTransferAcknowledgement, TransferEvent,
};

fn denom(trace: &str, base: &str) -> PrefixedDenom {
    PrefixedDenom {
        trace_path: trace.to_string(),
        base_denom: base.to_string(),
    }
}

fn keys(ev: &ModuleEvent) -> Vec<&str> {
    ev.attributes.iter().map(|a| a.key.as_str()).collect()
}

fn values(ev: &ModuleEvent) -> Vec<&str> {
    ev.attributes.iter().map(|a| a.value.as_str()).collect()
}

#[test]
fn transfer_event_attribute_order() {
    let ev = TransferEvent {
        sender: Signer("a".to_string()),
        receiver: Signer("b".to_string()),
        amount: Amount(5),
        denom: denom("", "atom"),
    }
    .into_module_event();
    assert_eq!(ev.kind, "ibc_transfer");
    assert_eq!(keys(&ev), vec!["sender", "receiver", "amount", "denom"]);
    assert_eq!(values(&ev), vec!["a", "b", "5", "atom"]);
}

#[test]
fn recv_event_attributes() {
    let ev = RecvEvent {
        sender: Signer("alice".to_string()),
        receiver: Signer("bob".to_string()),
        denom: denom("transfer/channel-0", "atom"),
        amount: Amount(1_000_000),
        success: true,
    }
    .into_module_event();
    assert_eq!(ev.kind, "fungible_token_packet");
    assert_eq!(
        keys(&ev),
        vec!["module", "sender", "receiver", "denom", "amount", "success"]
    );
    assert_eq!(
        values(&ev),
        vec![
            "transfer",
            "alice",
            "bob",
            "transfer/channel-0/atom",
            "1000000",
            "true"
        ]
    );
}

#[test]
fn ack_event_attributes() {
    let ev = AckEvent {
        sender: Signer("alice".to_string()),
        receiver: Signer("bob".to_string()),
        denom: denom("", "atom"),
        amount: Amount(0),
        acknowledgement: TokenTransferAcknowledgement::Error("insufficient funds".to_string()),
    }
    .into_module_event();
    assert_eq!(ev.kind, "fungible_token_packet");
    assert_eq!(
        keys(&ev),
        vec![
            "module",
            "sender",
            "receiver",
            "denom",
            "amount",
            "acknowledgement"
        ]
    );
    assert_eq!(ev.attributes[4].value, "0");
    assert_eq!(ev.attributes[5].value, "insufficient funds");
}

#[test]
fn ack_status_event_key_follows_variant() {
    let ok = AckStatusEvent {
        acknowledgement: TokenTransferAcknowledgement::Success("AQ==".to_string()),
    }
    .into_module_event();
    assert_eq!(ok.attributes.len(), 1);
    assert_eq!(ok.attributes[0].key, "success");
    assert_eq!(ok.attributes[0].value, "AQ==");

    let bad = AckStatusEvent {
        acknowledgement: TokenTransferAcknowledgement::Error("denied".to_string()),
    }
    .into_module_event();
    assert_eq!(bad.attributes.len(), 1);
    assert_eq!(bad.attributes[0].key, "error");
    assert_eq!(bad.attributes[0].value, "denied");
}

#[test]
fn timeout_event_attributes() {
    let ev = TimeoutEvent {
        refund_receiver: Signer("alice".to_string()),
        refund_denom: denom("", "atom"),
        refund_amount: Amount(42),
    }
    .into_module_event();
    assert_eq!(ev.kind, "timeout");
    assert_eq!(
        keys(&ev),
        vec!["module", "refund_receiver", "refund_denom", "refund_amount"]
    );
    assert_eq!(values(&ev), vec!["transfer", "alice", "atom", "42"]);
}

#[test]
fn denom_trace_event_hash_is_optional() {
    let without = DenomTraceEvent {
        trace_hash: None,
        denom: denom("transfer/channel-1", "uatom"),
    }
    .into_module_event();
    assert_eq!(without.kind, "denomination_trace");
    assert_eq!(keys(&without), vec!["denom"]);
    assert_eq!(values(&without), vec!["transfer/channel-1/uatom"]);

    let with = DenomTraceEvent {
        trace_hash: Some("ABC123".to_string()),
        denom: denom("", "uatom"),
    }
    .into_module_event();
    assert_eq!(keys(&with), vec!["denom", "trace_hash"]);
    assert_eq!(values(&with), vec!["uatom", "ABC123"]);
}

#[test]
fn event_dispatch_keeps_variant_kind() {
    let ev = Event::Transfer(TransferEvent {
        sender: Signer("a".to_string()),
        receiver: Signer("b".to_string()),
        amount: Amount(5),
        denom: denom("", "atom"),
    })
    .into_module_event();
    assert_eq!(ev.kind, "ibc_transfer");

    let ev = Event::AckStatus(AckStatusEvent {
        acknowledgement: TokenTransferAcknowledgement::Success("AQ==".to_string()),
    })
    .into_module_event();
    assert_eq!(ev.kind, "fungible_token_packet");
}

#[test]
fn amount_renders_in_decimal() {
    let cases: [(u64, &str); 4] = [
        (0, "0"),
        (7, "7"),
        (120, "120"),
        (u64::MAX, "18446744073709551615"),
    ];
    for (n, expected) in cases {
        let ev = TransferEvent {
            sender: Signer("s".to_string()),
            receiver: Signer("r".to_string()),
            amount: Amount(n),
            denom: denom("", "atom"),
        }
        .into_module_event();
        assert_eq!(ev.attributes[2].value, expected);
    }
}
