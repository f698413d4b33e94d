//! Module event model for the token-transfer application: each lifecycle
//! outcome maps to a uniform event of a kind string plus an ordered list of
//! key/value attributes. Construction is total and attribute order is part
//! of the observable contract.

use vstd::prelude::*;

use crate::strutil::{bool_to_string, dec_digits, u64_to_dec};

verus! {

/// A party identifier on either chain, as an opaque address string.
#[derive(Clone, Debug, PartialEq, Eq)]
pub struct Signer(pub String);

/// A non-negative token magnitude.
#[derive(Clone, Copy, Debug, PartialEq, Eq, Structural)]
pub struct Amount(pub u64);

/// Token identity: the trace path of channel hops the token has crossed
/// (empty for a native token) plus the base denomination.
#[derive(Clone, Debug, PartialEq, Eq)]
pub struct PrefixedDenom {
    pub trace_path: String,
    pub base_denom: String,
}

impl PrefixedDenom {
    /// The full denomination string: `trace_path/base_denom`, or the bare
    /// base denomination when the trace path is empty.
    pub open spec fn spec_display(self) -> Seq<char> {
        if self.trace_path@.len() == 0 {
            self.base_denom@
        } else {
            self.trace_path@ + seq!['/'] + self.base_denom@
        }
    }

    /// Renders the full denomination string.
    pub fn to_display_string(&self) -> (s: String)
        ensures
            s@ == self.spec_display(),
    {
        if self.trace_path.as_str().is_empty() {
            self.base_denom.clone()
        } else {
            let mut s = self.trace_path.clone();
            s.push('/');
            s.push_str(self.base_denom.as_str());
            s
        }
    }
}

/// Application-defined success or error payload committed by the receiving
/// chain and proven back to the sender.
#[derive(Clone, Debug, PartialEq, Eq)]
pub enum TokenTransferAcknowledgement {
    Success(String),
    Error(String),
}

impl TokenTransferAcknowledgement {
    /// The raw payload carried by either variant.
    pub open spec fn spec_payload(self) -> Seq<char> {
        match self {
            TokenTransferAcknowledgement::Success(s) => s@,
            TokenTransferAcknowledgement::Error(s) => s@,
        }
    }

    pub open spec fn spec_is_success(self) -> bool {
        self is Success
    }

    /// Extracts the raw payload.
    pub fn payload_string(&self) -> (s: String)
        ensures
            s@ == self.spec_payload(),
    {
        match self {
            TokenTransferAcknowledgement::Success(s) => s.clone(),
            TokenTransferAcknowledgement::Error(s) => s.clone(),
        }
    }
}

/// One key/value pair of an emitted event.
#[derive(Clone, Debug, PartialEq, Eq)]
pub struct ModuleEventAttribute {
    pub key: String,
    pub value: String,
}

/// An emitted event: a kind string plus attributes in insertion order;
/// write-once, never mutated after construction.
#[derive(Clone, Debug, PartialEq, Eq)]
pub struct ModuleEvent {
    pub kind: String,
    pub attributes: Vec<ModuleEventAttribute>,
}

fn attr(key: &str, value: String) -> (a: ModuleEventAttribute)
    ensures
        a.key@ == key@,
        a.value@ == value@,
{
    ModuleEventAttribute { key: key.to_owned(), value }
}

/// A packet was received and the transfer applied (or refused).
#[derive(Clone, Debug, PartialEq, Eq)]
pub struct RecvEvent {
    pub sender: Signer,
    pub receiver: Signer,
    pub denom: PrefixedDenom,
    pub amount: Amount,
    pub success: bool,
}

impl RecvEvent {
    /// Emits the receive outcome: kind `fungible_token_packet`, attributes
    /// in the order module, sender, receiver, denom, amount, success.
    pub fn into_module_event(self) -> (ev: ModuleEvent)
        ensures
            ev.kind@ == "fungible_token_packet"@,
            ev.attributes@.len() == 6,
            ev.attributes@[0].key@ == "module"@ && ev.attributes@[0].value@ == "transfer"@,
            ev.attributes@[1].key@ == "sender"@ && ev.attributes@[1].value@ == self.sender.0@,
            ev.attributes@[2].key@ == "receiver"@ && ev.attributes@[2].value@ == self.receiver.0@,
            ev.attributes@[3].key@ == "denom"@ && ev.attributes@[3].value@
                == self.denom.spec_display(),
            ev.attributes@[4].key@ == "amount"@ && ev.attributes@[4].value@
                == dec_digits(self.amount.0 as nat),
            ev.attributes@[5].key@ == "success"@ && ev.attributes@[5].value@
                == (if self.success { "true"@ } else { "false"@ }),
    {
        let mut attributes: Vec<ModuleEventAttribute> = Vec::new();
        attributes.push(attr("module", "transfer".to_owned()));
        attributes.push(attr("sender", self.sender.0.clone()));
        attributes.push(attr("receiver", self.receiver.0.clone()));
        attributes.push(attr("denom", self.denom.to_display_string()));
        attributes.push(attr("amount", u64_to_dec(self.amount.0)));
        attributes.push(attr("success", bool_to_string(self.success)));
        ModuleEvent { kind: "fungible_token_packet".to_owned(), attributes }
    }
}

/// A sent packet was acknowledged by the counterparty.
#[derive(Clone, Debug, PartialEq, Eq)]
pub struct AckEvent {
    pub sender: Signer,
    pub receiver: Signer,
    pub denom: PrefixedDenom,
    pub amount: Amount,
    pub acknowledgement: TokenTransferAcknowledgement,
}

impl AckEvent {
    /// Emits the acknowledgement outcome: kind `fungible_token_packet`,
    /// attributes in the order module, sender, receiver, denom, amount,
    /// acknowledgement.
    pub fn into_module_event(self) -> (ev: ModuleEvent)
        ensures
            ev.kind@ == "fungible_token_packet"@,
            ev.attributes@.len() == 6,
            ev.attributes@[0].key@ == "module"@ && ev.attributes@[0].value@ == "transfer"@,
            ev.attributes@[1].key@ == "sender"@ && ev.attributes@[1].value@ == self.sender.0@,
            ev.attributes@[2].key@ == "receiver"@ && ev.attributes@[2].value@ == self.receiver.0@,
            ev.attributes@[3].key@ == "denom"@ && ev.attributes@[3].value@
                == self.denom.spec_display(),
            ev.attributes@[4].key@ == "amount"@ && ev.attributes@[4].value@
                == dec_digits(self.amount.0 as nat),
            ev.attributes@[5].key@ == "acknowledgement"@ && ev.attributes@[5].value@
                == self.acknowledgement.spec_payload(),
    {
        let mut attributes: Vec<ModuleEventAttribute> = Vec::new();
        attributes.push(attr("module", "transfer".to_owned()));
        attributes.push(attr("sender", self.sender.0.clone()));
        attributes.push(attr("receiver", self.receiver.0.clone()));
        attributes.push(attr("denom", self.denom.to_display_string()));
        attributes.push(attr("amount", u64_to_dec(self.amount.0)));
        attributes.push(attr("acknowledgement", self.acknowledgement.payload_string()));
        ModuleEvent { kind: "fungible_token_packet".to_owned(), attributes }
    }
}

/// Only the status of an acknowledgement, keyed by its variant.
#[derive(Clone, Debug, PartialEq, Eq)]
pub struct AckStatusEvent {
    pub acknowledgement: TokenTransferAcknowledgement,
}

impl AckStatusEvent {
    /// Emits the acknowledgement status: kind `fungible_token_packet`, one
    /// attribute keyed `success` or `error` by the variant, valued with the
    /// raw payload.
    pub fn into_module_event(self) -> (ev: ModuleEvent)
        ensures
            ev.kind@ == "fungible_token_packet"@,
            ev.attributes@.len() == 1,
            self.acknowledgement.spec_is_success() ==> ev.attributes@[0].key@ == "success"@,
            !self.acknowledgement.spec_is_success() ==> ev.attributes@[0].key@ == "error"@,
            ev.attributes@[0].value@ == self.acknowledgement.spec_payload(),
    {
        let label: &str = match &self.acknowledgement {
            TokenTransferAcknowledgement::Success(_) => "success",
            TokenTransferAcknowledgement::Error(_) => "error",
        };
        let mut attributes: Vec<ModuleEventAttribute> = Vec::new();
        attributes.push(attr(label, self.acknowledgement.payload_string()));
        ModuleEvent { kind: "fungible_token_packet".to_owned(), attributes }
    }
}

/// A sent packet timed out and the escrowed funds are refunded.
#[derive(Clone, Debug, PartialEq, Eq)]
pub struct TimeoutEvent {
    pub refund_receiver: Signer,
    pub refund_denom: PrefixedDenom,
    pub refund_amount: Amount,
}

impl TimeoutEvent {
    /// Emits the timeout outcome: kind `timeout`, attributes in the order
    /// module, refund_receiver, refund_denom, refund_amount.
    pub fn into_module_event(self) -> (ev: ModuleEvent)
        ensures
            ev.kind@ == "timeout"@,
            ev.attributes@.len() == 4,
            ev.attributes@[0].key@ == "module"@ && ev.attributes@[0].value@ == "transfer"@,
            ev.attributes@[1].key@ == "refund_receiver"@ && ev.attributes@[1].value@
                == self.refund_receiver.0@,
            ev.attributes@[2].key@ == "refund_denom"@ && ev.attributes@[2].value@
                == self.refund_denom.spec_display(),
            ev.attributes@[3].key@ == "refund_amount"@ && ev.attributes@[3].value@
                == dec_digits(self.refund_amount.0 as nat),
    {
        let mut attributes: Vec<ModuleEventAttribute> = Vec::new();
        attributes.push(attr("module", "transfer".to_owned()));
        attributes.push(attr("refund_receiver", self.refund_receiver.0.clone()));
        attributes.push(attr("refund_denom", self.refund_denom.to_display_string()));
        attributes.push(attr("refund_amount", u64_to_dec(self.refund_amount.0)));
        ModuleEvent { kind: "timeout".to_owned(), attributes }
    }
}

/// A denomination trace became known to this chain.
#[derive(Clone, Debug, PartialEq, Eq)]
pub struct DenomTraceEvent {
    pub trace_hash: Option<String>,
    pub denom: PrefixedDenom,
}

impl DenomTraceEvent {
    /// Emits the trace registration: kind `denomination_trace`, the denom
    /// attribute, then the trace hash only when one was newly registered.
    pub fn into_module_event(self) -> (ev: ModuleEvent)
        ensures
            ev.kind@ == "denomination_trace"@,
            ev.attributes@[0].key@ == "denom"@ && ev.attributes@[0].value@
                == self.denom.spec_display(),
            self.trace_hash is Some ==> ev.attributes@.len() == 2
                && ev.attributes@[1].key@ == "trace_hash"@ && ev.attributes@[1].value@
                == self.trace_hash->0@,
            self.trace_hash is None ==> ev.attributes@.len() == 1,
    {
        let mut attributes: Vec<ModuleEventAttribute> = Vec::new();
        attributes.push(attr("denom", self.denom.to_display_string()));
        if let Some(hash) = self.trace_hash {
            attributes.push(attr("trace_hash", hash));
        }
        ModuleEvent { kind: "denomination_trace".to_owned(), attributes }
    }
}

/// A transfer was initiated on this chain.
#[derive(Clone, Debug, PartialEq, Eq)]
pub struct TransferEvent {
    pub sender: Signer,
    pub receiver: Signer,
    pub amount: Amount,
    pub denom: PrefixedDenom,
}

impl TransferEvent {
    /// Emits the transfer initiation: kind `ibc_transfer`, attributes always
    /// in the order sender, receiver, amount, denom.
    pub fn into_module_event(self) -> (ev: ModuleEvent)
        ensures
            ev.kind@ == "ibc_transfer"@,
            ev.attributes@.len() == 4,
            ev.attributes@[0].key@ == "sender"@ && ev.attributes@[0].value@ == self.sender.0@,
            ev.attributes@[1].key@ == "receiver"@ && ev.attributes@[1].value@ == self.receiver.0@,
            ev.attributes@[2].key@ == "amount"@ && ev.attributes@[2].value@
                == dec_digits(self.amount.0 as nat),
            ev.attributes@[3].key@ == "denom"@ && ev.attributes@[3].value@
                == self.denom.spec_display(),
    {
        let mut attributes: Vec<ModuleEventAttribute> = Vec::new();
        attributes.push(attr("sender", self.sender.0.clone()));
        attributes.push(attr("receiver", self.receiver.0.clone()));
        attributes.push(attr("amount", u64_to_dec(self.amount.0)));
        attributes.push(attr("denom", self.denom.to_display_string()));
        ModuleEvent { kind: "ibc_transfer".to_owned(), attributes }
    }
}

/// The tagged union of all token-transfer lifecycle outcomes.
#[derive(Clone, Debug, PartialEq, Eq)]
pub enum Event {
    Recv(RecvEvent),
    Ack(AckEvent),
    AckStatus(AckStatusEvent),
    Timeout(TimeoutEvent),
    DenomTrace(DenomTraceEvent),
    Transfer(TransferEvent),
}

impl Event {
    /// Dispatches to the per-variant conversion; each variant keeps its own
    /// kind and attribute order.
    pub fn into_module_event(self) -> (ev: ModuleEvent)
        ensures
            self is Recv ==> ev.kind@ == "fungible_token_packet"@ && ev.attributes@.len() == 6,
            self is Ack ==> ev.kind@ == "fungible_token_packet"@ && ev.attributes@.len() == 6,
            self is AckStatus ==> ev.kind@ == "fungible_token_packet"@ && ev.attributes@.len()
                == 1,
            self is Timeout ==> ev.kind@ == "timeout"@ && ev.attributes@.len() == 4,
            self is DenomTrace ==> ev.kind@ == "denomination_trace"@,
            self is Transfer ==> ev.kind@ == "ibc_transfer"@ && ev.attributes@.len() == 4,
    {
        match self {
            Event::Recv(ev) => ev.into_module_event(),
            Event::Ack(ev) => ev.into_module_event(),
            Event::AckStatus(ev) => ev.into_module_event(),
            Event::Timeout(ev) => ev.into_module_event(),
            Event::DenomTrace(ev) => ev.into_module_event(),
            Event::Transfer(ev) => ev.into_module_event(),
        }
    }
}

} // verus!
