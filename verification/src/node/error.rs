//! Errors of the node firmware.

use vstd::prelude::*;
use vstd::string::*;

use crate::text::{
    decimal_text, hex_text, push_decimal, push_hex, push_signed, signed_text,
};

verus! {

/// Errors produced by the node firmware.
#[derive(Clone, Debug, PartialEq, Eq)]
pub enum NodeError {
    /// An inbound frame failed authentication.
    AuthFailure,
    /// The nonce or sequence number echoed in a response is not the one sent.
    ResponseBindingMismatch,
    /// A frame has an unexpected or unknown message type.
    UnexpectedMsgType(u8),
    /// A payload could not be decoded.
    MalformedPayload(String),
    /// A send or receive failed in the transport.
    Transport(&'static str),
    /// No pre-shared key is provisioned: the node is unpaired.
    Unpaired,
    /// The hash of a transferred program does not match.
    ProgramHashMismatch,
    /// A program image could not be decoded.
    ProgramDecodeFailed(String),
    /// Map definitions exceed the sleep-persistent memory.
    MapBudgetExceeded { required: usize, available: usize },
    /// A map key is out of bounds.
    MapKeyOutOfBounds { key: u32, max_entries: u32 },
    /// A BPF program failed.
    BpfError(String),
    /// A BPF helper returned an error.
    HelperError { helper_id: u32, code: i64 },
    /// The helper is not permitted for ephemeral programs.
    EphemeralRestriction { helper_id: u32 },
    /// A chunk could not be transferred after all retries.
    ChunkTransferFailed { chunk_index: u32 },
    /// The gateway did not answer any WAKE.
    WakeRetriesExhausted,
    /// No response in time.
    Timeout,
    /// A flash storage operation failed.
    StorageError(&'static str),
    /// A CHUNK response has the wrong index.
    ChunkIndexMismatch { expected: u32, received: u32 },
    /// The gateway requested a reboot.
    RebootRequested,
}

/// Result of a node operation.
pub type NodeResult<T> = Result<T, NodeError>;

/// The text of an error.
pub open spec fn error_text(error: NodeError) -> Seq<char> {
    match error {
        NodeError::AuthFailure => "HMAC verification failed"@,
        NodeError::ResponseBindingMismatch => "response binding mismatch"@,
        NodeError::UnexpectedMsgType(t) => "unexpected msg_type: 0x"@ + hex_text(t),
        NodeError::MalformedPayload(msg) => "malformed payload: "@ + msg@,
        NodeError::Transport(msg) => "transport error: "@ + msg@,
        NodeError::Unpaired => "node is unpaired (no PSK)"@,
        NodeError::ProgramHashMismatch => "program hash mismatch"@,
        NodeError::ProgramDecodeFailed(msg) => "program decode failed: "@ + msg@,
        NodeError::MapBudgetExceeded { required, available } => "map budget exceeded: need "@
            + decimal_text(required as nat) + " bytes, have "@ + decimal_text(available as nat)
            + " bytes"@,
        NodeError::MapKeyOutOfBounds { key, max_entries } => "map key "@ + decimal_text(key as nat)
            + " out of bounds (max "@ + decimal_text(max_entries as nat) + ")"@,
        NodeError::BpfError(msg) => "BPF error: "@ + msg@,
        NodeError::HelperError { helper_id, code } => "helper "@ + decimal_text(helper_id as nat)
            + " returned error "@ + signed_text(code as int),
        NodeError::EphemeralRestriction { helper_id } => "helper "@ + decimal_text(helper_id as nat)
            + " not permitted for ephemeral programs"@,
        NodeError::ChunkTransferFailed { chunk_index } => "chunk transfer failed at index "@
            + decimal_text(chunk_index as nat),
        NodeError::WakeRetriesExhausted => "WAKE retries exhausted"@,
        NodeError::Timeout => "response timeout"@,
        NodeError::StorageError(msg) => "storage error: "@ + msg@,
        NodeError::ChunkIndexMismatch { expected, received } => "chunk index mismatch: expected "@
            + decimal_text(expected as nat) + ", received "@ + decimal_text(received as nat),
        NodeError::RebootRequested => "reboot requested"@,
    }
}

/// Put a fixed text in front of a detail.
fn with_detail(prefix: &str, detail: &str) -> (text: String)
    ensures
        text@ == prefix@ + detail@,
{
    let mut text = String::from_str(prefix);
    text.append(detail);
    text
}

/// Put a fixed text in front of a number.
fn with_number(prefix: &str, n: u64) -> (text: String)
    ensures
        text@ == prefix@ + decimal_text(n as nat),
{
    let mut text = String::from_str(prefix);
    push_decimal(&mut text, n);
    text
}

impl NodeError {
    /// The text of the error.
    pub fn message(&self) -> (text: String)
        ensures
            text@ == error_text(*self),
    {
        match self {
            NodeError::AuthFailure => String::from_str("HMAC verification failed"),
            NodeError::ResponseBindingMismatch => String::from_str("response binding mismatch"),
            NodeError::UnexpectedMsgType(t) => {
                let mut text = String::from_str("unexpected msg_type: 0x");
                push_hex(&mut text, *t);
                text
            },
            NodeError::MalformedPayload(msg) => with_detail("malformed payload: ", msg.as_str()),
            NodeError::Transport(msg) => with_detail("transport error: ", msg),
            NodeError::Unpaired => String::from_str("node is unpaired (no PSK)"),
            NodeError::ProgramHashMismatch => String::from_str("program hash mismatch"),
            NodeError::ProgramDecodeFailed(msg) => with_detail("program decode failed: ", msg.as_str()),
            NodeError::MapBudgetExceeded { required, available } => {
                let mut text = with_number("map budget exceeded: need ", *required as u64);
                text.append(" bytes, have ");
                push_decimal(&mut text, *available as u64);
                text.append(" bytes");
                text
            },
            NodeError::MapKeyOutOfBounds { key, max_entries } => {
                let mut text = with_number("map key ", *key as u64);
                text.append(" out of bounds (max ");
                push_decimal(&mut text, *max_entries as u64);
                text.append(")");
                text
            },
            NodeError::BpfError(msg) => with_detail("BPF error: ", msg.as_str()),
            NodeError::HelperError { helper_id, code } => {
                let mut text = with_number("helper ", *helper_id as u64);
                text.append(" returned error ");
                push_signed(&mut text, *code);
                text
            },
            NodeError::EphemeralRestriction { helper_id } => {
                let mut text = with_number("helper ", *helper_id as u64);
                text.append(" not permitted for ephemeral programs");
                text
            },
            NodeError::ChunkTransferFailed { chunk_index } => with_number(
                "chunk transfer failed at index ",
                *chunk_index as u64,
            ),
            NodeError::WakeRetriesExhausted => String::from_str("WAKE retries exhausted"),
            NodeError::Timeout => String::from_str("response timeout"),
            NodeError::StorageError(msg) => with_detail("storage error: ", msg),
            NodeError::ChunkIndexMismatch { expected, received } => {
                let mut text = with_number("chunk index mismatch: expected ", *expected as u64);
                text.append(", received ");
                push_decimal(&mut text, *received as u64);
                text
            },
            NodeError::RebootRequested => String::from_str("reboot requested"),
        }
    }
}

/// The text of an error names what has failed and carries every detail of it.
pub proof fn law_error_texts_carry_details(error: NodeError)
    ensures
        error matches NodeError::UnexpectedMsgType(t) ==> error_text(error)
            == "unexpected msg_type: 0x"@ + hex_text(t),
        error matches NodeError::MalformedPayload(msg) ==> error_text(error)
            == "malformed payload: "@ + msg@,
        error matches NodeError::Transport(msg) ==> error_text(error) == "transport error: "@ + msg@,
        error matches NodeError::ProgramDecodeFailed(msg) ==> error_text(error)
            == "program decode failed: "@ + msg@,
        error matches NodeError::BpfError(msg) ==> error_text(error) == "BPF error: "@ + msg@,
        error matches NodeError::StorageError(msg) ==> error_text(error) == "storage error: "@
            + msg@,
        error matches NodeError::MapBudgetExceeded { required, available } ==> error_text(error)
            == "map budget exceeded: need "@ + decimal_text(required as nat) + " bytes, have "@
            + decimal_text(available as nat) + " bytes"@,
        error matches NodeError::MapKeyOutOfBounds { key, max_entries } ==> error_text(error)
            == "map key "@ + decimal_text(key as nat) + " out of bounds (max "@ + decimal_text(
            max_entries as nat,
        ) + ")"@,
        error matches NodeError::HelperError { helper_id, code } ==> error_text(error) == "helper "@
            + decimal_text(helper_id as nat) + " returned error "@ + signed_text(code as int),
        error matches NodeError::EphemeralRestriction { helper_id } ==> error_text(error)
            == "helper "@ + decimal_text(helper_id as nat)
            + " not permitted for ephemeral programs"@,
        error matches NodeError::ChunkTransferFailed { chunk_index } ==> error_text(error)
            == "chunk transfer failed at index "@ + decimal_text(chunk_index as nat),
        error matches NodeError::ChunkIndexMismatch { expected, received } ==> error_text(error)
            == "chunk index mismatch: expected "@ + decimal_text(expected as nat) + ", received "@
            + decimal_text(received as nat),
{
}

} // verus!
