//! Record types persisted by the indexer and the verification scheduler,
//! and the plain-value inputs the two workers consume.
//!
//! Timestamps are kept as milliseconds since the Unix epoch; structured
//! payloads (extrinsic arguments, event data, contract metadata) are kept as
//! their serialized text.

use vstd::prelude::*;

verus! {

/// One finalized block row. Append-only, keyed by `number`.
#[derive(Debug, Clone)]
pub struct Block {
    pub number: i64,
    pub hash: String,
    pub parent_hash: String,
    pub timestamp: i64,
    pub extrinsics_count: i32,
    pub events_count: i32,
    pub finalized: bool,
    pub created_at: i64,
}

/// One extrinsic row. Append-only, keyed by `(block_number, index)`.
#[derive(Debug)]
pub struct Extrinsic {
    pub id: i64,
    pub block_number: i64,
    pub index: i32,
    pub hash: String,
    pub signer: Option<String>,
    pub pallet: String,
    pub call: String,
    pub args: String,
    pub success: bool,
    pub created_at: i64,
}

/// One event row. Append-only, keyed by `(block_number, index)`.
#[derive(Debug)]
pub struct Event {
    pub id: i64,
    pub block_number: i64,
    pub extrinsic_id: Option<i64>,
    pub index: i32,
    pub pallet: String,
    pub method: String,
    pub data: String,
    pub created_at: i64,
}

impl Clone for Extrinsic {
    fn clone(&self) -> (r: Self)
        ensures
            r == *self,
    {
        Extrinsic {
            id: self.id,
            block_number: self.block_number,
            index: self.index,
            hash: self.hash.clone(),
            signer: match &self.signer {
                Some(s) => Some(s.clone()),
                None => None,
            },
            pallet: self.pallet.clone(),
            call: self.call.clone(),
            args: self.args.clone(),
            success: self.success,
            created_at: self.created_at,
        }
    }
}

impl Clone for Event {
    fn clone(&self) -> (r: Self)
        ensures
            r == *self,
    {
        Event {
            id: self.id,
            block_number: self.block_number,
            extrinsic_id: self.extrinsic_id,
            index: self.index,
            pallet: self.pallet.clone(),
            method: self.method.clone(),
            data: self.data.clone(),
            created_at: self.created_at,
        }
    }
}

/// One deployed contract, keyed by `address`. Only the `verified` flag is
/// ever rewritten, and only from `false` to `true`.
#[derive(Debug, Clone)]
pub struct Contract {
    pub address: String,
    pub code_hash: String,
    pub deployer: String,
    pub deploy_block: Option<i64>,
    pub deploy_tx_hash: Option<String>,
    pub verified: bool,
    pub created_at: i64,
}

/// One source file submitted for verification.
#[derive(Debug, Clone)]
pub struct SourceFile {
    pub path: String,
    pub content: String,
}

/// Status of a verification request. `Success` and `Failed` are terminal.
#[derive(Debug, Clone, Copy, PartialEq, Eq, Structural)]
pub enum VerificationStatus {
    Pending,
    Building,
    Success,
    Failed,
}

/// One contract-source verification request, keyed by `id`.
/// `status`, `error_message` and `verified_at` are rewritten by the
/// scheduler; everything else is fixed at creation.
#[derive(Debug, Clone)]
pub struct ContractVerification {
    pub id: i32,
    pub contract_address: String,
    pub wasm_hash: String,
    pub metadata: String,
    pub source_files: Vec<SourceFile>,
    pub compiler_version: Option<String>,
    pub status: VerificationStatus,
    pub error_message: Option<String>,
    pub verified_at: Option<i64>,
    pub created_at: i64,
}

/// One account row, keyed by `address`.
#[derive(Debug, Clone)]
pub struct Account {
    pub address: String,
    pub balance: String,
    pub nonce: i64,
    pub last_updated_block: Option<i64>,
    pub last_updated_at: i64,
}

/// A decoded extrinsic as the decode adapter hands it over.
#[derive(Debug, Clone)]
pub struct ExtrinsicInput {
    pub index: u32,
    pub hash: String,
    pub signer: Option<String>,
    pub pallet: String,
    pub call: String,
    pub args: String,
    pub success: bool,
}

/// A decoded event as the decode adapter hands it over; its index within
/// the block is assigned by the ingestor.
#[derive(Debug, Clone)]
pub struct EventInput {
    pub pallet: String,
    pub method: String,
    pub data: String,
}

/// One finalized block as handed to the ingestor: header fields as raw
/// bytes, a processing timestamp, and the per-item decode outcomes.
#[derive(Debug)]
pub struct BlockInput {
    pub number: i64,
    pub hash: Vec<u8>,
    pub parent_hash: Vec<u8>,
    pub timestamp: i64,
    pub extrinsics: Vec<Result<ExtrinsicInput, String>>,
    pub events: Vec<Result<EventInput, String>>,
}

/// Outcome of one compile-and-compare run of the external verifier backend.
#[derive(Debug, Clone)]
pub enum VerificationResult {
    Verified { code_hash: String, metadata: String },
    HashMismatch { expected: String, actual: String },
    CompilationFailed(String),
}

} // verus!
