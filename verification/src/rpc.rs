//! The programmatic query surface behind the RPC front end: the handlers
//! that read state and shape responses. Network transport, JSON framing and
//! transaction deserialization live outside the core; these handlers take
//! and return plain values.

use vstd::prelude::*;
use base64::Engine;
use crate::account::AccountStore;

verus! {

/// The base58 text of a byte string, as a function of the bytes alone.
pub uninterp spec fn base58_of(b: Seq<u8>) -> Seq<char>;

/// Relies on bs58::encode: pure base58 text of the input bytes.
#[verifier::external_body]
pub(crate) fn base58_encode(b: &[u8]) -> (r: String)
    requires
        b@.len() <= 0x10000000,
    ensures
        r@ == base58_of(b@),
{
    bs58::encode(b).into_string()
}

/// The padded base64 text of a byte string, as a function of the bytes
/// alone.
pub uninterp spec fn base64_of(b: Seq<u8>) -> Seq<char>;

/// Relies on base64's standard engine: pure padded base64 text of the input
/// bytes.
#[verifier::external_body]
pub(crate) fn base64_encode(b: &[u8]) -> (r: String)
    requires
        b@.len() <= 0x10000000,
    ensures
        r@ == base64_of(b@),
{
    base64::engine::general_purpose::STANDARD.encode(b)
}

/// Configuration of the RPC front end.
#[derive(Debug)]
pub struct RpcServerConfig {
    pub http_addr: String,
    pub ws_addr: String,
    pub verbose: bool,
}

impl Clone for RpcServerConfig {
    fn clone(&self) -> (r: Self)
        ensures
            r.http_addr@ == self.http_addr@,
            r.ws_addr@ == self.ws_addr@,
            r.verbose == self.verbose,
    {
        RpcServerConfig {
            http_addr: self.http_addr.clone(),
            ws_addr: self.ws_addr.clone(),
            verbose: self.verbose,
        }
    }
}

impl Default for RpcServerConfig {
    fn default() -> (r: Self)
        ensures
            r.http_addr@ == "127.0.0.1:8899"@,
            r.ws_addr@ == "127.0.0.1:8900"@,
            !r.verbose,
    {
        RpcServerConfig {
            http_addr: String::from_str("127.0.0.1:8899"),
            ws_addr: String::from_str("127.0.0.1:8900"),
            verbose: false,
        }
    }
}

/// The combined server's handle: it knows its two bind addresses.
#[derive(Debug)]
pub struct RpcServer {
    config: RpcServerConfig,
}

impl RpcServer {
    pub closed spec fn spec_config(&self) -> RpcServerConfig {
        self.config
    }

    pub fn new(config: RpcServerConfig) -> (r: Self)
        ensures
            r.spec_config() == config,
    {
        RpcServer { config }
    }

    /// The HTTP bind address.
    pub fn http_addr(&self) -> (r: &str)
        ensures
            r@ == self.spec_config().http_addr@,
    {
        self.config.http_addr.as_str()
    }

    /// The websocket bind address.
    pub fn ws_addr(&self) -> (r: &str)
        ensures
            r@ == self.spec_config().ws_addr@,
    {
        self.config.ws_addr.as_str()
    }
}

/// A submitted transaction as the front end receives it: base64 text.
#[derive(Debug)]
pub struct SendTransactionRequest {
    pub transaction: String,
    pub encoding: Option<String>,
}

/// An account lookup as the front end receives it: base58 text.
#[derive(Debug)]
pub struct GetAccountInfoRequest {
    pub pubkey: String,
    pub encoding: Option<String>,
}

/// How account data is rendered in a response.
#[derive(Debug, Clone, Copy, PartialEq, Eq, Structural)]
pub enum DataEncoding {
    Base58,
    Base64,
}

/// One account, rendered for a response.
#[derive(Debug)]
pub struct AccountInfo {
    pub data: (String, String),
    pub executable: bool,
    pub lamports: u64,
    pub owner: String,
    pub rent_epoch: u64,
}

/// The slot a response was read at.
#[derive(Debug, Clone, Copy)]
pub struct ResponseContext {
    pub slot: u64,
}

/// Answer to an account lookup.
#[derive(Debug)]
pub struct GetAccountInfoResponse {
    pub context: ResponseContext,
    pub value: Option<AccountInfo>,
}

/// A blockhash, rendered for a response, with its validity horizon.
#[derive(Debug)]
pub struct BlockhashInfo {
    pub blockhash: String,
    pub last_valid_block_height: u64,
}

/// Answer to a blockhash query.
#[derive(Debug)]
pub struct GetLatestBlockhashResponse {
    pub context: ResponseContext,
    pub value: BlockhashInfo,
}

/// Everything a front-end call can fail with.
#[derive(Debug)]
pub enum RpcError {
    InvalidParams(String),
    InternalError(String),
    MethodNotFound(String),
}

/// The numeric code a front-end error is reported under.
pub fn error_code(error: &RpcError) -> (r: i32)
    ensures
        error is InvalidParams ==> r == -32602,
        error is MethodNotFound ==> r == -32601,
        error is InternalError ==> r == -32603,
{
    match error {
        RpcError::InvalidParams(_) => -32602,
        RpcError::MethodNotFound(_) => -32601,
        RpcError::InternalError(_) => -32603,
    }
}

/// Number of slots a blockhash stays valid for.
pub const BLOCKHASH_VALID_SLOTS: u64 = 150;

/// Answer an account lookup: the stored account rendered under the asked
/// encoding, its owner in base58, or nothing when the key is absent.
pub fn handle_get_account_info(
    store: &AccountStore,
    slot: u64,
    pubkey: &[u8; 32],
    encoding: DataEncoding,
) -> (r: GetAccountInfoResponse)
    requires
        store.wf(),
    ensures
        r.context.slot == slot,
        match r.value {
            Some(info) => {
                &&& store.contents().dom().contains(pubkey@)
                &&& info.lamports == store.contents()[pubkey@].lamports
                &&& info.executable == store.contents()[pubkey@].executable
                &&& info.owner@ == base58_of(store.contents()[pubkey@].owner)
                &&& info.rent_epoch == 0
                &&& (encoding == DataEncoding::Base58 ==> info.data.0@ == base58_of(
                    store.contents()[pubkey@].data,
                ) && info.data.1@ == "base58"@)
                &&& (encoding == DataEncoding::Base64 ==> info.data.0@ == base64_of(
                    store.contents()[pubkey@].data,
                ) && info.data.1@ == "base64"@)
            },
            None => !store.contents().dom().contains(pubkey@) || store.contents()[
                pubkey@
            ].data.len() > 0x10000000,
        },
{
    let account = match store.get_account(pubkey) {
        Some(a) => a,
        None => {
            return GetAccountInfoResponse { context: ResponseContext { slot }, value: None };
        },
    };
    if account.data.len() > 0x10000000 {
        // a payload beyond the render ceiling is treated as absent rather
        // than handed to the encoders, whose inputs are bounded
        return GetAccountInfoResponse { context: ResponseContext { slot }, value: None };
    }
    let data = match encoding {
        DataEncoding::Base58 => (
            base58_encode(account.data.as_slice()),
            String::from_str("base58"),
        ),
        DataEncoding::Base64 => (
            base64_encode(account.data.as_slice()),
            String::from_str("base64"),
        ),
    };
    let owner = base58_encode(account.owner.as_slice());
    GetAccountInfoResponse {
        context: ResponseContext { slot },
        value: Some(
            AccountInfo {
                data,
                executable: account.executable,
                lamports: account.lamports,
                owner,
                rent_epoch: 0,
            },
        ),
    }
}

/// Answer a blockhash query: the hash in base58, valid for a fixed number
/// of slots past the current one.
pub fn handle_get_latest_blockhash(slot: u64, blockhash: &[u8; 32]) -> (r:
    GetLatestBlockhashResponse)
    requires
        slot + BLOCKHASH_VALID_SLOTS <= u64::MAX,
    ensures
        r.context.slot == slot,
        r.value.blockhash@ == base58_of(blockhash@),
        r.value.last_valid_block_height == slot + BLOCKHASH_VALID_SLOTS,
{
    GetLatestBlockhashResponse {
        context: ResponseContext { slot },
        value: BlockhashInfo {
            blockhash: base58_encode(blockhash.as_slice()),
            last_valid_block_height: slot + BLOCKHASH_VALID_SLOTS,
        },
    }
}

/// Answer a slot query.
pub fn handle_get_slot(slot: u64) -> (r: u64)
    ensures
        r == slot,
{
    slot
}

/// Answer a health probe.
pub fn handle_get_health() -> (r: String)
    ensures
        r@ == "ok"@,
{
    String::from_str("ok")
}

/// The error body of a front-end response.
#[derive(Debug)]
pub struct JsonRpcError {
    pub code: i32,
    pub message: String,
}

} // verus!
