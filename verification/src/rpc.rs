//! The JSON-RPC 2.0 front: which requests are well formed, which method a
//! name calls, and which error code a failure is answered with. Reading and
//! writing JSON is the caller's; it hands in the shape of the request.
use vstd::prelude::*;
use crate::text::{contains_text, occurs_at};
use crate::types::str_equal;

verus! {

/// Shared application state
pub struct AppState {}

/// Invalid JSON was received.
pub const PARSE_ERROR: i64 = -32700;
/// The JSON sent is not a valid request object.
pub const INVALID_REQUEST: i64 = -32600;
/// The method does not exist.
pub const METHOD_NOT_FOUND: i64 = -32601;
/// Invalid method parameters.
pub const INVALID_PARAMS: i64 = -32602;
/// Internal error.
pub const INTERNAL_ERROR: i64 = -32603;

/// What a request's `jsonrpc` member holds.
#[derive(Debug, Clone)]
pub enum JsonrpcField {
    /// There is no such member.
    Missing,
    /// A string.
    Text(String),
    /// Something other than a string.
    Other,
}

/// The parts of a request that validation reads.
#[derive(Debug, Clone)]
pub struct RequestShape {
    pub is_object: bool,
    pub jsonrpc: JsonrpcField,
    pub has_method: bool,
}

/// Why a request is not valid JSON-RPC 2.0.
#[derive(Debug, Clone, Copy, PartialEq, Eq, Structural)]
pub enum RequestError {
    /// "Request must be a JSON object"
    NotAnObject,
    /// "Missing 'jsonrpc' field"
    MissingVersion,
    /// "Only JSON-RPC 2.0 is supported"
    UnsupportedVersion,
    /// "Missing 'method' field"
    MissingMethod,
}

impl RequestError {
    /// The message the error is answered with.
    pub fn message(&self) -> (r: &'static str)
        ensures
            r@ == match self {
                RequestError::NotAnObject => "Request must be a JSON object"@,
                RequestError::MissingVersion => "Missing 'jsonrpc' field"@,
                RequestError::UnsupportedVersion => "Only JSON-RPC 2.0 is supported"@,
                RequestError::MissingMethod => "Missing 'method' field"@,
            },
    {
        match self {
            RequestError::NotAnObject => "Request must be a JSON object",
            RequestError::MissingVersion => "Missing 'jsonrpc' field",
            RequestError::UnsupportedVersion => "Only JSON-RPC 2.0 is supported",
            RequestError::MissingMethod => "Missing 'method' field",
        }
    }
}

/// The verdict on a request's shape: an object, whose `jsonrpc` member is
/// the string `2.0`, with a `method` member.
pub open spec fn request_verdict(r: RequestShape) -> Result<(), RequestError> {
    if !r.is_object {
        Err(RequestError::NotAnObject)
    } else {
        match r.jsonrpc {
            JsonrpcField::Missing => Err(RequestError::MissingVersion),
            JsonrpcField::Other => Err(RequestError::UnsupportedVersion),
            JsonrpcField::Text(v) => if v@ != "2.0"@ {
                Err(RequestError::UnsupportedVersion)
            } else if !r.has_method {
                Err(RequestError::MissingMethod)
            } else {
                Ok(())
            },
        }
    }
}

/// Validate a JSON-RPC 2.0 request.
pub fn validate_request(request: &RequestShape) -> (r: Result<(), RequestError>)
    ensures
        r == request_verdict(*request),
{
    if !request.is_object {
        return Err(RequestError::NotAnObject);
    }
    match &request.jsonrpc {
        JsonrpcField::Missing => Err(RequestError::MissingVersion),
        JsonrpcField::Other => Err(RequestError::UnsupportedVersion),
        JsonrpcField::Text(v) => {
            if !str_equal(v.as_str(), "2.0") {
                Err(RequestError::UnsupportedVersion)
            } else if !request.has_method {
                Err(RequestError::MissingMethod)
            } else {
                Ok(())
            }
        },
    }
}

/// The methods the server answers.
#[derive(Debug, Clone, Copy, PartialEq, Eq, Structural)]
pub enum RpcMethod {
    GetBalance,
    GetAccountInfo,
    GetAccountStats,
    GetBlock,
    GetLatestBlock,
    GetBlockStats,
    Health,
    Ping,
    GetMempoolStats,
    GetMempoolTransactions,
    GetPeerInfo,
    GetNetworkStats,
}

/// The method a name calls.
pub open spec fn method_named(name: Seq<char>) -> Option<RpcMethod> {
    if name == "getBalance"@ {
        Some(RpcMethod::GetBalance)
    } else if name == "getAccountInfo"@ {
        Some(RpcMethod::GetAccountInfo)
    } else if name == "getAccountStats"@ {
        Some(RpcMethod::GetAccountStats)
    } else if name == "getBlock"@ {
        Some(RpcMethod::GetBlock)
    } else if name == "getLatestBlock"@ {
        Some(RpcMethod::GetLatestBlock)
    } else if name == "getBlockStats"@ {
        Some(RpcMethod::GetBlockStats)
    } else if name == "health"@ {
        Some(RpcMethod::Health)
    } else if name == "ping"@ {
        Some(RpcMethod::Ping)
    } else if name == "getMempoolStats"@ {
        Some(RpcMethod::GetMempoolStats)
    } else if name == "getMempoolTransactions"@ {
        Some(RpcMethod::GetMempoolTransactions)
    } else if name == "getPeerInfo"@ {
        Some(RpcMethod::GetPeerInfo)
    } else if name == "getNetworkStats"@ {
        Some(RpcMethod::GetNetworkStats)
    } else {
        None
    }
}

/// The message for a method that does not exist: `Method 'NAME' not found`.
pub open spec fn not_found_message(name: Seq<char>) -> Seq<char> {
    "Method '"@ + name + "' not found"@
}

/// Route a method name: the method it calls, or the not-found message.
pub fn dispatch(method: &str) -> (r: Result<RpcMethod, String>)
    ensures
        match method_named(method@) {
            Some(m) => r == Ok::<RpcMethod, String>(m),
            None => r matches Err(msg) && msg@ == not_found_message(method@),
        },
{
    if str_equal(method, "getBalance") {
        Ok(RpcMethod::GetBalance)
    } else if str_equal(method, "getAccountInfo") {
        Ok(RpcMethod::GetAccountInfo)
    } else if str_equal(method, "getAccountStats") {
        Ok(RpcMethod::GetAccountStats)
    } else if str_equal(method, "getBlock") {
        Ok(RpcMethod::GetBlock)
    } else if str_equal(method, "getLatestBlock") {
        Ok(RpcMethod::GetLatestBlock)
    } else if str_equal(method, "getBlockStats") {
        Ok(RpcMethod::GetBlockStats)
    } else if str_equal(method, "health") {
        Ok(RpcMethod::Health)
    } else if str_equal(method, "ping") {
        Ok(RpcMethod::Ping)
    } else if str_equal(method, "getMempoolStats") {
        Ok(RpcMethod::GetMempoolStats)
    } else if str_equal(method, "getMempoolTransactions") {
        Ok(RpcMethod::GetMempoolTransactions)
    } else if str_equal(method, "getPeerInfo") {
        Ok(RpcMethod::GetPeerInfo)
    } else if str_equal(method, "getNetworkStats") {
        Ok(RpcMethod::GetNetworkStats)
    } else {
        let mut msg = String::from_str("Method '");
        msg.append(method);
        msg.append("' not found");
        Err(msg)
    }
}

/// The error code a failed call is answered with: method-not-found when
/// the message says `not found`, internal error otherwise.
pub fn error_code_for(message: &str) -> (r: i64)
    ensures
        r == if exists|at: int| occurs_at(message@, "not found"@, at) {
            METHOD_NOT_FOUND
        } else {
            INTERNAL_ERROR
        },
{
    if contains_text(message, "not found") {
        METHOD_NOT_FOUND
    } else {
        INTERNAL_ERROR
    }
}

/// The wealth tier of a balance.
pub open spec fn wealth_tier_spec(balance: u64) -> Seq<char> {
    if balance == 0 {
        "Empty"@
    } else if balance <= 1000 {
        "Small"@
    } else if balance <= 10000 {
        "Medium"@
    } else if balance <= 100000 {
        "Large"@
    } else {
        "Whale"@
    }
}

/// The wealth tier of a balance: empty, small up to 1000, medium up to
/// 10000, large up to 100000, whale above.
pub fn wealth_tier(balance: u64) -> (r: &'static str)
    ensures
        r@ == wealth_tier_spec(balance),
{
    if balance == 0 {
        "Empty"
    } else if balance <= 1000 {
        "Small"
    } else if balance <= 10000 {
        "Medium"
    } else if balance <= 100000 {
        "Large"
    } else {
        "Whale"
    }
}

} // verus!

verus! {

/// The priority a mempool listing is filtered by.
#[derive(Debug, Clone, Copy, PartialEq, Eq, Structural)]
pub enum TxPriority {
    High,
    Medium,
    Low,
    /// Any other filter, `all` among them: nothing is listed.
    Unfiltered,
}

/// The priority a filter names.
pub open spec fn priority_named(name: Seq<char>) -> TxPriority {
    if name == "high"@ {
        TxPriority::High
    } else if name == "medium"@ {
        TxPriority::Medium
    } else if name == "low"@ {
        TxPriority::Low
    } else {
        TxPriority::Unfiltered
    }
}

/// Read a priority filter.
pub fn parse_priority(name: &str) -> (r: TxPriority)
    ensures
        r == priority_named(name@),
{
    if str_equal(name, "high") {
        TxPriority::High
    } else if str_equal(name, "medium") {
        TxPriority::Medium
    } else if str_equal(name, "low") {
        TxPriority::Low
    } else {
        TxPriority::Unfiltered
    }
}

/// The most transactions a listing returns.
pub const MAX_LISTING: u64 = 50;

/// The limit a listing uses: the one asked for, 10 where none is, and at
/// most 50.
pub open spec fn listing_limit(limit: Option<u64>) -> u64 {
    let asked: u64 = match limit {
        Some(l) => l,
        None => 10,
    };
    if asked < MAX_LISTING { asked } else { MAX_LISTING }
}

/// How many pending transactions a listing returns: a third of the limit
/// for high priority, half for medium, all of it for low, none otherwise.
pub open spec fn listing_len(limit: Option<u64>, priority: TxPriority) -> int {
    let l = listing_limit(limit);
    match priority {
        TxPriority::High => (l / 3) as int,
        TxPriority::Medium => (l / 2) as int,
        TxPriority::Low => l as int,
        TxPriority::Unfiltered => 0,
    }
}

/// The fee per gas of the `i`th listed transaction of a priority.
pub open spec fn listing_fee(priority: TxPriority, i: int) -> int {
    match priority {
        TxPriority::High => 100 + i * 50,
        TxPriority::Medium => 50 + i * 25,
        _ => 10 + i * 5,
    }
}

/// The fees per gas of a mempool listing, one per listed transaction in
/// order.
pub fn mempool_listing_fees(limit: Option<u64>, priority: TxPriority) -> (r: Vec<u64>)
    ensures
        r.len() == listing_len(limit, priority),
        forall|i: int| 0 <= i < r.len() ==> r[i] == listing_fee(priority, i),
{
    let asked: u64 = match limit {
        Some(l) => l,
        None => 10,
    };
    let l: u64 = if asked < MAX_LISTING { asked } else { MAX_LISTING };
    let count: u64 = match priority {
        TxPriority::High => l / 3,
        TxPriority::Medium => l / 2,
        TxPriority::Low => l,
        TxPriority::Unfiltered => 0,
    };
    let mut fees: Vec<u64> = Vec::new();
    let mut i: u64 = 0;
    while i < count
        invariant
            count <= 50,
            i <= count,
            count as int == listing_len(limit, priority),
            fees.len() == i,
            forall|j: int| 0 <= j < i ==> fees[j] == listing_fee(priority, j),
        decreases count - i,
    {
        let fee: u64 = match priority {
            TxPriority::High => 100 + i * 50,
            TxPriority::Medium => 50 + i * 25,
            _ => 10 + i * 5,
        };
        fees.push(fee);
        i = i + 1;
    }
    fees
}

} // verus!
