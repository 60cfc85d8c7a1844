//! The JSON-RPC face of the node: how its parameters are read and how the
//! errors of its services are answered.
use vstd::prelude::*;
use crate::id::UnitsObjectId;
use crate::services::{service_error_text, ServiceError};
use crate::text::{hex_bytes, hex_decode, is_hex, push_str};

verus! {

/// `ErrorCode::InvalidParams.code()` of jsonrpsee: the JSON-RPC code of
/// invalid parameters, -32602.
#[verifier::external_body]
fn invalid_params_code() -> (c: i32)
    ensures
        c == -32602,
{
    jsonrpsee::types::error::ErrorCode::InvalidParams.code()
}

/// `ErrorCode::InternalError.code()` of jsonrpsee: the JSON-RPC code of an
/// internal error, -32603.
#[verifier::external_body]
fn internal_error_code() -> (c: i32)
    ensures
        c == -32603,
{
    jsonrpsee::types::error::ErrorCode::InternalError.code()
}

/// The JSON-RPC code of invalid parameters.
pub open spec fn invalid_params() -> i32 {
    -32602i32
}

/// The JSON-RPC code of an internal error.
pub open spec fn internal_error() -> i32 {
    -32603i32
}

/// An error answered to a JSON-RPC call: its code and message.
#[derive(Debug, Clone)]
pub struct RpcError {
    pub code: i32,
    pub message: String,
}

/// The answer to a call that failed in the services: a missing object or an
/// invalid request is the caller's error, anything else the node's.
pub open spec fn rpc_answer(e: ServiceError) -> (i32, Seq<char>) {
    match e {
        ServiceError::ObjectNotFound { object_id } => (invalid_params(), "Object not found: "@ + object_id@),
        ServiceError::InvalidRequest { message } => (invalid_params(), message@),
        ServiceError::TransactionFailed { reason } => (internal_error(), "Transaction failed: "@ + reason@),
        _ => (internal_error(), service_error_text(e)),
    }
}

/// Map an error of the services to the error answered to the caller.
pub fn map_service_error(err: ServiceError) -> (r: RpcError)
    ensures
        r.code == rpc_answer(err).0,
        r.message@ == rpc_answer(err).1,
{
    match err {
        ServiceError::ObjectNotFound { object_id } => {
            let mut message = "Object not found: ".to_owned();
            push_str(&mut message, object_id.as_str());
            RpcError { code: invalid_params_code(), message }
        },
        ServiceError::InvalidRequest { message } => RpcError { code: invalid_params_code(), message },
        ServiceError::TransactionFailed { reason } => {
            let mut message = "Transaction failed: ".to_owned();
            push_str(&mut message, reason.as_str());
            RpcError { code: internal_error_code(), message }
        },
        _ => {
            let message = err.message();
            RpcError { code: internal_error_code(), message }
        },
    }
}

/// The 32 bytes that `s` spells in hexadecimal, or the error answered for it:
/// text that is not hexadecimal, or bytes of another count, which `what` names.
fn parse_hex32(s: &str, what: &str) -> (r: Result<[u8; 32], RpcError>)
    ensures
        match r {
            Ok(b) => is_hex(s@) && hex_bytes(s@) == b@,
            Err(e) => e.code == invalid_params() && (is_hex(s@) ==> e.message@ == what@ + " must be 32 bytes"@)
                && (!is_hex(s@) ==> e.message@.take(13) == "Invalid hex: "@),
        },
        r is Err <==> !(is_hex(s@) && hex_bytes(s@).len() == 32),
{
    let bytes = match hex_decode(s) {
        Ok(b) => b,
        Err(m) => {
            let mut message = "Invalid hex: ".to_owned();
            let ghost prefix = message@;
            proof {
                reveal_strlit("Invalid hex: ");
            }
            push_str(&mut message, m.as_str());
            proof {
                assert(message@.take(13) =~= prefix);
            }
            return Err(RpcError { code: invalid_params_code(), message });
        },
    };
    if bytes.len() != 32 {
        let mut message = what.to_owned();
        push_str(&mut message, " must be 32 bytes");
        return Err(RpcError { code: invalid_params_code(), message });
    }
    let mut array = [0u8; 32];
    let mut i: usize = 0;
    while i < 32
        invariant
            i <= 32,
            bytes@.len() == 32,
            forall|j: int| 0 <= j < i ==> array@[j] == bytes@[j],
        decreases 32 - i,
    {
        array[i] = bytes[i];
        i = i + 1;
    }
    proof {
        assert(array@ =~= bytes@);
    }
    Ok(array)
}

/// Read an object identifier written as 64 hexadecimal digits.
pub fn parse_object_id(id_str: &str) -> (r: Result<UnitsObjectId, RpcError>)
    ensures
        match r {
            Ok(id) => is_hex(id_str@) && hex_bytes(id_str@) == id.bytes@,
            Err(e) => e.code == invalid_params() && (is_hex(id_str@) ==> e.message@
                == "Object ID must be 32 bytes"@) && (!is_hex(id_str@) ==> e.message@.take(13)
                == "Invalid hex: "@),
        },
        r is Err <==> !(is_hex(id_str@) && hex_bytes(id_str@).len() == 32),
{
    proof {
        reveal_strlit("Object ID");
        reveal_strlit(" must be 32 bytes");
        reveal_strlit("Object ID must be 32 bytes");
        assert("Object ID"@ + " must be 32 bytes"@ =~= "Object ID must be 32 bytes"@);
    }
    match parse_hex32(id_str, "Object ID") {
        Ok(b) => Ok(UnitsObjectId::new(b)),
        Err(e) => Err(e),
    }
}

/// Read a transaction hash written as 64 hexadecimal digits.
pub fn parse_tx_hash(hash_str: &str) -> (r: Result<[u8; 32], RpcError>)
    ensures
        match r {
            Ok(h) => is_hex(hash_str@) && hex_bytes(hash_str@) == h@,
            Err(e) => e.code == invalid_params() && (is_hex(hash_str@) ==> e.message@
                == "Transaction hash must be 32 bytes"@) && (!is_hex(hash_str@) ==> e.message@.take(13)
                == "Invalid hex: "@),
        },
        r is Err <==> !(is_hex(hash_str@) && hex_bytes(hash_str@).len() == 32),
{
    proof {
        reveal_strlit("Transaction hash");
        reveal_strlit(" must be 32 bytes");
        reveal_strlit("Transaction hash must be 32 bytes");
        assert("Transaction hash"@ + " must be 32 bytes"@ =~= "Transaction hash must be 32 bytes"@);
    }
    parse_hex32(hash_str, "Transaction hash")
}

} // verus!
