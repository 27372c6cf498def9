//! The JSON-RPC interface's own rules: which method a request names, how
//! its positional parameters are read, and the error codes it answers with.

use vstd::prelude::*;
use vstd::string::*;
use crate::hexcodec::{hex_decode, hex_decode_error, parse_addr, parse_hash, spec_hex_decode, spec_parse_fixed, strip_0x, strip_hex_prefix};
use crate::types::{Address, Block, Hash256};

verus! {

/// Code for a method that does not exist.
pub const METHOD_NOT_FOUND: i32 = -32601;

/// Code for missing or malformed parameters.
pub const INVALID_PARAMS: i32 = -32602;

/// Code for a request that failed on the node's side.
pub const SERVER_ERROR: i32 = -32000;

/// Code for a request that needs a store the node was started without.
pub const STORE_MISSING: i32 = -32001;

/// An error answer: a code and a message.
#[derive(Clone, Debug)]
pub struct RpcError {
    pub code: i32,
    pub message: String,
}

/// A method of the JSON-RPC interface.
#[derive(Clone, Copy, Debug, PartialEq, Eq, Structural)]
pub enum RpcMethod {
    ChainId,
    BlockNumber,
    ProtocolInfo,
    GetBalance,
    GetBlockByNumber,
    GetBlockByHash,
    GetTransaction,
    GetValidators,
    GetAccount,
    SendRawTransaction,
    GetMempool,
    GetProposals,
    GetAccountProof,
    VerifySupply,
    GetUtxoSetSize,
    GetRollups,
    Syncing,
    CreateSnapshot,
    LoadSnapshot,
    GetSnapshot,
    ExportSnapshot,
    GetLightHeader,
    GetCommit,
    GetDelegations,
    GetUnbonding,
    NetPeers,
    GetBridges,
    GetBridgePackets,
    GetSlashLog,
    GetCommunityPool,
    Version,
}

/// The wire name of each method.
pub open spec fn spec_method_name(m: RpcMethod) -> Seq<char> {
    match m {
        RpcMethod::ChainId => "aeth_chainId"@,
        RpcMethod::BlockNumber => "aeth_blockNumber"@,
        RpcMethod::ProtocolInfo => "aeth_protocolInfo"@,
        RpcMethod::GetBalance => "aeth_getBalance"@,
        RpcMethod::GetBlockByNumber => "aeth_getBlockByNumber"@,
        RpcMethod::GetBlockByHash => "aeth_getBlockByHash"@,
        RpcMethod::GetTransaction => "aeth_getTransaction"@,
        RpcMethod::GetValidators => "aeth_getValidators"@,
        RpcMethod::GetAccount => "aeth_getAccount"@,
        RpcMethod::SendRawTransaction => "aeth_sendRawTransaction"@,
        RpcMethod::GetMempool => "aeth_getMempool"@,
        RpcMethod::GetProposals => "aeth_getProposals"@,
        RpcMethod::GetAccountProof => "aeth_getAccountProof"@,
        RpcMethod::VerifySupply => "aeth_verifySupply"@,
        RpcMethod::GetUtxoSetSize => "aeth_getUtxoSetSize"@,
        RpcMethod::GetRollups => "aeth_getRollups"@,
        RpcMethod::Syncing => "aeth_syncing"@,
        RpcMethod::CreateSnapshot => "aeth_createSnapshot"@,
        RpcMethod::LoadSnapshot => "aeth_loadSnapshot"@,
        RpcMethod::GetSnapshot => "aeth_getSnapshot"@,
        RpcMethod::ExportSnapshot => "aeth_exportSnapshot"@,
        RpcMethod::GetLightHeader => "aeth_getLightHeader"@,
        RpcMethod::GetCommit => "aeth_getCommit"@,
        RpcMethod::GetDelegations => "aeth_getDelegations"@,
        RpcMethod::GetUnbonding => "aeth_getUnbonding"@,
        RpcMethod::NetPeers => "aeth_netPeers"@,
        RpcMethod::GetBridges => "aeth_getBridges"@,
        RpcMethod::GetBridgePackets => "aeth_getBridgePackets"@,
        RpcMethod::GetSlashLog => "aeth_getSlashLog"@,
        RpcMethod::GetCommunityPool => "aeth_getCommunityPool"@,
        RpcMethod::Version => "aeth_version"@,
    }
}

/// The wire name of `m`.
pub fn method_name(m: RpcMethod) -> (r: &'static str)
    ensures
        r@ == spec_method_name(m),
{
    match m {
        RpcMethod::ChainId => "aeth_chainId",
        RpcMethod::BlockNumber => "aeth_blockNumber",
        RpcMethod::ProtocolInfo => "aeth_protocolInfo",
        RpcMethod::GetBalance => "aeth_getBalance",
        RpcMethod::GetBlockByNumber => "aeth_getBlockByNumber",
        RpcMethod::GetBlockByHash => "aeth_getBlockByHash",
        RpcMethod::GetTransaction => "aeth_getTransaction",
        RpcMethod::GetValidators => "aeth_getValidators",
        RpcMethod::GetAccount => "aeth_getAccount",
        RpcMethod::SendRawTransaction => "aeth_sendRawTransaction",
        RpcMethod::GetMempool => "aeth_getMempool",
        RpcMethod::GetProposals => "aeth_getProposals",
        RpcMethod::GetAccountProof => "aeth_getAccountProof",
        RpcMethod::VerifySupply => "aeth_verifySupply",
        RpcMethod::GetUtxoSetSize => "aeth_getUtxoSetSize",
        RpcMethod::GetRollups => "aeth_getRollups",
        RpcMethod::Syncing => "aeth_syncing",
        RpcMethod::CreateSnapshot => "aeth_createSnapshot",
        RpcMethod::LoadSnapshot => "aeth_loadSnapshot",
        RpcMethod::GetSnapshot => "aeth_getSnapshot",
        RpcMethod::ExportSnapshot => "aeth_exportSnapshot",
        RpcMethod::GetLightHeader => "aeth_getLightHeader",
        RpcMethod::GetCommit => "aeth_getCommit",
        RpcMethod::GetDelegations => "aeth_getDelegations",
        RpcMethod::GetUnbonding => "aeth_getUnbonding",
        RpcMethod::NetPeers => "aeth_netPeers",
        RpcMethod::GetBridges => "aeth_getBridges",
        RpcMethod::GetBridgePackets => "aeth_getBridgePackets",
        RpcMethod::GetSlashLog => "aeth_getSlashLog",
        RpcMethod::GetCommunityPool => "aeth_getCommunityPool",
        RpcMethod::Version => "aeth_version",
    }
}

/// Every method, each once.
pub fn all_methods() -> (v: Vec<RpcMethod>)
    ensures
        forall|m: RpcMethod| #[trigger] v@.contains(m),
{
    let v = vec![
        RpcMethod::ChainId,
        RpcMethod::BlockNumber,
        RpcMethod::ProtocolInfo,
        RpcMethod::GetBalance,
        RpcMethod::GetBlockByNumber,
        RpcMethod::GetBlockByHash,
        RpcMethod::GetTransaction,
        RpcMethod::GetValidators,
        RpcMethod::GetAccount,
        RpcMethod::SendRawTransaction,
        RpcMethod::GetMempool,
        RpcMethod::GetProposals,
        RpcMethod::GetAccountProof,
        RpcMethod::VerifySupply,
        RpcMethod::GetUtxoSetSize,
        RpcMethod::GetRollups,
        RpcMethod::Syncing,
        RpcMethod::CreateSnapshot,
        RpcMethod::LoadSnapshot,
        RpcMethod::GetSnapshot,
        RpcMethod::ExportSnapshot,
        RpcMethod::GetLightHeader,
        RpcMethod::GetCommit,
        RpcMethod::GetDelegations,
        RpcMethod::GetUnbonding,
        RpcMethod::NetPeers,
        RpcMethod::GetBridges,
        RpcMethod::GetBridgePackets,
        RpcMethod::GetSlashLog,
        RpcMethod::GetCommunityPool,
        RpcMethod::Version,
    ];
    proof {
        assert forall|m: RpcMethod| #[trigger] v@.contains(m) by {
            match m {
                RpcMethod::ChainId => assert(v@[0] == m),
                RpcMethod::BlockNumber => assert(v@[1] == m),
                RpcMethod::ProtocolInfo => assert(v@[2] == m),
                RpcMethod::GetBalance => assert(v@[3] == m),
                RpcMethod::GetBlockByNumber => assert(v@[4] == m),
                RpcMethod::GetBlockByHash => assert(v@[5] == m),
                RpcMethod::GetTransaction => assert(v@[6] == m),
                RpcMethod::GetValidators => assert(v@[7] == m),
                RpcMethod::GetAccount => assert(v@[8] == m),
                RpcMethod::SendRawTransaction => assert(v@[9] == m),
                RpcMethod::GetMempool => assert(v@[10] == m),
                RpcMethod::GetProposals => assert(v@[11] == m),
                RpcMethod::GetAccountProof => assert(v@[12] == m),
                RpcMethod::VerifySupply => assert(v@[13] == m),
                RpcMethod::GetUtxoSetSize => assert(v@[14] == m),
                RpcMethod::GetRollups => assert(v@[15] == m),
                RpcMethod::Syncing => assert(v@[16] == m),
                RpcMethod::CreateSnapshot => assert(v@[17] == m),
                RpcMethod::LoadSnapshot => assert(v@[18] == m),
                RpcMethod::GetSnapshot => assert(v@[19] == m),
                RpcMethod::ExportSnapshot => assert(v@[20] == m),
                RpcMethod::GetLightHeader => assert(v@[21] == m),
                RpcMethod::GetCommit => assert(v@[22] == m),
                RpcMethod::GetDelegations => assert(v@[23] == m),
                RpcMethod::GetUnbonding => assert(v@[24] == m),
                RpcMethod::NetPeers => assert(v@[25] == m),
                RpcMethod::GetBridges => assert(v@[26] == m),
                RpcMethod::GetBridgePackets => assert(v@[27] == m),
                RpcMethod::GetSlashLog => assert(v@[28] == m),
                RpcMethod::GetCommunityPool => assert(v@[29] == m),
                RpcMethod::Version => assert(v@[30] == m),
            }
        }
    }
    v
}

/// The message for a method that does not exist.
pub open spec fn not_found_message(name: Seq<char>) -> Seq<char> {
    "method not found: "@ + name
}

/// Finds the method that `name` names; otherwise the "method not found"
/// error.
pub fn route_method(name: &str) -> (r: Result<RpcMethod, RpcError>)
    ensures
        match r {
            Ok(m) => spec_method_name(m) == name@,
            Err(e) => (forall|m: RpcMethod| spec_method_name(m) != name@) && e.code == METHOD_NOT_FOUND
                && e.message@ == not_found_message(name@),
        },
{
    let all = all_methods();
    let mut i: usize = 0;
    while i < all.len()
        invariant
            i <= all.len(),
            forall|m: RpcMethod| #[trigger] all@.contains(m),
            forall|j: int| 0 <= j < i ==> spec_method_name(#[trigger] all@[j]) != name@,
        decreases all.len() - i,
    {
        let m = all[i];
        if crate::text::str_eq(name, method_name(m)) {
            return Ok(m);
        }
        i = i + 1;
    }
    proof {
        assert forall|m: RpcMethod| spec_method_name(m) != name@ by {
            assert(all@.contains(m));
            let j = choose|j: int| 0 <= j < all@.len() && all@[j] == m;
            assert(spec_method_name(all@[j]) != name@);
        }
    }
    let message = String::from_str("method not found: ").concat(name);
    Err(RpcError { code: METHOD_NOT_FOUND, message })
}

/// One positional parameter, as far as the methods read it: an unsigned
/// integer, a string, or anything else.
#[derive(Clone, Debug)]
pub enum RpcParam {
    U64(u64),
    Str(String),
    Other,
}

/// The parameter at `idx`, if the request has a parameter list that long.
pub open spec fn param_at(params: Option<Seq<RpcParam>>, idx: int) -> Option<RpcParam> {
    match params {
        Some(p) => if 0 <= idx < p.len() { Some(p[idx]) } else { None },
        None => None,
    }
}

fn get_param(params: &Option<Vec<RpcParam>>, idx: usize) -> (r: Option<&RpcParam>)
    ensures
        match r {
            Some(x) => param_at(params_view(*params), idx as int) == Some(*x),
            None => param_at(params_view(*params), idx as int) is None,
        },
{
    match params {
        Some(p) => if idx < p.len() { Some(&p[idx]) } else { None },
        None => None,
    }
}

/// The view of a parameter list.
pub open spec fn params_view(params: Option<Vec<RpcParam>>) -> Option<Seq<RpcParam>> {
    match params {
        Some(p) => Some(p@),
        None => None,
    }
}

/// An invalid-parameters error with the given message.
pub open spec fn is_invalid_params(e: RpcError, m: Seq<char>) -> bool {
    e.code == INVALID_PARAMS && e.message@ == m
}

/// The first parameter as a height: it must be an unsigned integer.
pub fn param_height(params: &Option<Vec<RpcParam>>) -> (r: Result<u64, RpcError>)
    ensures
        match param_at(params_view(*params), 0) {
            Some(RpcParam::U64(n)) => r == Ok::<u64, RpcError>(n),
            _ => r matches Err(e) && is_invalid_params(e, "height required"@),
        },
{
    match get_param(params, 0) {
        Some(RpcParam::U64(n)) => Ok(*n),
        _ => Err(RpcError { code: INVALID_PARAMS, message: String::from_str("height required") }),
    }
}

/// The parameter at `idx` as an address: a string of 20 hex-encoded bytes,
/// `0x` allowed.
pub fn param_addr(params: &Option<Vec<RpcParam>>, idx: usize) -> (r: Result<Address, RpcError>)
    ensures
        match param_at(params_view(*params), idx as int) {
            Some(RpcParam::Str(s)) => match spec_parse_fixed(vstd::utf8::encode_utf8(s@), 20, "address must be 20 bytes"@) {
                Ok(b) => r matches Ok(a) && a@ == b,
                Err(m) => r matches Err(e) && is_invalid_params(e, m),
            },
            _ => r matches Err(e) && is_invalid_params(e, "address required"@),
        },
{
    match get_param(params, idx) {
        Some(RpcParam::Str(s)) => match parse_addr(s.as_str()) {
            Ok(a) => Ok(a),
            Err(m) => Err(RpcError { code: INVALID_PARAMS, message: m }),
        },
        _ => Err(RpcError { code: INVALID_PARAMS, message: String::from_str("address required") }),
    }
}

/// The parameter at `idx` as a 32-byte hash: a string of hex, `0x`
/// allowed.
pub fn param_hash(params: &Option<Vec<RpcParam>>, idx: usize) -> (r: Result<Hash256, RpcError>)
    ensures
        match param_at(params_view(*params), idx as int) {
            Some(RpcParam::Str(s)) => match spec_parse_fixed(vstd::utf8::encode_utf8(s@), 32, "hash must be 32 bytes"@) {
                Ok(b) => r matches Ok(h) && h@ == b,
                Err(m) => r matches Err(e) && is_invalid_params(e, m),
            },
            _ => r matches Err(e) && is_invalid_params(e, "hash required"@),
        },
{
    match get_param(params, idx) {
        Some(RpcParam::Str(s)) => match parse_hash(s.as_str()) {
            Ok(h) => Ok(h),
            Err(m) => Err(RpcError { code: INVALID_PARAMS, message: m }),
        },
        _ => Err(RpcError { code: INVALID_PARAMS, message: String::from_str("hash required") }),
    }
}

/// The first parameter, if it is a string.
pub fn param_first_str(params: &Option<Vec<RpcParam>>) -> (r: Option<String>)
    ensures
        match param_at(params_view(*params), 0) {
            Some(RpcParam::Str(s)) => r matches Some(t) && t@ == s@,
            _ => r is None,
        },
{
    match get_param(params, 0) {
        Some(RpcParam::Str(s)) => Some(s.clone()),
        _ => None,
    }
}

/// Whether `s` has `c` among its characters.
pub fn has_char(s: &str, c: char) -> (r: bool)
    ensures
        r == s@.contains(c),
{
    let n = s.unicode_len();
    let mut i: usize = 0;
    while i < n
        invariant
            n == s@.len(),
            i <= n,
            forall|j: int| 0 <= j < i ==> s@[j] != c,
        decreases n - i,
    {
        if s.get_char(i) == c {
            return true;
        }
        i = i + 1;
    }
    false
}

/// Whether `p` is a prefix of `s`.
pub open spec fn is_prefix(p: Seq<char>, s: Seq<char>) -> bool {
    p.len() <= s.len() && s.subrange(0, p.len() as int) == p
}

/// Whether `p` is a suffix of `s`.
pub open spec fn is_suffix(p: Seq<char>, s: Seq<char>) -> bool {
    p.len() <= s.len() && s.subrange(s.len() - p.len(), s.len() as int) == p
}

/// Whether `s` begins with `p`.
pub fn starts_with(s: &str, p: &str) -> (r: bool)
    ensures
        r == is_prefix(p@, s@),
{
    let n = s.unicode_len();
    let m = p.unicode_len();
    if m > n {
        return false;
    }
    let mut i: usize = 0;
    while i < m
        invariant
            n == s@.len(),
            m == p@.len(),
            m <= n,
            i <= m,
            forall|j: int| 0 <= j < i ==> s@[j] == p@[j],
        decreases m - i,
    {
        if s.get_char(i) != p.get_char(i) {
            return false;
        }
        i = i + 1;
    }
    proof {
        assert(s@.subrange(0, m as int) =~= p@);
    }
    true
}

/// Whether `s` ends with `p`.
pub fn ends_with(s: &str, p: &str) -> (r: bool)
    ensures
        r == is_suffix(p@, s@),
{
    let n = s.unicode_len();
    let m = p.unicode_len();
    if m > n {
        return false;
    }
    let off = n - m;
    let mut i: usize = 0;
    while i < m
        invariant
            n == s@.len(),
            m == p@.len(),
            m <= n,
            off == n - m,
            i <= m,
            forall|j: int| 0 <= j < i ==> s@[off + j] == p@[j],
        decreases m - i,
    {
        if s.get_char(off + i) != p.get_char(i) {
            return false;
        }
        i = i + 1;
    }
    proof {
        assert(s@.subrange(off as int, n as int) =~= p@);
    }
    true
}

/// A snapshot argument that is read as a file path rather than hex: it
/// does not start with `0x` and holds a slash or backslash, or ends in
/// `.json` or `.snap`.
pub open spec fn looks_like_path(s: Seq<char>) -> bool {
    !is_prefix("0x"@, s) && (s.contains('/') || s.contains('\\') || is_suffix(".json"@, s) || is_suffix(".snap"@, s))
}

/// Where a snapshot to load comes from.
#[derive(Clone, Debug)]
pub enum SnapshotSource {
    Path(String),
    Bytes(Vec<u8>),
}

/// Reads the argument of a snapshot load: a path, or hex bytes (`0x`
/// allowed).
pub fn snapshot_source(params: &Option<Vec<RpcParam>>) -> (r: Result<SnapshotSource, RpcError>)
    ensures
        match param_at(params_view(*params), 0) {
            Some(RpcParam::Str(s)) => if looks_like_path(s@) {
                r matches Ok(SnapshotSource::Path(p)) && p@ == s@
            } else {
                match spec_hex_decode(strip_0x(vstd::utf8::encode_utf8(s@))) {
                    Some(b) => r matches Ok(SnapshotSource::Bytes(v)) && v@ == b,
                    None => r matches Err(e) && is_invalid_params(e, "hex: "@ + hex_decode_error(strip_0x(vstd::utf8::encode_utf8(s@)))),
                }
            },
            _ => r matches Err(e) && is_invalid_params(e, "path or hex bytes required"@),
        },
{
    match get_param(params, 0) {
        Some(RpcParam::Str(s)) => {
            let t = s.as_str();
            proof {
                reveal_strlit("0x");
                reveal_strlit(".json");
                reveal_strlit(".snap");
            }
            let path = !starts_with(t, "0x") && (has_char(t, '/') || has_char(t, '\\') || ends_with(t, ".json") || ends_with(
                t,
                ".snap",
            ));
            if path {
                Ok(SnapshotSource::Path(s.clone()))
            } else {
                match hex_decode(strip_hex_prefix(t.as_bytes())) {
                    Ok(v) => Ok(SnapshotSource::Bytes(v)),
                    Err(m) => Err(RpcError { code: INVALID_PARAMS, message: String::from_str("hex: ").concat(m.as_str()) }),
                }
            }
        },
        _ => Err(RpcError { code: INVALID_PARAMS, message: String::from_str("path or hex bytes required") }),
    }
}

/// The first block of `blocks` at height `n`.
pub fn block_at_height(blocks: &Vec<Block>, n: u64) -> (r: Option<usize>)
    ensures
        match r {
            Some(i) => i < blocks.len() && blocks@[i as int].header.height == n && forall|j: int| 0 <= j < i ==> blocks@[j].header.height != n,
            None => forall|j: int| 0 <= j < blocks.len() ==> blocks@[j].header.height != n,
        },
{
    let mut i: usize = 0;
    while i < blocks.len()
        invariant
            i <= blocks.len(),
            forall|j: int| 0 <= j < i ==> blocks@[j].header.height != n,
        decreases blocks.len() - i,
    {
        if blocks[i].header.height == n {
            return Some(i);
        }
        i = i + 1;
    }
    None
}

} // verus!
