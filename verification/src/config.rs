//! Node and genesis configuration: defaults, overrides and the genesis
//! file's values.

use vstd::prelude::*;
use vstd::string::*;
use crate::hexcodec::{hex_decode, hex_decode_error, parse_addr, spec_hex_decode, spec_parse_fixed, strip_0x, strip_hex_prefix};
use crate::text::{parse_u128, spec_parse_u128, spec_trim, str_eq, trim};
use vstd::utf8::encode_utf8;
use crate::types::{ChainParams, Genesis, GenesisAlloc, GenesisValidator, HybridMode, WEI_PER_AETH, Address};

verus! {

/// The mode a configuration names; anything unknown is public.
pub open spec fn spec_parse_hybrid(s: Seq<char>) -> HybridMode {
    if s == "allowlist"@ {
        HybridMode::Allowlist
    } else if s == "mixed"@ {
        HybridMode::Mixed
    } else {
        HybridMode::Public
    }
}

pub fn parse_hybrid(s: &str) -> (m: HybridMode)
    ensures
        m == spec_parse_hybrid(s@),
{
    if str_eq(s, "allowlist") {
        HybridMode::Allowlist
    } else if str_eq(s, "mixed") {
        HybridMode::Mixed
    } else {
        HybridMode::Public
    }
}

/// The pieces of `s` between commas.
pub open spec fn split_commas(s: Seq<char>) -> Seq<Seq<char>>
    decreases s.len(),
{
    if s.len() == 0 {
        seq![Seq::empty()]
    } else if s.last() == ',' {
        split_commas(s.drop_last()).push(Seq::empty())
    } else {
        let p = split_commas(s.drop_last());
        p.update(p.len() - 1, p.last().push(s.last()))
    }
}

/// The trimmed pieces that are not empty.
pub open spec fn nonempty_trimmed(parts: Seq<Seq<char>>) -> Seq<Seq<char>>
    decreases parts.len(),
{
    if parts.len() == 0 {
        Seq::empty()
    } else {
        let r = nonempty_trimmed(parts.drop_last());
        let t = spec_trim(parts.last());
        if t.len() == 0 {
            r
        } else {
            r.push(t)
        }
    }
}

/// The boot nodes a comma-separated list names.
pub open spec fn spec_bootnodes(s: Seq<char>) -> Seq<Seq<char>> {
    nonempty_trimmed(split_commas(s))
}

pub open spec fn strings_view(v: Seq<String>) -> Seq<Seq<char>> {
    v.map_values(|x: String| x@)
}

proof fn lemma_split_len(s: Seq<char>)
    ensures
        split_commas(s).len() >= 1,
    decreases s.len(),
{
    if s.len() > 0 {
        lemma_split_len(s.drop_last());
    }
}

/// Splits a comma-separated list, trims each entry and drops empty ones.
pub fn parse_bootnodes(s: &str) -> (v: Vec<String>)
    ensures
        strings_view(v@) == spec_bootnodes(s@),
{
    let n = s.unicode_len();
    let mut out: Vec<String> = Vec::new();
    let ghost mut done: Seq<Seq<char>> = Seq::empty();
    let mut start: usize = 0;
    let mut i: usize = 0;
    proof {
        assert(s@.subrange(0, 0) =~= Seq::<char>::empty());
        assert(split_commas(s@.subrange(0, 0)) =~= done.push(s@.subrange(0, 0)));
    }
    while i < n
        invariant
            n == s@.len(),
            start <= i <= n,
            split_commas(s@.subrange(0, i as int)) == done.push(s@.subrange(start as int, i as int)),
            strings_view(out@) == nonempty_trimmed(done),
        decreases n - i,
    {
        let c = s.get_char(i);
        proof {
            let p = s@.subrange(0, i + 1);
            assert(p.drop_last() =~= s@.subrange(0, i as int));
            assert(p.last() == c);
        }
        if c == ',' {
            let piece = s.substring_char(start, i);
            let t = trim(piece);
            let ghost before = out@;
            if t.unicode_len() > 0 {
                out.push(t);
                proof {
                    assert(strings_view(out@) =~= strings_view(before).push(t@));
                }
            }
            proof {
                let old_done = done;
                done = done.push(s@.subrange(start as int, i as int));
                assert(done.drop_last() =~= old_done);
                assert(s@.subrange(i + 1, i + 1) =~= Seq::<char>::empty());
            }
            start = i + 1;
        } else {
            proof {
                let q = done.push(s@.subrange(start as int, i as int));
                assert(s@.subrange(start as int, i + 1) =~= s@.subrange(start as int, i as int).push(c));
                assert(q.update(q.len() - 1, q.last().push(c)) =~= done.push(s@.subrange(start as int, i + 1)));
            }
        }
        i = i + 1;
    }
    let piece = s.substring_char(start, n);
    let t = trim(piece);
    let ghost before = out@;
    if t.unicode_len() > 0 {
        out.push(t);
        proof {
            assert(strings_view(out@) =~= strings_view(before).push(t@));
        }
    }
    proof {
        assert(s@.subrange(0, n as int) =~= s@);
        let all = done.push(s@.subrange(start as int, n as int));
        assert(all.drop_last() =~= done);
    }
    out
}

/// The node's settings.
pub struct NodeConfig {
    pub chain_id: String,
    pub rpc: String,
    pub hybrid: String,
    pub block_time_ms: u64,
    pub faucet_aeth: u64,
    pub genesis_path: Option<String>,
    pub zk_keys: String,
    pub key_file: Option<String>,
    pub mempool_max_txs: usize,
    pub enable_shielded: bool,
    pub enable_rollups: bool,
    pub allow_noop_rollup: bool,
    pub p2p_listen: Option<String>,
    pub bootnodes: Vec<String>,
}

impl Default for NodeConfig {
    fn default() -> (c: Self)
        ensures
            c.chain_id@ == "aether-devnet-1"@,
            c.rpc@ == "127.0.0.1:8545"@,
            c.hybrid@ == "public"@,
            c.block_time_ms == 1000,
            c.faucet_aeth == 1_000_000,
            c.genesis_path matches Some(p) && p@ == "config/genesis.public.json"@,
            c.zk_keys@ == "data/zk_keys.json"@,
            c.key_file is None,
            c.mempool_max_txs == 5000,
            c.enable_shielded,
            c.enable_rollups,
            !c.allow_noop_rollup,
            c.p2p_listen matches Some(p) && p@ == "127.0.0.1:9000"@,
            c.bootnodes@.len() == 0,
    {
        NodeConfig {
            chain_id: String::from_str("aether-devnet-1"),
            rpc: String::from_str("127.0.0.1:8545"),
            hybrid: String::from_str("public"),
            block_time_ms: 1000,
            faucet_aeth: 1_000_000,
            genesis_path: Some(String::from_str("config/genesis.public.json")),
            zk_keys: String::from_str("data/zk_keys.json"),
            key_file: None,
            mempool_max_txs: 5000,
            enable_shielded: true,
            enable_rollups: true,
            allow_noop_rollup: false,
            p2p_listen: Some(String::from_str("127.0.0.1:9000")),
            bootnodes: Vec::new(),
        }
    }
}

/// Settings given in a configuration file (or on the command line), each
/// optional.
pub struct NodeOverrides {
    pub chain_id: Option<String>,
    pub rpc: Option<String>,
    pub hybrid: Option<String>,
    pub block_time_ms: Option<u64>,
    pub faucet_aeth: Option<u64>,
    pub genesis: Option<String>,
    pub zk_keys: Option<String>,
    pub key_file: Option<String>,
    pub p2p_listen: Option<String>,
    pub bootnodes: Option<Vec<String>>,
    pub mempool_max_txs: Option<usize>,
    pub enable_shielded: Option<bool>,
    pub enable_rollups: Option<bool>,
    pub allow_noop_rollup: Option<bool>,
}

/// `o` where given, else `d`.
pub open spec fn pick<T>(o: Option<T>, d: T) -> T {
    match o {
        Some(v) => v,
        None => d,
    }
}

impl NodeConfig {
    /// These settings with every given override applied.
    pub fn with_overrides(self, o: NodeOverrides) -> (c: NodeConfig)
        ensures
            c.chain_id == pick(o.chain_id, self.chain_id),
            c.rpc == pick(o.rpc, self.rpc),
            c.hybrid == pick(o.hybrid, self.hybrid),
            c.block_time_ms == pick(o.block_time_ms, self.block_time_ms),
            c.faucet_aeth == pick(o.faucet_aeth, self.faucet_aeth),
            c.genesis_path == (if o.genesis is Some { o.genesis } else { self.genesis_path }),
            c.zk_keys == pick(o.zk_keys, self.zk_keys),
            c.key_file == (if o.key_file is Some { o.key_file } else { self.key_file }),
            c.p2p_listen == (if o.p2p_listen is Some { o.p2p_listen } else { self.p2p_listen }),
            c.bootnodes == pick(o.bootnodes, self.bootnodes),
            c.mempool_max_txs == pick(o.mempool_max_txs, self.mempool_max_txs),
            c.enable_shielded == pick(o.enable_shielded, self.enable_shielded),
            c.enable_rollups == pick(o.enable_rollups, self.enable_rollups),
            c.allow_noop_rollup == pick(o.allow_noop_rollup, self.allow_noop_rollup),
    {
        NodeConfig {
            chain_id: match o.chain_id {
                Some(v) => v,
                None => self.chain_id,
            },
            rpc: match o.rpc {
                Some(v) => v,
                None => self.rpc,
            },
            hybrid: match o.hybrid {
                Some(v) => v,
                None => self.hybrid,
            },
            block_time_ms: match o.block_time_ms {
                Some(v) => v,
                None => self.block_time_ms,
            },
            faucet_aeth: match o.faucet_aeth {
                Some(v) => v,
                None => self.faucet_aeth,
            },
            genesis_path: match o.genesis {
                Some(v) => Some(v),
                None => self.genesis_path,
            },
            zk_keys: match o.zk_keys {
                Some(v) => v,
                None => self.zk_keys,
            },
            key_file: match o.key_file {
                Some(v) => Some(v),
                None => self.key_file,
            },
            mempool_max_txs: match o.mempool_max_txs {
                Some(v) => v,
                None => self.mempool_max_txs,
            },
            enable_shielded: match o.enable_shielded {
                Some(v) => v,
                None => self.enable_shielded,
            },
            enable_rollups: match o.enable_rollups {
                Some(v) => v,
                None => self.enable_rollups,
            },
            allow_noop_rollup: match o.allow_noop_rollup {
                Some(v) => v,
                None => self.allow_noop_rollup,
            },
            p2p_listen: match o.p2p_listen {
                Some(v) => Some(v),
                None => self.p2p_listen,
            },
            bootnodes: match o.bootnodes {
                Some(v) => v,
                None => self.bootnodes,
            },
        }
    }
}

/// An amount as a genesis file writes it: absent, a string, a number that
/// fits in `u64`, another number (by its text), or another value.
pub enum JsonAmount {
    Null,
    Text(String),
    Small(u64),
    BigNumber(String),
    Other,
}

/// What an amount of a genesis file reads as.
pub open spec fn spec_amount(a: JsonAmount) -> Result<u128, Seq<char>> {
    match a {
        JsonAmount::Text(s) => match spec_parse_u128(s@) {
            Some(v) => Ok(v),
            None => Err("parse u128 string"@),
        },
        JsonAmount::Small(u) => Ok(u as u128),
        JsonAmount::BigNumber(s) => match spec_parse_u128(s@) {
            Some(v) => Ok(v),
            None => Err("parse u128 number"@),
        },
        _ => Err("expected string or number for u128"@),
    }
}

/// Reads an amount of a genesis file.
pub fn parse_amount(a: &JsonAmount) -> (r: Result<u128, String>)
    ensures
        match spec_amount(*a) {
            Ok(v) => r == Ok::<u128, String>(v),
            Err(m) => r matches Err(e) && e@ == m,
        },
{
    match a {
        JsonAmount::Text(s) => match parse_u128(s.as_str()) {
            Some(v) => Ok(v),
            None => Err(String::from_str("parse u128 string")),
        },
        JsonAmount::Small(u) => Ok(*u as u128),
        JsonAmount::BigNumber(s) => match parse_u128(s.as_str()) {
            Some(v) => Ok(v),
            None => Err(String::from_str("parse u128 number")),
        },
        _ => Err(String::from_str("expected string or number for u128")),
    }
}

/// The `params` section of a genesis file.
pub struct GenesisParamsFile {
    pub chain_id: Option<String>,
    pub epoch_length: Option<u64>,
    pub min_validator_stake: JsonAmount,
    pub max_validators: Option<usize>,
    pub unbonding_period: Option<u64>,
    pub gas_limit: Option<u64>,
    pub hybrid_mode: Option<String>,
    pub block_time_ms: Option<u64>,
}

pub struct GenesisAllocFile {
    pub address: String,
    pub balance: JsonAmount,
}

pub struct GenesisValidatorFile {
    pub address: String,
    pub public_key: String,
    pub power: JsonAmount,
}

/// A genesis file's values.
pub struct GenesisFile {
    pub chain_id: String,
    pub timestamp: u64,
    pub params: GenesisParamsFile,
    pub alloc: Vec<GenesisAllocFile>,
    pub validators: Vec<GenesisValidatorFile>,
}

/// The chain parameters a genesis file sets over the defaults.
pub open spec fn file_params_ok(p: ChainParams, f: GenesisFile) -> bool {
    &&& p.chain_id@ == (match f.params.chain_id {
        Some(c) => c@,
        None => f.chain_id@,
    })
    &&& p.epoch_length == pick(f.params.epoch_length, 100)
    &&& p.max_validators == pick(f.params.max_validators, 100)
    &&& p.unbonding_period == pick(f.params.unbonding_period, 21)
    &&& p.gas_limit == pick(f.params.gas_limit, 30_000_000)
    &&& p.hybrid_mode == (match f.params.hybrid_mode {
        Some(h) => spec_parse_hybrid(h@),
        None => HybridMode::Public,
    })
    &&& p.block_time_ms == pick(f.params.block_time_ms, 1000)
    &&& p.min_validator_stake == (match f.params.min_validator_stake {
        JsonAmount::Null => (10_000 * WEI_PER_AETH) as u128,
        a => spec_amount(a)->Ok_0,
    })
}

/// The genesis a genesis file describes: its chain id and time, the
/// parameters it sets over the defaults, and its allocations and
/// validators with addresses, keys and amounts decoded.
pub fn genesis_from_file(g: GenesisFile) -> (r: Result<Genesis, String>)
    ensures
        r matches Ok(gen) ==> {
            &&& gen.chain_id == g.chain_id
            &&& gen.timestamp == g.timestamp
            &&& file_params_ok(gen.params, g)
            &&& gen.alloc@.len() == g.alloc@.len()
            &&& forall|i: int| 0 <= i < g.alloc@.len() ==> {
                &&& spec_parse_fixed(encode_utf8((#[trigger] g.alloc@[i]).address@), 20, "address must be 20 bytes"@) == Ok::<
                    Seq<u8>,
                    Seq<char>,
                >(gen.alloc@[i].address@)
                &&& spec_amount(g.alloc@[i].balance) == Ok::<u128, Seq<char>>(gen.alloc@[i].balance)
            }
            &&& gen.validators@.len() == g.validators@.len()
            &&& forall|i: int| 0 <= i < g.validators@.len() ==> {
                &&& spec_parse_fixed(encode_utf8((#[trigger] g.validators@[i]).address@), 20, "address must be 20 bytes"@) == Ok::<
                    Seq<u8>,
                    Seq<char>,
                >(gen.validators@[i].address@)
                &&& spec_hex_decode(strip_0x(encode_utf8(g.validators@[i].public_key@))) == Some(gen.validators@[i].public_key@)
                &&& spec_amount(g.validators@[i].power) == Ok::<u128, Seq<char>>(gen.validators@[i].power)
            }
        },
        r is Err ==> (!(g.params.min_validator_stake is Null) && spec_amount(g.params.min_validator_stake) is Err) || (exists|i: int|
            0 <= i < g.alloc@.len() && (spec_parse_fixed(encode_utf8((#[trigger] g.alloc@[i]).address@), 20, "address must be 20 bytes"@) is Err
                || spec_amount(g.alloc@[i].balance) is Err)) || (exists|i: int|
            0 <= i < g.validators@.len() && (spec_parse_fixed(encode_utf8((#[trigger] g.validators@[i]).address@), 20, "address must be 20 bytes"@) is Err
                || spec_hex_decode(strip_0x(encode_utf8(g.validators@[i].public_key@))) is None || spec_amount(g.validators@[i].power) is Err)),
{
    let mut params = ChainParams::default();
    params.chain_id = match &g.params.chain_id {
        Some(c) => c.clone(),
        None => g.chain_id.clone(),
    };
    match g.params.epoch_length {
        Some(v) => params.epoch_length = v,
        None => {},
    }
    match &g.params.min_validator_stake {
        JsonAmount::Null => {},
        a => {
            params.min_validator_stake = match parse_amount(a) {
                Ok(v) => v,
                Err(e) => {
                    return Err(e);
                },
            };
        },
    }
    match g.params.max_validators {
        Some(v) => params.max_validators = v,
        None => {},
    }
    match g.params.unbonding_period {
        Some(v) => params.unbonding_period = v,
        None => {},
    }
    match g.params.gas_limit {
        Some(v) => params.gas_limit = v,
        None => {},
    }
    match &g.params.hybrid_mode {
        Some(h) => params.hybrid_mode = parse_hybrid(h.as_str()),
        None => {},
    }
    match g.params.block_time_ms {
        Some(v) => params.block_time_ms = v,
        None => {},
    }
    let mut alloc: Vec<GenesisAlloc> = Vec::new();
    let mut i: usize = 0;
    while i < g.alloc.len()
        invariant
            i <= g.alloc@.len(),
            alloc@.len() == i,
            forall|k: int| 0 <= k < i ==> {
                &&& spec_parse_fixed(encode_utf8((#[trigger] g.alloc@[k]).address@), 20, "address must be 20 bytes"@) == Ok::<
                    Seq<u8>,
                    Seq<char>,
                >(alloc@[k].address@)
                &&& spec_amount(g.alloc@[k].balance) == Ok::<u128, Seq<char>>(alloc@[k].balance)
            },
        decreases g.alloc@.len() - i,
    {
        let a = &g.alloc[i];
        assert(g.alloc@[i as int] == *a);
        let address = match parse_addr(a.address.as_str()) {
            Ok(x) => x,
            Err(e) => {
                return Err(e);
            },
        };
        let balance = match parse_amount(&a.balance) {
            Ok(v) => v,
            Err(e) => {
                return Err(e);
            },
        };
        alloc.push(GenesisAlloc { address, balance });
        i = i + 1;
    }
    let mut validators: Vec<GenesisValidator> = Vec::new();
    let mut j: usize = 0;
    while j < g.validators.len()
        invariant
            j <= g.validators@.len(),
            validators@.len() == j,
            forall|k: int| 0 <= k < j ==> {
                &&& spec_parse_fixed(encode_utf8((#[trigger] g.validators@[k]).address@), 20, "address must be 20 bytes"@) == Ok::<
                    Seq<u8>,
                    Seq<char>,
                >(validators@[k].address@)
                &&& spec_hex_decode(strip_0x(encode_utf8(g.validators@[k].public_key@))) == Some(validators@[k].public_key@)
                &&& spec_amount(g.validators@[k].power) == Ok::<u128, Seq<char>>(validators@[k].power)
            },
        decreases g.validators@.len() - j,
    {
        let v = &g.validators[j];
        assert(g.validators@[j as int] == *v);
        let address = match parse_addr(v.address.as_str()) {
            Ok(x) => x,
            Err(e) => {
                return Err(e);
            },
        };
        let public_key = match hex_decode(strip_hex_prefix(v.public_key.as_str().as_bytes())) {
            Ok(b) => b,
            Err(e) => {
                return Err(e);
            },
        };
        let power = match parse_amount(&v.power) {
            Ok(p) => p,
            Err(e) => {
                return Err(e);
            },
        };
        validators.push(GenesisValidator { address, public_key, power });
        j = j + 1;
    }
    Ok(Genesis { chain_id: g.chain_id, alloc, validators, params, timestamp: g.timestamp })
}

/// The genesis of a single-node devnet: the node's address funded with the
/// faucet amount and bonded as the only validator.
pub fn default_genesis(cfg: &NodeConfig, addr: Address, public_key: Vec<u8>, hybrid: HybridMode) -> (g: Genesis)
    requires
        cfg.faucet_aeth * WEI_PER_AETH <= u128::MAX,
    ensures
        g.chain_id@ == cfg.chain_id@,
        g.params.chain_id@ == cfg.chain_id@,
        g.params.hybrid_mode == hybrid,
        g.params.block_time_ms == cfg.block_time_ms,
        g.params.epoch_length == 100,
        g.params.gas_limit == 30_000_000,
        g.alloc@.len() == 1,
        g.alloc@[0].address == addr,
        g.alloc@[0].balance == cfg.faucet_aeth * WEI_PER_AETH,
        g.validators@.len() == 1,
        g.validators@[0].address == addr,
        g.validators@[0].public_key@ == public_key@,
        g.validators@[0].power == 10_000 * WEI_PER_AETH,
        g.timestamp == 0,
{
    let mut params = ChainParams::default();
    params.chain_id = cfg.chain_id.clone();
    params.hybrid_mode = hybrid;
    params.block_time_ms = cfg.block_time_ms;
    let mut alloc: Vec<GenesisAlloc> = Vec::new();
    alloc.push(GenesisAlloc { address: addr, balance: (cfg.faucet_aeth as u128) * WEI_PER_AETH });
    let mut validators: Vec<GenesisValidator> = Vec::new();
    validators.push(GenesisValidator { address: addr, public_key, power: 10_000 * WEI_PER_AETH });
    Genesis { chain_id: cfg.chain_id.clone(), alloc, validators, params, timestamp: 0 }
}

/// The validator a node adds to a genesis without validators: itself,
/// with 10,000 AETH of power.
pub open spec fn self_validator_power() -> int {
    10_000 * WEI_PER_AETH
}

/// Completes a genesis for this node: with no validators it gets the node
/// as its only validator, with no allocations the node's faucet balance;
/// the hybrid mode and block time are the node's, and a non-empty
/// configured chain id replaces the genesis one.
pub fn prepare_genesis(g: Genesis, cfg: &NodeConfig, addr: Address, public_key: Vec<u8>, hybrid: HybridMode) -> (r: Genesis)
    requires
        cfg.faucet_aeth * WEI_PER_AETH <= u128::MAX,
    ensures
        g.validators@.len() == 0 ==> r.validators@.len() == 1 && r.validators@[0].address == addr && r.validators@[0].public_key@
            == public_key@ && r.validators@[0].power == self_validator_power(),
        g.validators@.len() > 0 ==> r.validators == g.validators,
        g.alloc@.len() == 0 ==> r.alloc@ == seq![GenesisAlloc { address: addr, balance: (cfg.faucet_aeth * WEI_PER_AETH) as u128 }],
        g.alloc@.len() > 0 ==> r.alloc == g.alloc,
        r.params == (ChainParams {
            hybrid_mode: hybrid,
            block_time_ms: cfg.block_time_ms,
            chain_id: r.params.chain_id,
            ..g.params
        }),
        cfg.chain_id@.len() > 0 ==> r.chain_id@ == cfg.chain_id@ && r.params.chain_id@ == cfg.chain_id@,
        cfg.chain_id@.len() == 0 ==> r.chain_id == g.chain_id && r.params.chain_id == g.params.chain_id,
        r.timestamp == g.timestamp,
{
    let mut g = g;
    if g.validators.len() == 0 {
        g.validators.push(GenesisValidator { address: addr, public_key, power: 10_000 * WEI_PER_AETH });
    }
    if g.alloc.len() == 0 {
        g.alloc.push(GenesisAlloc { address: addr, balance: (cfg.faucet_aeth as u128) * WEI_PER_AETH });
        proof {
            assert(g.alloc@ =~= seq![GenesisAlloc { address: addr, balance: (cfg.faucet_aeth * WEI_PER_AETH) as u128 }]);
        }
    }
    g.params.hybrid_mode = hybrid;
    g.params.block_time_ms = cfg.block_time_ms;
    if cfg.chain_id.unicode_len() > 0 {
        g.chain_id = cfg.chain_id.clone();
        g.params.chain_id = cfg.chain_id.clone();
    }
    g
}

/// The `[limits]` table of a node's TOML file.
#[derive(Clone, Debug)]
pub struct LimitsToml {
    pub mempool_max_txs: Option<usize>,
    pub rpc_max_body_bytes: Option<usize>,
}

/// The `[features]` table of a node's TOML file.
#[derive(Clone, Debug)]
pub struct FeaturesToml {
    pub enable_shielded: Option<bool>,
    pub enable_rollups: Option<bool>,
    pub allow_noop_rollup: Option<bool>,
}

/// A node's TOML configuration file, every key optional.
#[derive(Clone, Debug)]
pub struct NodeToml {
    pub chain_id: Option<String>,
    pub rpc: Option<String>,
    pub hybrid: Option<String>,
    pub block_time_ms: Option<u64>,
    pub faucet_aeth: Option<u64>,
    pub genesis: Option<String>,
    pub zk_keys: Option<String>,
    pub key_file: Option<String>,
    pub p2p_listen: Option<String>,
    pub bootnodes: Option<Vec<String>>,
    pub limits: Option<LimitsToml>,
    pub features: Option<FeaturesToml>,
}

/// The text of `o` if given, else `d`.
pub open spec fn pick_view(o: Option<String>, d: Seq<char>) -> Seq<char> {
    match o {
        Some(v) => v@,
        None => d,
    }
}

/// The value of an optional key of an optional table.
pub open spec fn nested<T, U>(t: Option<T>, f: spec_fn(T) -> Option<U>) -> Option<U> {
    match t {
        Some(x) => f(x),
        None => None,
    }
}

impl NodeToml {
    /// The settings this file gives, as overrides of the defaults.
    pub fn overrides(self) -> (o: NodeOverrides)
        ensures
            o.chain_id == self.chain_id,
            o.rpc == self.rpc,
            o.hybrid == self.hybrid,
            o.block_time_ms == self.block_time_ms,
            o.faucet_aeth == self.faucet_aeth,
            o.genesis == self.genesis,
            o.zk_keys == self.zk_keys,
            o.key_file == self.key_file,
            o.p2p_listen == self.p2p_listen,
            o.bootnodes == self.bootnodes,
            o.mempool_max_txs == nested(self.limits, |l: LimitsToml| l.mempool_max_txs),
            o.enable_shielded == nested(self.features, |f: FeaturesToml| f.enable_shielded),
            o.enable_rollups == nested(self.features, |f: FeaturesToml| f.enable_rollups),
            o.allow_noop_rollup == nested(self.features, |f: FeaturesToml| f.allow_noop_rollup),
    {
        let (mempool_max_txs, _body) = match self.limits {
            Some(l) => (l.mempool_max_txs, l.rpc_max_body_bytes),
            None => (None, None),
        };
        let (enable_shielded, enable_rollups, allow_noop_rollup) = match self.features {
            Some(f) => (f.enable_shielded, f.enable_rollups, f.allow_noop_rollup),
            None => (None, None, None),
        };
        NodeOverrides {
            chain_id: self.chain_id,
            rpc: self.rpc,
            hybrid: self.hybrid,
            block_time_ms: self.block_time_ms,
            faucet_aeth: self.faucet_aeth,
            genesis: self.genesis,
            zk_keys: self.zk_keys,
            key_file: self.key_file,
            p2p_listen: self.p2p_listen,
            bootnodes: self.bootnodes,
            mempool_max_txs,
            enable_shielded,
            enable_rollups,
            allow_noop_rollup,
        }
    }
}

impl NodeConfig {
    /// The configuration a TOML file gives: the defaults, with each key
    /// the file sets taken from it.
    pub fn from_toml(t: NodeToml) -> (c: NodeConfig)
        ensures
            c.chain_id@ == pick_view(t.chain_id, "aether-devnet-1"@),
            c.rpc@ == pick_view(t.rpc, "127.0.0.1:8545"@),
            c.hybrid@ == pick_view(t.hybrid, "public"@),
            c.block_time_ms == pick(t.block_time_ms, 1000),
            c.faucet_aeth == pick(t.faucet_aeth, 1_000_000),
            c.genesis_path matches Some(p) && p@ == pick_view(t.genesis, "config/genesis.public.json"@),
            c.zk_keys@ == pick_view(t.zk_keys, "data/zk_keys.json"@),
            c.key_file == t.key_file,
            c.p2p_listen matches Some(p) && p@ == pick_view(t.p2p_listen, "127.0.0.1:9000"@),
            t.bootnodes is Some ==> c.bootnodes == t.bootnodes->0,
            t.bootnodes is None ==> c.bootnodes@.len() == 0,
            c.mempool_max_txs == pick(nested(t.limits, |l: LimitsToml| l.mempool_max_txs), 5000),
            c.enable_shielded == pick(nested(t.features, |f: FeaturesToml| f.enable_shielded), true),
            c.enable_rollups == pick(nested(t.features, |f: FeaturesToml| f.enable_rollups), true),
            c.allow_noop_rollup == pick(nested(t.features, |f: FeaturesToml| f.allow_noop_rollup), false),
    {
        NodeConfig::default().with_overrides(t.overrides())
    }
}

} // verus!
