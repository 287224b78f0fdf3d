//! Indexer configuration, as read from the configuration file.
use vstd::prelude::*;
use crate::text::{upper_of, uppercase};

verus! {

/// Name of the indexer instance.
#[derive(Debug, Clone)]
pub struct GeneralConfig {
    pub indexer_name: String,
}

/// One event of a contract: its topic hash, name and parameter types.
#[derive(Debug, Clone)]
pub struct EventConfig {
    pub signature: String,
    pub name: String,
    pub params: Vec<String>,
}

/// A watched contract and the events it emits.
#[derive(Debug, Clone)]
pub struct ContractConfig {
    pub name: String,
    pub address: String,
    pub events: Vec<EventConfig>,
}

/// Polling settings and watched contracts of one chain.
#[derive(Debug, Clone)]
pub struct ChainConfig {
    pub active: bool,
    pub rpc_url: String,
    pub chain_id: u32,
    pub block_time: u64,
    pub polling_blocks: u64,
    pub reorg_buffer: u64,
    pub use_finalized: bool,
    pub contracts: Vec<ContractConfig>,
}

/// Endpoints of the message bus, the database and the cache.
#[derive(Debug, Clone)]
pub struct StorageConfig {
    pub kafka_broker: String,
    pub kafka_topics: Vec<String>,
    pub kafka_group_id: String,
    pub timescale_db_url: String,
    pub redis_url: String,
}

/// The whole configuration; chains are listed under their names.
#[derive(Debug, Clone)]
pub struct Config {
    pub general: GeneralConfig,
    pub chains: Vec<(String, ChainConfig)>,
    pub storage: StorageConfig,
}

/// Name of the environment variable that overrides a chain's RPC URL.
pub open spec fn rpc_url_var_of(chain_name: Seq<char>) -> Seq<char> {
    upper_of(chain_name) + "_RPC_URL"@
}

/// Name of the environment variable that overrides a chain's RPC URL:
/// the chain's name in upper case, then `_RPC_URL`.
pub fn rpc_url_var(chain_name: &str) -> (r: String)
    ensures
        r@ == rpc_url_var_of(chain_name@),
{
    let mut v = uppercase(chain_name);
    v.append("_RPC_URL");
    v
}

/// The pieces of a text between commas, in order; a text without commas
/// is one piece.
pub open spec fn comma_pieces(s: Seq<char>) -> Seq<Seq<char>>
    decreases s.len(),
{
    if s.len() == 0 {
        seq![Seq::empty()]
    } else {
        let rest = comma_pieces(s.drop_last());
        if s.last() == ',' {
            rest.push(Seq::empty())
        } else {
            rest.update(rest.len() - 1, rest.last().push(s.last()))
        }
    }
}

proof fn lemma_comma_pieces_nonempty(s: Seq<char>)
    ensures
        comma_pieces(s).len() >= 1,
    decreases s.len(),
{
    if s.len() > 0 {
        lemma_comma_pieces_nonempty(s.drop_last());
    }
}

/// Splits a comma-separated list of topics.
pub fn split_topics(s: &str) -> (r: Vec<String>)
    ensures
        r@.map_values(|p: String| p@) == comma_pieces(s@),
{
    let n = s.unicode_len();
    let mut out: Vec<String> = Vec::new();
    let mut start: usize = 0;
    let mut i: usize = 0;
    proof {
        assert(s@.take(0) =~= Seq::<char>::empty());
        assert(out@.map_values(|p: String| p@).push(s@.subrange(0, 0)) =~= seq![Seq::<char>::empty()]);
    }
    while i < n
        invariant
            n == s@.len(),
            start <= i <= n,
            out@.map_values(|p: String| p@).push(s@.subrange(start as int, i as int)) == comma_pieces(
                s@.take(i as int),
            ),
        decreases n - i,
    {
        let c = s.get_char(i);
        let ghost before = out@.map_values(|p: String| p@);
        proof {
            assert(s@.take(i + 1).drop_last() =~= s@.take(i as int));
            assert(s@.take(i + 1).last() == c);
            lemma_comma_pieces_nonempty(s@.take(i as int));
        }
        if c == ',' {
            let ghost s0 = start;
            out.push(String::from_str(s.substring_char(start, i)));
            start = i + 1;
            proof {
                assert(out@.map_values(|p: String| p@) =~= before.push(s@.subrange(s0 as int, i as int)));
                assert(s@.subrange(start as int, i + 1) =~= Seq::<char>::empty());
            }
        } else {
            proof {
                assert(s@.subrange(start as int, i + 1) =~= s@.subrange(start as int, i as int).push(c));
            }
        }
        i = i + 1;
    }
    out.push(String::from_str(s.substring_char(start, n)));
    proof {
        assert(s@.take(n as int) =~= s@);
    }
    out
}

} // verus!
