//! Handles on the key-value cache that holds cursors, pending entries and
//! usage counters. Only the client is opened here; commands run outside.
use vstd::prelude::*;
use std::sync::Arc;
use crate::numeric::{decimal_text, format_decimal};

verus! {

#[verifier::external_type_specification]
#[verifier::external_body]
pub struct ExRedisClient(redis::Client);

#[verifier::external_type_specification]
#[verifier::external_body]
pub struct ExRedisError(redis::RedisError);

/// Whether `redis::Client::open` accepts a connection URL.
pub uninterp spec fn redis_url_accepted(url: Seq<char>) -> bool;

/// Relies on `redis::Client::open`, which only parses the URL into
/// connection settings and opens no connection: success depends on the
/// text alone.
#[verifier::external_body]
fn open_client(url: &str) -> (r: Result<redis::Client, redis::RedisError>)
    ensures
        r is Ok <==> redis_url_accepted(url@),
{
    redis::Client::open(url)
}

/// Cache key of a chain's cursor: `sync_block:{chain_id}`.
pub fn sync_key(chain_id: u32) -> (r: String)
    ensures
        r@ == "sync_block:"@ + decimal_text(chain_id as nat),
{
    let mut k = String::from_str("sync_block:");
    let n = format_decimal(chain_id as u128);
    k.append(n.as_str());
    k
}

/// Coordinates cursors, pending entries and usage counters in the cache.
pub struct RedisCoordinator {
    redis: redis::Client,
}

impl RedisCoordinator {
    /// Opens a client for `redis_url`; fails when the URL cannot be read.
    pub fn new(redis_url: &str) -> (r: Result<RedisCoordinator, redis::RedisError>)
        ensures
            r is Ok <==> redis_url_accepted(redis_url@),
    {
        match open_client(redis_url) {
            Ok(client) => Ok(RedisCoordinator { redis: client }),
            Err(e) => Err(e),
        }
    }

    /// The client, to open connections with.
    pub fn client(&self) -> &redis::Client {
        &self.redis
    }
}

/// A cache of raw events by name.
pub struct RedisStorage {
    client: redis::Client,
}

impl RedisStorage {
    /// Opens a shared client for `redis_url`; fails when the URL cannot be read.
    pub fn new(redis_url: &str) -> (r: Result<Arc<RedisStorage>, redis::RedisError>)
        ensures
            r is Ok <==> redis_url_accepted(redis_url@),
    {
        match open_client(redis_url) {
            Ok(client) => Ok(Arc::new(RedisStorage { client })),
            Err(e) => Err(e),
        }
    }

    /// The client, to open connections with.
    pub fn client(&self) -> &redis::Client {
        &self.client
    }
}

} // verus!
