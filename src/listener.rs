//! Decisions of one polling pass of a chain listener: the block window to
//! fetch and where the per-chain cursor moves afterwards.
use vstd::prelude::*;
use crate::config::ChainConfig;

verus! {

/// An inclusive range of blocks `[from, to]` with `from <= to`.
#[derive(Debug, Clone, Copy, PartialEq, Eq, Structural)]
pub struct BlockWindow {
    pub from: u64,
    pub to: u64,
}

/// `a - b`, or zero when `b > a`.
pub open spec fn sat_sub(a: u64, b: u64) -> u64 {
    if a >= b {
        (a - b) as u64
    } else {
        0
    }
}

/// Last block a pass may index: the finalized block when the chain uses it
/// and one is known, else `latest - reorg_buffer`.
pub open spec fn window_end(
    latest: u64,
    finalized: Option<u64>,
    use_finalized: bool,
    reorg_buffer: u64,
) -> u64 {
    match finalized {
        Some(f) if use_finalized => f,
        _ => sat_sub(latest, reorg_buffer),
    }
}

/// Window of a pass that ends at `to`: resume after the cursor, or on a cold
/// start look back `polling_blocks`; `None` when there is nothing new.
pub open spec fn window_from(to: u64, last_synced: Option<u64>, polling_blocks: u64) -> Option<
    BlockWindow,
> {
    match last_synced {
        Some(c) => if c < to {
            Some(BlockWindow { from: (c + 1) as u64, to })
        } else {
            None
        },
        None => Some(BlockWindow { from: sat_sub(to, polling_blocks), to }),
    }
}

/// Chooses the block window of a polling pass.
///
/// `latest` is the chain head, `finalized` the finalized block if it was
/// fetched, and `last_synced` the stored cursor of the chain. A cursor that
/// could not be read counts as absent.
pub fn choose_window(
    latest: u64,
    finalized: Option<u64>,
    last_synced: Option<u64>,
    chain: &ChainConfig,
) -> (r: Option<BlockWindow>)
    ensures
        r == window_from(
            window_end(latest, finalized, chain.use_finalized, chain.reorg_buffer),
            last_synced,
            chain.polling_blocks,
        ),
        r matches Some(w) ==> w.from <= w.to,
{
    let to = match finalized {
        Some(f) if chain.use_finalized => f,
        _ => latest.saturating_sub(chain.reorg_buffer),
    };
    match last_synced {
        Some(c) => if c < to {
            Some(BlockWindow { from: c + 1, to })
        } else {
            None
        },
        None => Some(BlockWindow { from: to.saturating_sub(chain.polling_blocks), to }),
    }
}

/// Highest block number among the logs that carry one.
pub open spec fn max_block(s: Seq<Option<u64>>) -> Option<u64>
    decreases s.len(),
{
    if s.len() == 0 {
        None
    } else {
        let rest = max_block(s.drop_last());
        match s.last() {
            Some(b) => match rest {
                Some(m) => Some(if b > m { b } else { m }),
                None => Some(b),
            },
            None => rest,
        }
    }
}

/// Where the cursor moves after a pass over `window` whose logs carried
/// `blocks`: to the highest block seen, or to the window's end when no log
/// came back. Nothing moves when a log could not be handed on.
pub open spec fn cursor_after(blocks: Seq<Option<u64>>, window: BlockWindow, delivered: bool) -> Option<
    u64,
> {
    if !delivered {
        None
    } else if blocks.len() == 0 {
        Some(window.to)
    } else {
        max_block(blocks)
    }
}

/// New cursor after a pass, if it moves.
///
/// `blocks` holds the block number of each returned log, in order;
/// `delivered` says whether every log reached the processor.
pub fn next_cursor(blocks: &Vec<Option<u64>>, window: BlockWindow, delivered: bool) -> (r: Option<
    u64,
>)
    ensures
        r == cursor_after(blocks@, window, delivered),
{
    if !delivered {
        return None;
    }
    if blocks.len() == 0 {
        return Some(window.to);
    }
    let mut best: Option<u64> = None;
    let mut i: usize = 0;
    while i < blocks.len()
        invariant
            i <= blocks@.len(),
            best == max_block(blocks@.take(i as int)),
        decreases blocks@.len() - i,
    {
        proof {
            assert(blocks@.take(i + 1).drop_last() =~= blocks@.take(i as int));
        }
        match blocks[i] {
            Some(b) => {
                best = match best {
                    Some(m) => Some(if b > m { b } else { m }),
                    None => Some(b),
                };
            },
            None => {},
        }
        i = i + 1;
    }
    proof {
        assert(blocks@.take(i as int) =~= blocks@);
    }
    best
}

proof fn lemma_max_block_bounds(s: Seq<Option<u64>>, lo: u64, hi: u64)
    requires
        forall|i: int| 0 <= i < s.len() ==> (#[trigger] s[i] matches Some(b) ==> lo <= b <= hi),
    ensures
        max_block(s) matches Some(m) ==> lo <= m <= hi,
    decreases s.len(),
{
    if s.len() > 0 {
        let t = s.drop_last();
        assert forall|i: int| 0 <= i < t.len() implies (#[trigger] t[i] matches Some(b) ==> lo <= b
            <= hi) by {
            assert(t[i] == s[i]);
        }
        lemma_max_block_bounds(t, lo, hi);
        assert(s.last() == s[s.len() - 1]);
    }
}

/// A cursor only moves forward: when a pass resumes after cursor `last`
/// and every returned log lies inside the window it asked for, the new
/// cursor, if any, is past `last` and within the window; with no logs it
/// is the window's end.
pub proof fn lemma_cursor_advances(
    last: u64,
    to: u64,
    polling_blocks: u64,
    blocks: Seq<Option<u64>>,
    delivered: bool,
)
    requires
        last < to,
        forall|i: int|
            0 <= i < blocks.len() ==> (#[trigger] blocks[i] matches Some(b) ==> last < b <= to),
    ensures
        window_from(to, Some(last), polling_blocks) matches Some(w) && w.from == last + 1 && w.to
            == to && (cursor_after(blocks, w, delivered) matches Some(c) ==> last < c <= to) && (
        delivered && blocks.len() == 0 ==> cursor_after(blocks, w, delivered) == Some(to)),
{
    let w = BlockWindow { from: (last + 1) as u64, to };
    assert(window_from(to, Some(last), polling_blocks) == Some(w));
    lemma_max_block_bounds(blocks, (last + 1) as u64, to);
}

} // verus!
