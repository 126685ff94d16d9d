//! The wire-level gossip protocol: the versioned envelope peers exchange and
//! the ingest path for batches of peer blocks. The envelope rejects unknown
//! protocol versions, empty identifiers, and timestamps outside the allowed
//! clock skew; a block batch is committed only for the prefix that validates.

use vstd::prelude::*;
use vstd::string::StringExecFns;
use vstd::string::StrSliceExecFns;
use crate::block::{Block, pow_ok};
use crate::chain::{Blockchain, block_verdict, replay_verdict};
use crate::hashing::{dec_chars_of, push_dec_chars};
use crate::runtime::{new_uuid, now_unix, trim_of, trimmed};

verus! {

/// The protocol version this node speaks.
pub open spec fn p2p_protocol_version() -> Seq<char> {
    "hikmalayer-p2p/1"@
}

/// The protocol version string.
pub fn protocol_version() -> (r: &'static str)
    ensures
        r@ == p2p_protocol_version(),
{
    "hikmalayer-p2p/1"
}

/// What an envelope carries.
pub enum P2PPayload {
    Ping,
    PeerAnnounce { address: String },
    Block(Block),
    BlockBatch(Vec<Block>),
}

/// The wrapper every gossip message travels in.
pub struct P2PEnvelope {
    pub protocol_version: String,
    pub node_id: String,
    pub message_id: String,
    pub timestamp: u64,
    pub payload: P2PPayload,
}

/// The report an envelope outside the allowed clock skew earns.
pub open spec fn skew_text(max_skew: nat) -> Seq<char> {
    "P2P envelope timestamp exceeds allowed skew ("@ + dec_chars_of(max_skew) + "s)"@
}

/// An identifier counts as missing when nothing but whitespace is in it.
pub open spec fn blank(s: Seq<char>) -> bool {
    trim_of(s).len() == 0
}

impl P2PEnvelope {
    /// Wraps a payload with this node's identity, a fresh message
    /// identifier, and the current time.
    pub fn new(node_id: String, payload: P2PPayload) -> (env: P2PEnvelope)
        ensures
            env.protocol_version@ == p2p_protocol_version(),
            env.node_id == node_id,
            env.message_id@.len() == 36,
            !blank(env.message_id@),
            env.payload == payload,
    {
        P2PEnvelope {
            protocol_version: String::from_str(protocol_version()),
            node_id,
            message_id: new_uuid(),
            timestamp: now_unix(),
            payload,
        }
    }

    /// Judges an envelope as seen at time `now`: the protocol version must
    /// match, the node and message identifiers may not be blank (empty or
    /// whitespace only), and the timestamp may sit at most
    /// `max_clock_skew_seconds` from `now` in either direction. First
    /// failure wins.
    pub fn validate_at(&self, now: u64, max_clock_skew_seconds: u64) -> (r: Result<(), String>)
        ensures
            ({
                let skew = if now >= self.timestamp {
                    now - self.timestamp
                } else {
                    self.timestamp - now
                };
                match r {
                    Ok(()) => {
                        &&& self.protocol_version@ == p2p_protocol_version()
                        &&& !blank(self.node_id@)
                        &&& !blank(self.message_id@)
                        &&& skew <= max_clock_skew_seconds
                    },
                    Err(m) => if self.protocol_version@ != p2p_protocol_version() {
                        m@ == "Unsupported P2P protocol version"@
                    } else if blank(self.node_id@) {
                        m@ == "Missing node_id in P2P envelope"@
                    } else if blank(self.message_id@) {
                        m@ == "Missing message_id in P2P envelope"@
                    } else {
                        skew > max_clock_skew_seconds && m@ == skew_text(
                            max_clock_skew_seconds as nat,
                        )
                    },
                }
            }),
    {
        let version = protocol_version().to_owned();
        if !self.protocol_version.eq(&version) {
            return Err(String::from_str("Unsupported P2P protocol version"));
        }
        if trimmed(self.node_id.as_str()).unicode_len() == 0 {
            return Err(String::from_str("Missing node_id in P2P envelope"));
        }
        if trimmed(self.message_id.as_str()).unicode_len() == 0 {
            return Err(String::from_str("Missing message_id in P2P envelope"));
        }
        let skew = if now >= self.timestamp {
            now - self.timestamp
        } else {
            self.timestamp - now
        };
        if skew > max_clock_skew_seconds {
            let mut m = String::from_str("P2P envelope timestamp exceeds allowed skew (");
            push_dec_chars(&mut m, max_clock_skew_seconds);
            m.append("s)");
            return Err(m);
        }
        Ok(())
    }

    /// Judges an envelope against the wall clock now. Whatever the clock
    /// reads, acceptance implies the version and identifier checks passed,
    /// those checks fail independently of it, and once they pass only the
    /// skew can still reject.
    pub fn validate(&self, max_clock_skew_seconds: u64) -> (r: Result<(), String>)
        ensures
            r is Ok ==> {
                &&& self.protocol_version@ == p2p_protocol_version()
                &&& !blank(self.node_id@)
                &&& !blank(self.message_id@)
            },
            self.protocol_version@ != p2p_protocol_version() ==> (match r {
                Err(m) => m@ == "Unsupported P2P protocol version"@,
                Ok(_) => false,
            }),
            self.protocol_version@ == p2p_protocol_version() && blank(self.node_id@) ==> (
            match r {
                Err(m) => m@ == "Missing node_id in P2P envelope"@,
                Ok(_) => false,
            }),
            self.protocol_version@ == p2p_protocol_version() && !blank(self.node_id@) && blank(
                self.message_id@,
            ) ==> (match r {
                Err(m) => m@ == "Missing message_id in P2P envelope"@,
                Ok(_) => false,
            }),
            self.protocol_version@ == p2p_protocol_version() && !blank(self.node_id@) && !blank(
                self.message_id@,
            ) ==> (match r {
                Err(m) => m@ == skew_text(max_clock_skew_seconds as nat),
                Ok(_) => true,
            }),
    {
        let now = now_unix();
        self.validate_at(now, max_clock_skew_seconds)
    }
}

/// The acknowledgement a committed batch earns.
pub open spec fn accepted_text(n: nat) -> Seq<char> {
    "Accepted "@ + dec_chars_of(n) + " blocks"@
}

/// Renders the acknowledgement for `n` accepted blocks.
pub fn accepted_message(n: u64) -> (m: String)
    ensures
        m@ == accepted_text(n as nat),
{
    let mut m = String::from_str("Accepted ");
    push_dec_chars(&mut m, n);
    m.append(" blocks");
    m
}

/// Ingests a batch of peer blocks in order: each is validated as a candidate
/// on the current tip and appended on success; the first rejection stops the
/// batch, and everything after it is dropped. Finality is re-applied after
/// any acceptance. Returns how many blocks were appended.
#[verifier::rlimit(100)]
#[verifier::loop_isolation(false)]
pub fn ingest_blocks(
    chain: &mut Blockchain,
    blocks: Vec<Block>,
    finality_depth: u64,
) -> (accepted: usize)
    requires
        old(chain).wf(),
        old(chain).blocks@.len() + blocks@.len() <= u64::MAX,
    ensures
        final(chain).wf(),
        final(chain).difficulty == old(chain).difficulty,
        final(chain).finalized_height >= old(chain).finalized_height,
        accepted <= blocks@.len(),
        final(chain).blocks@.len() == old(chain).blocks@.len() + accepted,
        final(chain).blocks@ == old(chain).blocks@ + blocks@.take(accepted as int),
        forall|k: int|
            old(chain).blocks@.len() <= k < final(chain).blocks@.len() && k > 0
                ==> replay_verdict(final(chain).blocks@, k) is None,
        old(chain).blocks@.len() == 0 && accepted > 0 ==> pow_ok(final(chain).blocks@[0]),
        accepted < blocks@.len() ==> block_verdict(
            final(chain).blocks@.len() as int,
            final(chain).spec_latest_hash(),
            blocks@[accepted as int],
        ) is Some,
        accepted > 0 ==> final(chain).finalized_height == (if final(chain).blocks@.len()
            > finality_depth && final(chain).blocks@.len() - 1 - finality_depth > old(
            chain,
        ).finalized_height {
            (final(chain).blocks@.len() - 1 - finality_depth) as u64
        } else {
            old(chain).finalized_height
        }),
        accepted == 0 ==> *final(chain) == *old(chain),
{
    let ghost incoming = blocks@;
    let batch_len = blocks.len();
    let mut blocks = blocks;
    let mut accepted: usize = 0;
    while blocks.len() > 0
        invariant
            incoming.len() == batch_len,
            chain.wf(),
            chain.difficulty == old(chain).difficulty,
            chain.finalized_height == old(chain).finalized_height,
            accepted <= incoming.len(),
            blocks@ =~= incoming.skip(accepted as int),
            chain.blocks@.len() == old(chain).blocks@.len() + accepted,
            chain.blocks@ =~= old(chain).blocks@ + incoming.take(accepted as int),
            forall|k: int|
                old(chain).blocks@.len() <= k < chain.blocks@.len() && k > 0 ==> replay_verdict(
                    chain.blocks@,
                    k,
                ) is None,
            old(chain).blocks@.len() == 0 && accepted > 0 ==> pow_ok(chain.blocks@[0]),
            old(chain).blocks@.len() + incoming.len() <= u64::MAX,
            accepted == 0 ==> *chain == *old(chain),
        decreases blocks@.len(),
    {
        let ghost pre = chain.blocks@;
        let next = blocks.remove(0);
        match chain.validate_candidate(&next) {
            Ok(()) => {
                proof {
                    reveal(block_verdict);
                }
                chain.append(next);
                accepted = accepted + 1;
                proof {
                    assert(chain.blocks@ =~= old(chain).blocks@ + incoming.take(accepted as int));
                    let cur = chain.blocks@;
                    assert forall|k: int|
                        old(chain).blocks@.len() <= k < cur.len() && k > 0
                            implies replay_verdict(cur, k) is None by {
                        if k < cur.len() - 1 {
                            assert(replay_verdict(pre, k) is None);
                            assert(cur[k] == pre[k]);
                            assert(cur[k - 1] == pre[k - 1]);
                            assert(replay_verdict(cur, k) == replay_verdict(pre, k));
                        } else {
                            assert(k == pre.len());
                            assert(cur[k] == next);
                            assert(pre.len() > 0);
                            assert(cur[k - 1] == pre[pre.len() - 1]);
                            assert(pre[pre.len() - 1] == pre.last());
                            assert(block_verdict(pre.len() as int, pre.last().hash@, next)
                                is None);
                            assert(replay_verdict(cur, k) is None);
                        }
                    }
                }
            },
            Err(_) => {
                proof {
                    assert(incoming.skip(accepted as int)[0] == incoming[accepted as int]);
                }
                if accepted > 0 {
                    chain.apply_finality(finality_depth);
                }
                return accepted;
            },
        }
    }
    if accepted > 0 {
        chain.apply_finality(finality_depth);
    }
    accepted
}

} // verus!
