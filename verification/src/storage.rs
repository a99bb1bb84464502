//! The list of known peers and its layout in the flash sector that keeps it.
//!
//! ```text
//!   [0]      magic - 0xA5 means initialized
//!   [1]      count - number of stored peer IDs
//!   [2..34]  peers - raw u8 IDs, up to MAX_PEERS
//! ```
use vstd::prelude::*;

use crate::bounded::{peer_ids, peers_as_slice, peers_contains, peers_new, peers_push};

verus! {

/// Largest number of peers kept.
pub const MAX_PEERS: usize = 32;
/// Bytes of the sector that hold the list: magic, count and peers.
pub const SECTOR_HEADER_SIZE: usize = 2 + MAX_PEERS;
/// First byte of an initialized sector.
pub const MAGIC: u8 = 0xA5;

/// The sector has been written: it starts with the magic byte.
pub open spec fn sector_initialized(sector: Seq<u8>) -> bool {
    sector[0] == MAGIC
}

/// The ids an initialized sector holds: `count` of them, at most `MAX_PEERS`.
pub open spec fn sector_peers(sector: Seq<u8>) -> Seq<u8> {
    let count = if sector[1] as int <= MAX_PEERS { sector[1] as int } else { MAX_PEERS as int };
    sector.subrange(2, 2 + count)
}

/// The sector image of a peer list: magic, count, the ids, erased bytes.
pub open spec fn sector_image(peers: Seq<u8>) -> Seq<u8> {
    seq![MAGIC, peers.len() as u8] + peers + Seq::new((MAX_PEERS - peers.len()) as nat, |i: int| 0xFFu8)
}

/// The known peers.
pub struct PeerList {
    peers: heapless::Vec<u8, 32>,
}

impl View for PeerList {
    type V = Seq<u8>;

    closed spec fn view(&self) -> Seq<u8> {
        peer_ids(self.peers)
    }
}

impl PeerList {
    pub open spec fn wf(&self) -> bool {
        self@.len() <= MAX_PEERS
    }

    pub fn new() -> (r: Self)
        ensures
            r.wf(),
            r@ == Seq::<u8>::empty(),
    {
        Self { peers: peers_new() }
    }

    /// Reads the list from the start of the sector; `None` when the sector
    /// was never written (it does not start with the magic byte).
    pub fn from_sector(sector: &[u8; 34]) -> (r: Option<Self>)
        ensures
            r is None <==> !sector_initialized(sector@),
            r matches Some(list) ==> list.wf() && list@ == sector_peers(sector@),
    {
        if sector[0] != MAGIC {
            return None;
        }
        let count = if (sector[1] as usize) < MAX_PEERS { sector[1] as usize } else { MAX_PEERS };
        let mut peers = peers_new();
        let mut i: usize = 2;
        while i < 2 + count
            invariant
                count <= MAX_PEERS,
                2 <= i <= 2 + count,
                peer_ids(peers) == sector@.subrange(2, i as int),
            decreases 2 + count - i,
        {
            let _ = peers_push(&mut peers, sector[i]);
            assert(sector@.subrange(2, i + 1) =~= sector@.subrange(2, i as int).push(sector@[i as int]));
            i += 1;
        }
        Some(Self { peers })
    }

    /// The start of the sector that holds the list.
    pub fn to_sector(&self) -> (r: [u8; 34])
        requires
            self.wf(),
        ensures
            r@ == sector_image(self@),
    {
        let ids = peers_as_slice(&self.peers);
        let n = ids.len();
        let mut buf = [0xFFu8; 34];
        buf[0] = MAGIC;
        buf[1] = n as u8;
        let mut i: usize = 0;
        while i < n
            invariant
                n == ids@.len(),
                n <= MAX_PEERS,
                i <= n,
                buf@[0] == MAGIC,
                buf@[1] == n as u8,
                forall|k: int| 0 <= k < i ==> #[trigger] buf@[2 + k] == ids@[k],
                forall|k: int| 2 + n <= k < SECTOR_HEADER_SIZE ==> #[trigger] buf@[k] == 0xFFu8,
            decreases n - i,
        {
            buf[2 + i] = ids[i];
            i += 1;
        }
        let ghost image = sector_image(ids@);
        assert forall|j: int| 0 <= j < SECTOR_HEADER_SIZE implies buf@[j] == image[j] by {
            if 2 <= j < 2 + n {
                assert(buf@[2 + (j - 2)] == ids@[j - 2]);
            }
        }
        assert(buf@ =~= image);
        buf
    }

    /// Adds a peer ID if not already known. Returns true if it was new
    /// (it is stored when there is room for it).
    pub fn insert(&mut self, id: u8) -> (r: bool)
        requires
            old(self).wf(),
        ensures
            final(self).wf(),
            r == !old(self)@.contains(id),
            final(self)@ == (if r && old(self)@.len() < MAX_PEERS {
                old(self)@.push(id)
            } else {
                old(self)@
            }),
    {
        if peers_contains(&self.peers, id) {
            return false;
        }
        let _ = peers_push(&mut self.peers, id);
        true
    }

    pub fn peer_count(&self) -> (r: u32)
        requires
            self.wf(),
        ensures
            r == self@.len(),
    {
        peers_as_slice(&self.peers).len() as u32
    }
}

/// Reading back the sector written for a list gives the list.
pub proof fn lemma_sector_roundtrip(peers: Seq<u8>)
    requires
        peers.len() <= MAX_PEERS,
    ensures
        sector_initialized(sector_image(peers)),
        sector_peers(sector_image(peers)) == peers,
{
    let image = sector_image(peers);
    assert(image[0] == MAGIC);
    assert(image[1] == peers.len() as u8);
    assert(image.subrange(2, 2 + peers.len() as int) =~= peers);
}

} // verus!
