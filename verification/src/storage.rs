//! State access for construction logic: a strictly synchronous
//! "read raw bytes by key" capability.
//!
//! `StorageRead` is the capability the extrinsic builder hands to
//! construction logic. Its one operation is total: a key either has a
//! value or it does not, and a read can never surface an error. This is
//! a deliberate narrowing — the live reader behind it converts any
//! transport failure into "absent" (see `settle_read`), because
//! construction logic has no recovery path for a failed read other than
//! treating the state as absent.
//!
//! `MemoryState` is the library's own reader over an in-memory list of
//! entries; a live reader over a remote node implements the same trait
//! outside the library.

use vstd::prelude::*;

verus! {

/// Read-only access to ledger state, keyed by raw bytes, scoped to one
/// point of history chosen when the reader was made.
pub trait StorageRead {
    /// The key-value state this reader can provide. A reader defined in
    /// unverified code (a live reader over a remote node) may leave the
    /// default, which names no particular state; a verified reader
    /// states its model here and proves `storage` against it.
    open spec fn state(&self) -> Map<Seq<u8>, Seq<u8>> {
        vstd::pervasive::arbitrary()
    }

    /// The raw value stored under `key`, or `None` where the state has
    /// none. A read never fails: an unreachable or unanswered value is
    /// indistinguishable from an absent one, by design.
    fn storage(&self, key: &Vec<u8>) -> (r: Option<Vec<u8>>)
        ensures
            match r {
                Some(v) => self.state().contains_key(key@) && v@ == self.state()[key@],
                None => !self.state().contains_key(key@),
            },
    ;
}

/// Settle one delegated storage read.
///
/// The caller hands in what came back from the worker that performed
/// the read on a separate execution context: `None` where the worker
/// never delivered a reply (it failed or timed out), `Some(Err)` where
/// the transport failed, `Some(Ok(v))` where an answer was delivered,
/// itself optional because the key may have no value. Only a delivered,
/// present value is surfaced; every failure settles to "absent" and is
/// never escalated as an error.
pub fn settle_read(completion: Option<Result<Option<Vec<u8>>, String>>) -> (r: Option<Vec<u8>>)
    ensures
        match completion {
            Some(Ok(Some(v))) => r == Some(v),
            _ => r is None,
        },
{
    match completion {
        Some(Ok(Some(v))) => Some(v),
        _ => None,
    }
}

/// A reader over entries held in memory, the last write to a key
/// winning. It doubles as the reference model of any reader: a test or
/// a caller can fix the state a construction run sees.
pub struct MemoryState {
    entries: Vec<(Vec<u8>, Vec<u8>)>,
}

/// The map that a list of writes denotes: each entry overwrites the
/// key's earlier value.
pub open spec fn entries_state(s: Seq<(Vec<u8>, Vec<u8>)>) -> Map<Seq<u8>, Seq<u8>>
    decreases s.len(),
{
    if s.len() == 0 {
        Map::empty()
    } else {
        entries_state(s.drop_last()).insert(s.last().0@, s.last().1@)
    }
}

/// A key no entry mentions is absent from the denoted state.
proof fn lemma_entries_state_absent(s: Seq<(Vec<u8>, Vec<u8>)>, key: Seq<u8>)
    requires
        forall|j: int| 0 <= j < s.len() ==> (#[trigger] s[j]).0@ != key,
    ensures
        !entries_state(s).contains_key(key),
    decreases s.len(),
{
    if s.len() > 0 {
        assert(s.last() == s[s.len() - 1]);
        lemma_entries_state_absent(s.drop_last(), key);
    }
}

/// The last entry that mentions a key gives its value in the denoted
/// state.
proof fn lemma_entries_state_found(s: Seq<(Vec<u8>, Vec<u8>)>, key: Seq<u8>, i: int)
    requires
        0 <= i < s.len(),
        s[i].0@ == key,
        forall|j: int| i < j < s.len() ==> (#[trigger] s[j]).0@ != key,
    ensures
        entries_state(s).contains_key(key),
        entries_state(s)[key] == s[i].1@,
    decreases s.len(),
{
    assert(s.last() == s[s.len() - 1]);
    if i == s.len() - 1 {
    } else {
        assert(forall|j: int| i < j < s.drop_last().len() ==> (#[trigger] s.drop_last()[j]).0@
            != key);
        lemma_entries_state_found(s.drop_last(), key, i);
    }
}

impl MemoryState {
    /// An empty state: every key is absent.
    pub fn new() -> (r: Self)
        ensures
            r.state() == Map::<Seq<u8>, Seq<u8>>::empty(),
    {
        MemoryState { entries: Vec::new() }
    }

    /// Record a value under a key, overwriting any earlier value.
    pub fn set(&mut self, key: Vec<u8>, value: Vec<u8>)
        ensures
            final(self).state() == old(self).state().insert(key@, value@),
    {
        let ghost before = self.entries@;
        self.entries.push((key, value));
        proof {
            assert(self.entries@.drop_last() =~= before);
        }
    }
}

impl StorageRead for MemoryState {
    closed spec fn state(&self) -> Map<Seq<u8>, Seq<u8>> {
        entries_state(self.entries@)
    }

    fn storage(&self, key: &Vec<u8>) -> (r: Option<Vec<u8>>) {
        let mut idx: usize = self.entries.len();
        while idx > 0
            invariant
                idx <= self.entries@.len(),
                forall|j: int| idx <= j < self.entries@.len() ==> (#[trigger] self.entries@[j]).0@
                    != key@,
            decreases idx,
        {
            idx = idx - 1;
            let entry = &self.entries[idx];
            if bytes_equal(&entry.0, key) {
                proof {
                    lemma_entries_state_found(self.entries@, key@, idx as int);
                }
                return Some(copy_bytes(&entry.1));
            }
        }
        proof {
            lemma_entries_state_absent(self.entries@, key@);
        }
        None
    }
}

/// Whether two byte strings hold the same bytes.
pub fn bytes_equal(a: &Vec<u8>, b: &Vec<u8>) -> (r: bool)
    ensures
        r <==> a@ == b@,
{
    if a.len() != b.len() {
        return false;
    }
    let mut i: usize = 0;
    while i < a.len()
        invariant
            i <= a@.len(),
            a@.len() == b@.len(),
            forall|k: int| 0 <= k < i ==> a@[k] == b@[k],
        decreases a@.len() - i,
    {
        if a[i] != b[i] {
            return false;
        }
        i = i + 1;
    }
    proof {
        assert(a@ =~= b@);
    }
    true
}

/// A fresh byte string with the same bytes.
pub fn copy_bytes(src: &Vec<u8>) -> (r: Vec<u8>)
    ensures
        r@ == src@,
{
    let mut out: Vec<u8> = Vec::new();
    let mut i: usize = 0;
    while i < src.len()
        invariant
            i <= src@.len(),
            out@ == src@.subrange(0, i as int),
        decreases src@.len() - i,
    {
        out.push(src[i]);
        i = i + 1;
        proof {
            assert(out@ =~= src@.subrange(0, i as int));
        }
    }
    proof {
        assert(src@.subrange(0, src@.len() as int) =~= src@);
    }
    out
}

/// The concatenation of two byte strings.
pub fn concat_bytes(a: &Vec<u8>, b: &Vec<u8>) -> (r: Vec<u8>)
    ensures
        r@ == a@ + b@,
{
    let mut out = copy_bytes(a);
    let mut i: usize = 0;
    while i < b.len()
        invariant
            i <= b@.len(),
            out@ == a@ + b@.subrange(0, i as int),
        decreases b@.len() - i,
    {
        out.push(b[i]);
        i = i + 1;
        proof {
            assert(out@ =~= a@ + b@.subrange(0, i as int));
        }
    }
    proof {
        assert(a@ + b@.subrange(0, b@.len() as int) =~= a@ + b@);
    }
    out
}

} // verus!
