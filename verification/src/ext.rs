//! The state-access facade handed to construction logic, and its
//! extension store.
//!
//! `RpcExternalities` pairs a `StorageRead` with a registry of
//! extensions keyed by a numeric type id. Reads delegate to the reader;
//! writes are accepted and silently discarded (the facade is read-only
//! by design and never mutates remote state). The richer state-access
//! surface of a full ledger-execution environment — hashing, child
//! tries, transactional writes, root computation — is deliberately not
//! offered: this facade supports only the narrow read-only lookup case,
//! and any use outside it is a programming-contract violation for the
//! unverified caller to refuse, not a recoverable condition here.
//!
//! Construction logic receives the facade as an explicit parameter
//! rather than through ambient thread-local injection, trading source
//! compatibility for testability and guaranteed teardown.

use vstd::prelude::*;

use crate::storage::StorageRead;

verus! {

/// Failure of an extension-store operation.
#[derive(Debug, PartialEq, Eq)]
pub enum ExtensionsError {
    /// An extension with this type id is already registered.
    ExtensionAlreadyRegistered,
    /// No extension with this type id is registered.
    ExtensionIsNotRegistered(u64),
}

/// A store of extensions, at most one per type id.
///
/// `E` is the extension payload; the type id is the caller's stable
/// numeric name for the payload's type. Viewed as the map from
/// registered ids to their payloads.
pub struct ExtensionRegistry<E> {
    entries: Vec<(u64, E)>,
}

/// The map that a list of registrations denotes, a later entry for a
/// key overwriting an earlier one.
pub open spec fn registry_map<E>(s: Seq<(u64, E)>) -> Map<u64, E>
    decreases s.len(),
{
    if s.len() == 0 {
        Map::empty()
    } else {
        registry_map(s.drop_last()).insert(s.last().0, s.last().1)
    }
}

/// An id no entry carries is absent from the denoted map.
proof fn lemma_registry_absent<E>(s: Seq<(u64, E)>, id: u64)
    requires
        forall|j: int| 0 <= j < s.len() ==> (#[trigger] s[j]).0 != id,
    ensures
        !registry_map(s).contains_key(id),
    decreases s.len(),
{
    if s.len() > 0 {
        assert(s.last() == s[s.len() - 1]);
        lemma_registry_absent(s.drop_last(), id);
    }
}

/// The last entry carrying an id gives its payload in the denoted map.
proof fn lemma_registry_found<E>(s: Seq<(u64, E)>, id: u64, i: int)
    requires
        0 <= i < s.len(),
        s[i].0 == id,
        forall|j: int| i < j < s.len() ==> (#[trigger] s[j]).0 != id,
    ensures
        registry_map(s).contains_key(id),
        registry_map(s)[id] == s[i].1,
    decreases s.len(),
{
    assert(s.last() == s[s.len() - 1]);
    if i < s.len() - 1 {
        assert(forall|j: int| i < j < s.drop_last().len() ==> (#[trigger] s.drop_last()[j]).0
            != id);
        lemma_registry_found(s.drop_last(), id, i);
    }
}

/// Removing the one entry that carries an id removes exactly that id
/// from the denoted map.
proof fn lemma_registry_remove<E>(s: Seq<(u64, E)>, i: int)
    requires
        0 <= i < s.len(),
        forall|j: int, k: int| 0 <= j < k < s.len() ==> (#[trigger] s[j]).0 != (#[trigger] s[k]).0,
    ensures
        registry_map(s.remove(i)) == registry_map(s).remove(s[i].0),
    decreases s.len(),
{
    let id = s[i].0;
    assert(s.last() == s[s.len() - 1]);
    if i == s.len() - 1 {
        assert(s.remove(i) =~= s.drop_last());
        assert(forall|j: int| 0 <= j < s.drop_last().len() ==> (#[trigger] s.drop_last()[j]).0
            != id);
        lemma_registry_absent(s.drop_last(), id);
        assert(registry_map(s.drop_last()) =~= registry_map(s).remove(id));
    } else {
        let t = s.drop_last();
        assert(forall|j: int, k: int| 0 <= j < k < t.len() ==> (#[trigger] t[j]).0 != (
        #[trigger] t[k]).0);
        lemma_registry_remove(t, i);
        assert(s.remove(i).drop_last() =~= t.remove(i));
        assert(s.remove(i).last() == s.last());
        assert(registry_map(s.remove(i)) == registry_map(t.remove(i)).insert(
            s.last().0,
            s.last().1,
        ));
        assert(s.last().0 != id);
        assert(registry_map(t).remove(id).insert(s.last().0, s.last().1) =~= registry_map(
            t,
        ).insert(s.last().0, s.last().1).remove(id));
    }
}

impl<E> View for ExtensionRegistry<E> {
    type V = Map<u64, E>;

    closed spec fn view(&self) -> Map<u64, E> {
        registry_map(self.entries@)
    }
}

impl<E> ExtensionRegistry<E> {
    /// Each id is registered at most once.
    #[verifier::type_invariant]
    closed spec fn wf(&self) -> bool {
        forall|j: int, k: int|
            0 <= j < k < self.entries@.len() ==> (#[trigger] self.entries@[j]).0 != (
            #[trigger] self.entries@[k]).0
    }

    /// An empty store.
    pub fn new() -> (r: Self)
        ensures
            r@ == Map::<u64, E>::empty(),
    {
        ExtensionRegistry { entries: Vec::new() }
    }

    /// The index of the entry carrying `type_id`, if any.
    fn position_of(&self, type_id: u64) -> (r: Option<usize>)
        ensures
            match r {
                Some(i) => i < self.entries@.len() && self.entries@[i as int].0 == type_id
                    && self@.contains_key(type_id) && self@[type_id] == self.entries@[i as int].1,
                None => !self@.contains_key(type_id) && forall|j: int|
                    0 <= j < self.entries@.len() ==> (#[trigger] self.entries@[j]).0 != type_id,
            },
    {
        proof {
            use_type_invariant(&*self);
        }
        let mut i: usize = 0;
        while i < self.entries.len()
            invariant
                i <= self.entries@.len(),
                forall|j: int| 0 <= j < i ==> (#[trigger] self.entries@[j]).0 != type_id,
            decreases self.entries@.len() - i,
        {
            if self.entries[i].0 == type_id {
                proof {
                    use_type_invariant(&*self);
                    assert(forall|j: int| i < j < self.entries@.len() ==> (
                    #[trigger] self.entries@[j]).0 != type_id);
                    lemma_registry_found(self.entries@, type_id, i as int);
                }
                return Some(i);
            }
            i = i + 1;
        }
        proof {
            lemma_registry_absent(self.entries@, type_id);
        }
        None
    }

    /// The registered extension with this type id, if any.
    pub fn extension_by_type_id(&self, type_id: u64) -> (r: Option<&E>)
        ensures
            match r {
                Some(e) => self@.contains_key(type_id) && *e == self@[type_id],
                None => !self@.contains_key(type_id),
            },
    {
        match self.position_of(type_id) {
            Some(i) => Some(&self.entries[i].1),
            None => None,
        }
    }

    /// Register an extension under a type id. Fails, changing nothing,
    /// if and only if the id is already registered.
    pub fn register_extension_with_type_id(&mut self, type_id: u64, extension: E) -> (r: Result<
        (),
        ExtensionsError,
    >)
        ensures
            !old(self)@.contains_key(type_id) ==> (r matches Ok(()) && final(self)@ == old(self)@.insert(type_id, extension)),
            old(self)@.contains_key(type_id) ==> r == Err::<(), ExtensionsError>(
                ExtensionsError::ExtensionAlreadyRegistered,
            ) && final(self)@ == old(self)@,
    {
        match self.position_of(type_id) {
            Some(_) => Err(ExtensionsError::ExtensionAlreadyRegistered),
            None => {
                let ghost before = self.entries@;
                proof {
                    use_type_invariant(&*self);
                    assert(forall|j: int, k: int|
                        0 <= j < k < before.len() ==> (#[trigger] before[j]).0 != (
                        #[trigger] before[k]).0);
                    lemma_registry_absent(before, type_id);
                }
                let mut entries: Vec<(u64, E)> = Vec::new();
                std::mem::swap(&mut entries, &mut self.entries);
                entries.push((type_id, extension));
                proof {
                    assert(entries@.drop_last() =~= before);
                    assert forall|j: int, k: int|
                        0 <= j < k < entries@.len() implies (#[trigger] entries@[j]).0 != (
                    #[trigger] entries@[k]).0 by {
                        assert(entries@[j] == before[j]);
                        if k < entries@.len() - 1 {
                            assert(entries@[k] == before[k]);
                        }
                    }
                }
                self.entries = entries;
                Ok(())
            },
        }
    }

    /// Remove the extension registered under a type id. Fails, changing
    /// nothing, if and only if the id is not registered.
    pub fn deregister_extension_by_type_id(&mut self, type_id: u64) -> (r: Result<
        (),
        ExtensionsError,
    >)
        ensures
            old(self)@.contains_key(type_id) ==> (r matches Ok(()) && final(self)@ == old(self)@.remove(type_id)),
            !old(self)@.contains_key(type_id) ==> r == Err::<(), ExtensionsError>(
                ExtensionsError::ExtensionIsNotRegistered(type_id),
            ) && final(self)@ == old(self)@,
    {
        match self.position_of(type_id) {
            None => Err(ExtensionsError::ExtensionIsNotRegistered(type_id)),
            Some(i) => {
                let ghost before = self.entries@;
                proof {
                    use_type_invariant(&*self);
                    assert(forall|j: int, k: int|
                        0 <= j < k < before.len() ==> (#[trigger] before[j]).0 != (
                        #[trigger] before[k]).0);
                    lemma_registry_remove(before, i as int);
                }
                let mut entries: Vec<(u64, E)> = Vec::new();
                std::mem::swap(&mut entries, &mut self.entries);
                entries.remove(i);
                proof {
                    assert(entries@ =~= before.remove(i as int));
                    assert forall|j: int, k: int|
                        0 <= j < k < entries@.len() implies (#[trigger] entries@[j]).0 != (
                    #[trigger] entries@[k]).0 by {
                        if j < i {
                            assert(entries@[j] == before[j]);
                        } else {
                            assert(entries@[j] == before[j + 1]);
                        }
                        if k < i {
                            assert(entries@[k] == before[k]);
                        } else {
                            assert(entries@[k] == before[k + 1]);
                        }
                    }
                }
                self.entries = entries;
                Ok(())
            },
        }
    }
}

/// The state-access facade: a reader plus an extension store. This is
/// what stands in for a full ledger-execution environment during
/// extrinsic construction.
pub struct RpcExternalities<S: StorageRead> {
    reader: S,
    extensions: ExtensionRegistry<Vec<u8>>,
}

impl<S: StorageRead> RpcExternalities<S> {
    /// The key-value state visible through this facade.
    pub closed spec fn state(&self) -> Map<Seq<u8>, Seq<u8>> {
        self.reader.state()
    }

    /// The extensions currently registered, as raw payloads.
    pub closed spec fn extensions(&self) -> Map<u64, Vec<u8>> {
        self.extensions@
    }

    /// A facade over a reader, with no extensions registered.
    pub fn new(reader: S) -> (r: Self)
        ensures
            r.state() == reader.state(),
            r.extensions() == Map::<u64, Vec<u8>>::empty(),
    {
        RpcExternalities { reader, extensions: ExtensionRegistry::new() }
    }

    /// The raw value stored under `key`, or `None` where the state has
    /// none; a read never fails.
    pub fn storage(&self, key: &Vec<u8>) -> (r: Option<Vec<u8>>)
        ensures
            match r {
                Some(v) => self.state().contains_key(key@) && v@ == self.state()[key@],
                None => !self.state().contains_key(key@),
            },
    {
        self.reader.storage(key)
    }

    /// Accept a write and discard it: the facade is read-only by
    /// design and never mutates remote state.
    pub fn place_storage(&mut self, key: Vec<u8>, value: Option<Vec<u8>>)
        ensures
            *final(self) == *old(self),
    {
        let _ = key;
        let _ = value;
    }

    /// The registered extension with this type id, if any.
    pub fn extension_by_type_id(&self, type_id: u64) -> (r: Option<&Vec<u8>>)
        ensures
            match r {
                Some(e) => self.extensions().contains_key(type_id)
                    && *e == self.extensions()[type_id],
                None => !self.extensions().contains_key(type_id),
            },
    {
        self.extensions.extension_by_type_id(type_id)
    }

    /// Register an extension under a type id. Fails, changing nothing,
    /// if and only if the id is already registered.
    pub fn register_extension_with_type_id(&mut self, type_id: u64, extension: Vec<u8>) -> (r:
        Result<(), ExtensionsError>)
        ensures
            final(self).state() == old(self).state(),
            !old(self).extensions().contains_key(type_id) ==> (r matches Ok(()) && final(self).extensions() == old(self).extensions().insert(type_id, extension)),
            old(self).extensions().contains_key(type_id) ==> r == Err::<(), ExtensionsError>(
                ExtensionsError::ExtensionAlreadyRegistered,
            ) && final(self).extensions() == old(self).extensions(),
    {
        self.extensions.register_extension_with_type_id(type_id, extension)
    }

    /// Remove the extension registered under a type id. Fails, changing
    /// nothing, if and only if the id is not registered.
    pub fn deregister_extension_by_type_id(&mut self, type_id: u64) -> (r: Result<
        (),
        ExtensionsError,
    >)
        ensures
            final(self).state() == old(self).state(),
            old(self).extensions().contains_key(type_id) ==> (r matches Ok(()) && final(self).extensions() == old(self).extensions().remove(type_id)),
            !old(self).extensions().contains_key(type_id) ==> r == Err::<(), ExtensionsError>(
                ExtensionsError::ExtensionIsNotRegistered(type_id),
            ) && final(self).extensions() == old(self).extensions(),
    {
        self.extensions.deregister_extension_by_type_id(type_id)
    }

    /// Run construction logic with this facade as its state-access
    /// capability, handed over explicitly.
    pub fn execute_with<R, F: FnOnce(&Self) -> R>(&self, execute: F) -> (r: R)
        requires
            call_requires(execute, (self,)),
        ensures
            call_ensures(execute, (self,), r),
    {
        execute(self)
    }
}

/// Run a closure with a fresh facade over the given reader as its
/// state-access capability. The facade exists only for the duration of
/// the closure: there is no ambient registration to tear down.
pub fn with_rpc_externalities<S: StorageRead, R, F: FnOnce(&RpcExternalities<S>) -> R>(
    reader: S,
    execute: F,
) -> (r: R)
    requires
        forall|ext: &RpcExternalities<S>|
            (ext.state() == reader.state() && ext.extensions() == Map::<u64, Vec<u8>>::empty())
                ==> #[trigger] call_requires(execute, (ext,)),
    ensures
        exists|ext: &RpcExternalities<S>|
            (ext.state() == reader.state() && ext.extensions() == Map::<u64, Vec<u8>>::empty())
                && #[trigger] call_ensures(execute, (ext,), r),
{
    let externalities = RpcExternalities::new(reader);
    externalities.execute_with(execute)
}

} // verus!
