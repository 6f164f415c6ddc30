//! The host context that a verification framework reads and writes.
//!
//! Every query and write is forwarded to the store of one client; a missing
//! value becomes a typed "not found" error that names what was asked for.

use vstd::prelude::*;

use crate::height::Height;
use crate::storage::{Direction, Storage};

verus! {

/// The pair of state types that a client instantiation works with.
pub trait ClientType: Sized {
    type ClientState;
    type ConsensusState;
}

/// Where the framework addresses a consensus state: the client it belongs
/// to, its height, and the path key under which it is stored.
#[derive(Clone, Debug, PartialEq, Eq)]
pub struct ConsensusStatePath {
    pub client_id: String,
    pub height: Height,
    pub key: String,
}

/// The ways a read of the context can fail: each names what was missing.
#[derive(Clone, Debug, PartialEq, Eq)]
pub enum ContextError {
    /// No client state was ever stored.
    ClientStateNotFound { client_id: String },
    /// No consensus state is stored under the requested path.
    ConsensusStateNotFound { client_id: String, height: Height },
    /// No update metadata is recorded for the requested height.
    UpdateMetaDataNotFound { client_id: String, height: Height },
}

/// The revision number of the height that this host reports as its own.
pub const HOST_REVISION_NUMBER: u64 = 0;

/// The block number of the height that this host reports as its own.
pub const HOST_REVISION_HEIGHT: u64 = 1;

/// A Unix time in nanoseconds brought into the range of `u64`: times before
/// the epoch become zero and times past the range become `u64::MAX`.
pub open spec fn clamp_nanos(n: int) -> u64 {
    if n < 0 {
        0
    } else if n > u64::MAX {
        u64::MAX
    } else {
        n as u64
    }
}

/// Relies on tendermint::Time::now and Time::unix_timestamp_nanos: the
/// wall-clock time as nanoseconds since the Unix epoch. Nothing is known of
/// the value, which changes from call to call.
#[verifier::external_body]
fn now_unix_nanos() -> (r: i128) {
    tendermint::Time::now().unix_timestamp_nanos()
}

/// A Unix time in nanoseconds as a host timestamp.
pub fn timestamp_from_unix_nanos(n: i128) -> (r: u64)
    ensures
        r == clamp_nanos(n as int),
{
    if n < 0 {
        0
    } else if n > u64::MAX as i128 {
        u64::MAX
    } else {
        n as u64
    }
}

/// The context of one client: its store and the host's own answers.
pub struct Ctx<C: ClientType> {
    storage: Storage<C>,
}

impl<C: ClientType> Ctx<C> {
    /// The store behind the context.
    pub closed spec fn store(&self) -> Storage<C> {
        self.storage
    }

    /// The store's invariant holds.
    pub open spec fn wf(&self) -> bool {
        self.store().wf()
    }

    /// A context over an empty store.
    pub fn new() -> (r: Self)
        ensures
            r.wf(),
            r.store().client_view() is None,
            r.store().entries().len() == 0,
            r.store().metas().len() == 0,
    {
        Ctx { storage: Storage::new() }
    }

    /// Read access to the store.
    pub fn storage(&self) -> (r: &Storage<C>)
        ensures
            *r == self.store(),
    {
        &self.storage
    }

    /// The stored client state; fails when none was ever stored.
    pub fn client_state(&self, client_id: &String) -> (r: Result<&C::ClientState, ContextError>)
        ensures
            match r {
                Ok(c) => self.store().client_view() == Some(*c),
                Err(e) => self.store().client_view() is None && e
                    == ContextError::ClientStateNotFound { client_id: *client_id },
            },
    {
        match self.storage.get_client_state() {
            Some(c) => Ok(c),
            None => Err(ContextError::ClientStateNotFound { client_id: client_id.clone() }),
        }
    }

    /// The client state that an update starts from: the stored one.
    pub fn client_state_mut(&self, client_id: &String) -> (r: Result<
        &C::ClientState,
        ContextError,
    >)
        ensures
            match r {
                Ok(c) => self.store().client_view() == Some(*c),
                Err(e) => self.store().client_view() is None && e
                    == ContextError::ClientStateNotFound { client_id: *client_id },
            },
    {
        self.client_state(client_id)
    }

    /// The consensus state under `path`'s key; the error names the client
    /// and height of the path.
    pub fn consensus_state(&self, path: &ConsensusStatePath) -> (r: Result<
        &C::ConsensusState,
        ContextError,
    >)
        requires
            self.wf(),
        ensures
            match r {
                Ok(s) => self.store().has_key_state(path.key@, *s),
                Err(e) => (forall|h: Height, s: C::ConsensusState|
                    !self.store().has_entry(h, path.key@, s)) && e
                    == ContextError::ConsensusStateNotFound {
                    client_id: path.client_id,
                    height: path.height,
                },
            },
    {
        match self.storage.get_consensus_state(&path.key) {
            Some(s) => Ok(s),
            None => Err(
                ContextError::ConsensusStateNotFound {
                    client_id: path.client_id.clone(),
                    height: path.height,
                },
            ),
        }
    }

    /// The host timestamp and host height recorded for `height`.
    pub fn client_update_meta(&self, client_id: &String, height: &Height) -> (r: Result<
        (u64, Height),
        ContextError,
    >)
        requires
            self.wf(),
        ensures
            match r {
                Ok(m) => self.store().has_meta(*height, m.0, m.1),
                Err(e) => (forall|t: u64, hh: Height| !self.store().has_meta(*height, t, hh)) && e
                    == ContextError::UpdateMetaDataNotFound {
                    client_id: *client_id,
                    height: *height,
                },
            },
    {
        match self.storage.get_update_meta(height) {
            Some(m) => Ok(m),
            None => Err(
                ContextError::UpdateMetaDataNotFound { client_id: client_id.clone(), height: *height },
            ),
        }
    }

    /// Replaces the client state.
    pub fn store_client_state(&mut self, _client_id: &String, client_state: C::ClientState) -> (r:
        Result<(), ContextError>)
        requires
            old(self).wf(),
        ensures
            r is Ok,
            final(self).wf(),
            final(self).store().client_view() == Some(client_state),
            final(self).store().entries() == old(self).store().entries(),
            final(self).store().metas() == old(self).store().metas(),
    {
        self.storage.set_client_state(client_state);
        Ok(())
    }

    /// Stores a consensus state at the path's height and key, replacing what
    /// either of them held.
    pub fn store_consensus_state(
        &mut self,
        path: ConsensusStatePath,
        consensus_state: C::ConsensusState,
    ) -> (r: Result<(), ContextError>)
        requires
            old(self).wf(),
        ensures
            r is Ok,
            final(self).wf(),
            final(self).store().client_view() == old(self).store().client_view(),
            final(self).store().metas() == old(self).store().metas(),
            Storage::consensus_put(
                old(self).store(),
                final(self).store(),
                path.height,
                path.key@,
                consensus_state,
            ),
    {
        self.storage.put_consensus_state(path.height, path.key, consensus_state);
        Ok(())
    }

    /// Removes the consensus state of the path from both views of the store.
    pub fn delete_consensus_state(&mut self, path: ConsensusStatePath) -> (r: Result<
        (),
        ContextError,
    >)
        requires
            old(self).wf(),
        ensures
            r is Ok,
            final(self).wf(),
            final(self).store().client_view() == old(self).store().client_view(),
            final(self).store().metas() == old(self).store().metas(),
            Storage::consensus_removed(old(self).store(), final(self).store(), path.height, path.key@),
            !old(self).store().has_height(path.height) && !old(self).store().has_key(path.key@)
                ==> final(self).store() == old(self).store(),
    {
        self.storage.delete_consensus_state(&path.height, &path.key);
        Ok(())
    }

    /// Records when, and at which host height, the update to `height` was
    /// processed.
    pub fn store_update_meta(
        &mut self,
        _client_id: &String,
        height: Height,
        host_timestamp: u64,
        host_height: Height,
    ) -> (r: Result<(), ContextError>)
        requires
            old(self).wf(),
        ensures
            r is Ok,
            final(self).wf(),
            final(self).store().client_view() == old(self).store().client_view(),
            final(self).store().entries() == old(self).store().entries(),
            Storage::meta_put(old(self).store(), final(self).store(), height, host_timestamp, host_height),
    {
        self.storage.put_update_meta(height, host_timestamp, host_height);
        Ok(())
    }

    /// Removes the update metadata of `height`.
    pub fn delete_update_meta(&mut self, _client_id: &String, height: Height) -> (r: Result<
        (),
        ContextError,
    >)
        requires
            old(self).wf(),
        ensures
            r is Ok,
            final(self).wf(),
            final(self).store().client_view() == old(self).store().client_view(),
            final(self).store().entries() == old(self).store().entries(),
            Storage::meta_removed(old(self).store(), final(self).store(), height),
            (forall|t: u64, hh: Height| !old(self).store().has_meta(height, t, hh))
                ==> final(self).store() == old(self).store(),
    {
        self.storage.delete_update_meta(&height);
        Ok(())
    }

    /// The host's wall-clock time in nanoseconds since the Unix epoch.
    pub fn host_timestamp(&self) -> (r: Result<u64, ContextError>)
        ensures
            r is Ok,
    {
        let n = now_unix_nanos();
        Ok(timestamp_from_unix_nanos(n))
    }

    /// The host's own height, which this host keeps fixed.
    pub fn host_height(&self) -> (r: Result<Height, ContextError>)
        ensures
            r == Ok::<Height, ContextError>(
                Height { revision_number: HOST_REVISION_NUMBER, revision_height: HOST_REVISION_HEIGHT },
            ),
    {
        match Height::new(HOST_REVISION_NUMBER, HOST_REVISION_HEIGHT) {
            Ok(h) => Ok(h),
            Err(_) => Ok(
                Height { revision_number: HOST_REVISION_NUMBER, revision_height: HOST_REVISION_HEIGHT },
            ),
        }
    }

    /// The heights of all stored consensus states, ascending.
    pub fn consensus_state_heights(&self, _client_id: &String) -> (r: Result<Vec<Height>, ContextError>)
        requires
            self.wf(),
        ensures
            match r {
                Ok(v) => v@ == self.store().heights_view(),
                Err(_) => false,
            },
    {
        Ok(self.storage.get_heights())
    }

    /// The consensus state at the smallest stored height at or above `height`.
    pub fn next_consensus_state(&self, _client_id: &String, height: &Height) -> (r: Result<
        Option<&C::ConsensusState>,
        ContextError,
    >)
        requires
            self.wf(),
        ensures
            match r {
                Ok(Some(s)) => self.store().is_next(*height, *s),
                Ok(None) => self.store().none_above(*height),
                Err(_) => false,
            },
    {
        Ok(self.storage.get_adjacent_height(height, Direction::Next))
    }

    /// The consensus state at the largest stored height at or below `height`.
    pub fn prev_consensus_state(&self, _client_id: &String, height: &Height) -> (r: Result<
        Option<&C::ConsensusState>,
        ContextError,
    >)
        requires
            self.wf(),
        ensures
            match r {
                Ok(Some(s)) => self.store().is_prev(*height, *s),
                Ok(None) => self.store().none_below(*height),
                Err(_) => false,
            },
    {
        Ok(self.storage.get_adjacent_height(height, Direction::Prev))
    }
}

impl<C: ClientType> Default for Ctx<C> {
    fn default() -> (r: Self)
        ensures
            r.wf(),
            r.store().client_view() is None,
            r.store().entries().len() == 0,
            r.store().metas().len() == 0,
    {
        Self::new()
    }
}

} // verus!
