//! The one client instantiation offered today: the Tendermint light client.

use vstd::prelude::*;

use crate::context::ClientType;

verus! {

/// The client state of the Tendermint light client, held opaquely.
#[verifier::external_type_specification]
#[verifier::external_body]
pub struct ExTendermintClientState(ibc_client_tendermint::client_state::ClientState);

/// The consensus state of the Tendermint light client, held opaquely.
#[verifier::external_type_specification]
#[verifier::external_body]
pub struct ExTendermintConsensusState(ibc_client_tendermint::consensus_state::ConsensusState);

/// Selects the Tendermint light client's state types.
pub struct Tendermintclient;

impl ClientType for Tendermintclient {
    type ClientState = ibc_client_tendermint::client_state::ClientState;

    type ConsensusState = ibc_client_tendermint::consensus_state::ConsensusState;
}

} // verus!
