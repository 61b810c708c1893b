//! Plain data carried between the extraction core and its downstream
//! consumers.

use vstd::prelude::*;

verus! {

/// A user account of the remote service, as the downstream consumers of the
/// recovered credentials report it.
#[derive(Clone, Debug)]
pub struct DiscordUser {
    pub id: String,
    pub username: String,
    pub discriminator: String,
    pub avatar: Option<String>,
    pub global_name: Option<String>,
}

/// A game title that the remote service can detect, for the downstream
/// activity simulators.
#[derive(Clone, Debug)]
pub struct DetectableGame {
    pub id: String,
    pub name: String,
    pub executables: Vec<GameExecutable>,
}

/// One executable of a detectable game, with its platform.
#[derive(Clone, Debug)]
pub struct GameExecutable {
    pub name: String,
    pub os: String,
}

/// The payload of one stream heartbeat sent by the downstream quest runner.
#[derive(Clone, Debug)]
pub struct HeartbeatPayload {
    pub stream_key: String,
}

/// One recovered credential together with the account it authenticates.
#[derive(Clone, Debug)]
pub struct ExtractedAccount {
    pub token: String,
    pub user: DiscordUser,
}

} // verus!
