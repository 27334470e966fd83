//! The status phase: what a server tells of itself, and the packets that
//! ask for it and carry it.

pub mod clientbound;
pub mod serverbound;

use vstd::prelude::*;
use crate::types::text::{Text, TextView};

verus! {

/// The game version that a server speaks.
#[derive(Debug, Clone, PartialEq, Eq)]
pub struct VersionStatus {
    /// The name of the version, such as "1.15.2".
    pub name: String,
    /// The number of the protocol version.
    pub protocol: i32,
}

/// A `VersionStatus` as plain values.
pub struct VersionStatusView {
    pub name: Seq<char>,
    pub protocol: i32,
}

impl View for VersionStatus {
    type V = VersionStatusView;

    open spec fn view(&self) -> VersionStatusView {
        VersionStatusView { name: self.name@, protocol: self.protocol }
    }
}

impl VersionStatus {
    pub fn new(name: String, protocol: i32) -> (r: Self)
        ensures
            r == (VersionStatus { name, protocol }),
    {
        Self { name, protocol }
    }
}

/// One of the players that a status answer lists.
#[derive(Debug, Clone, PartialEq, Eq)]
pub struct PlayerSample {
    pub name: String,
    /// The player's UUID as text.
    pub id: String,
}

/// A `PlayerSample` as plain values.
pub struct PlayerSampleView {
    pub name: Seq<char>,
    pub id: Seq<char>,
}

impl View for PlayerSample {
    type V = PlayerSampleView;

    open spec fn view(&self) -> PlayerSampleView {
        PlayerSampleView { name: self.name@, id: self.id@ }
    }
}

impl PlayerSample {
    pub fn new(name: String, id: String) -> (r: Self)
        ensures
            r == (PlayerSample { name, id }),
    {
        Self { name, id }
    }
}

/// How many players a server holds, and some of them.
#[derive(Debug, Clone, PartialEq, Eq)]
pub struct PlayerStatus {
    pub max: u32,
    pub online: u32,
    pub sample: Vec<PlayerSample>,
}

/// A `PlayerStatus` as plain values.
pub struct PlayerStatusView {
    pub max: u32,
    pub online: u32,
    pub sample: Seq<PlayerSampleView>,
}

impl View for PlayerStatus {
    type V = PlayerStatusView;

    open spec fn view(&self) -> PlayerStatusView {
        PlayerStatusView {
            max: self.max,
            online: self.online,
            sample: self.sample@.map_values(|s: PlayerSample| s@),
        }
    }
}

impl PlayerStatus {
    pub fn new(max: u32, online: u32, sample: Vec<PlayerSample>) -> (r: Self)
        ensures
            r == (PlayerStatus { max, online, sample }),
    {
        Self { max, online, sample }
    }
}

/// What a server answers to a status request.
#[derive(Debug, Clone, PartialEq, Eq)]
pub struct StatusPayload {
    pub version: VersionStatus,
    pub players: PlayerStatus,
    pub description: Text,
    /// An icon, which is left out of the answer where there is none.
    pub favicon: Option<String>,
}

/// A `StatusPayload` as plain values.
pub struct StatusPayloadView {
    pub version: VersionStatusView,
    pub players: PlayerStatusView,
    pub description: TextView,
    pub favicon: Option<Seq<char>>,
}

impl View for StatusPayload {
    type V = StatusPayloadView;

    open spec fn view(&self) -> StatusPayloadView {
        StatusPayloadView {
            version: self.version@,
            players: self.players@,
            description: self.description@,
            favicon: match self.favicon {
                Some(icon) => Some(icon@),
                None => None,
            },
        }
    }
}

impl StatusPayload {
    pub fn new(
        version: VersionStatus,
        players: PlayerStatus,
        description: Text,
        favicon: Option<String>,
    ) -> (r: Self)
        ensures
            r == (StatusPayload { version, players, description, favicon }),
    {
        Self { version, players, description, favicon }
    }
}

} // verus!
