//! The games and releases that the tools know.

use vstd::prelude::*;
use crate::symbols::same_name;

verus! {

/// A release of the game.
#[derive(Debug, Clone, Copy, PartialEq, Eq, Structural)]
pub enum GameVersion {
    USA,
    PAL,
    JP,
    USARevA,
}

/// A game and its release.
#[derive(Debug, Clone, Copy, PartialEq, Eq, Structural)]
pub enum GameId {
    BanjoKazooie(GameVersion),
}

/// The release that goes by `name` on the command line.
pub open spec fn version_named(name: Seq<char>) -> Option<GameVersion> {
    if name == "us.v10"@ {
        Some(GameVersion::USA)
    } else if name == "pal"@ {
        Some(GameVersion::PAL)
    } else if name == "jp"@ {
        Some(GameVersion::JP)
    } else if name == "us.v11"@ {
        Some(GameVersion::USARevA)
    } else {
        None
    }
}

/// The tag of a release inside the names of symbols.
pub open spec fn version_tag(version: GameVersion) -> Seq<char> {
    match version {
        GameVersion::USA => "us_v10"@,
        GameVersion::PAL => "pal"@,
        GameVersion::JP => "jp"@,
        GameVersion::USARevA => "us_v11"@,
    }
}

impl GameVersion {
    /// The release that goes by `name` on the command line, `None` for a
    /// name that is none of the four.
    pub fn from_name(name: &str) -> (version: Option<GameVersion>)
        ensures
            version == version_named(name@),
    {
        if same_name(name, "us.v10") {
            Some(GameVersion::USA)
        } else if same_name(name, "pal") {
            Some(GameVersion::PAL)
        } else if same_name(name, "jp") {
            Some(GameVersion::JP)
        } else if same_name(name, "us.v11") {
            Some(GameVersion::USARevA)
        } else {
            None
        }
    }

    /// The tag of the release inside the names of symbols.
    pub fn tag(&self) -> (tag: &'static str)
        ensures
            tag@ == version_tag(*self),
    {
        match self {
            GameVersion::USA => "us_v10",
            GameVersion::PAL => "pal",
            GameVersion::JP => "jp",
            GameVersion::USARevA => "us_v11",
        }
    }
}

impl GameId {
    /// The release of the game.
    pub open spec fn release(self) -> GameVersion {
        match self {
            GameId::BanjoKazooie(version) => version,
        }
    }

    /// The release of the game.
    pub fn version(&self) -> (version: GameVersion)
        ensures
            version == self.release(),
    {
        match self {
            GameId::BanjoKazooie(version) => *version,
        }
    }
}

} // verus!
