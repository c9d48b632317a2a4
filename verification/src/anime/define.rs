//! Shared anime data shapes (series, seasons, episodes, characters,
//! staff) and the text forms of their enumerations.
use std::collections::HashMap;

use vstd::prelude::*;

use crate::text::{chars_equal, chars_of, string_of};

verus! {

/// Whether `s` is exactly `lit`.
pub fn str_is(s: &str, lit: &str) -> (r: bool)
    ensures
        r == (s@ == lit@),
{
    chars_equal(&chars_of(s), &chars_of(lit))
}

/// The error text `prefix` followed by the rejected input.
pub fn unknown_error(prefix: &str, s: &str) -> (r: String)
    ensures
        r@ == prefix@ + s@,
{
    let mut v = chars_of(prefix);
    let w = chars_of(s);
    let ghost v0 = v@;
    let mut i: usize = 0;
    while i < w.len()
        invariant
            i <= w.len(),
            v@ == v0 + w@.take(i as int),
        decreases w.len() - i,
    {
        v.push(w[i]);
        i = i + 1;
        proof {
            assert(v@ =~= v0 + w@.take(i as int));
        }
    }
    proof {
        assert(w@.take(w@.len() as int) =~= w@);
    }
    string_of(&v)
}

/// Full multi-language title mapping (`main` / `en` / `ja` / ...),
/// stored JSON-encoded in a node's `extend` map.
#[derive(Debug, Clone, Default)]
pub struct TitleMap(pub HashMap<String, String>);

/// A list of strings (genres, studios, careers), stored JSON-encoded.
#[derive(Debug, Clone, Default)]
pub struct StrList(pub Vec<String>);

/// The voice actors of a character, stored JSON-encoded.
#[derive(Debug, Clone, Default)]
pub struct VoiceActorList(pub Vec<VoiceActor>);

/// Viewing status of a series.
#[derive(Debug, Clone, Copy, PartialEq, Eq, Structural)]
pub enum AnimeStatus {
    Watching,
    Completed,
    OnHold,
    Dropped,
    Planned,
}

impl Default for AnimeStatus {
    fn default() -> (r: Self)
        ensures
            r == AnimeStatus::Watching,
    {
        AnimeStatus::Watching
    }
}

/// The name `Display` writes for a `AnimeStatus`.
pub open spec fn spec_anime_status_name(v: AnimeStatus) -> Seq<char> {
    match v {
        AnimeStatus::Watching => "Watching"@,
        AnimeStatus::Completed => "Completed"@,
        AnimeStatus::OnHold => "OnHold"@,
        AnimeStatus::Dropped => "Dropped"@,
        AnimeStatus::Planned => "Planned"@,
    }
}

/// The `AnimeStatus` a name denotes, if any.
pub open spec fn spec_parse_anime_status(s: Seq<char>) -> Option<AnimeStatus> {
    if s == "Watching"@ {
        Some(AnimeStatus::Watching)
    } else if s == "Completed"@ {
        Some(AnimeStatus::Completed)
    } else if s == "OnHold"@ {
        Some(AnimeStatus::OnHold)
    } else if s == "Dropped"@ {
        Some(AnimeStatus::Dropped)
    } else if s == "Planned"@ {
        Some(AnimeStatus::Planned)
    } else {
        None
    }
}

impl AnimeStatus {
    /// The variant's name, as `Display` writes it.
    pub fn as_str(&self) -> (r: &'static str)
        ensures
            r@ == spec_anime_status_name(*self),
    {
        match self {
            AnimeStatus::Watching => "Watching",
            AnimeStatus::Completed => "Completed",
            AnimeStatus::OnHold => "OnHold",
            AnimeStatus::Dropped => "Dropped",
            AnimeStatus::Planned => "Planned",
        }
    }

    /// Parse a variant name (`FromStr`); any other text is an error
    /// `unknown AnimeStatus: <text>`.
    pub fn parse_name(s: &str) -> (r: Result<AnimeStatus, String>)
        ensures
            r matches Ok(v) ==> spec_parse_anime_status(s@) == Some(v),
            r matches Err(e) ==> spec_parse_anime_status(s@) is None && e@ == "unknown AnimeStatus: "@ + s@,
    {
        if str_is(s, "Watching") {
            return Ok(AnimeStatus::Watching);
        }
        if str_is(s, "Completed") {
            return Ok(AnimeStatus::Completed);
        }
        if str_is(s, "OnHold") {
            return Ok(AnimeStatus::OnHold);
        }
        if str_is(s, "Dropped") {
            return Ok(AnimeStatus::Dropped);
        }
        if str_is(s, "Planned") {
            return Ok(AnimeStatus::Planned);
        }
        Err(unknown_error("unknown AnimeStatus: ", s))
    }
}

impl core::str::FromStr for AnimeStatus {
    type Err = String;

    fn from_str(s: &str) -> (r: Result<AnimeStatus, String>)
        ensures
            r matches Ok(v) ==> spec_parse_anime_status(s@) == Some(v),
            r matches Err(e) ==> spec_parse_anime_status(s@) is None && e@ == "unknown AnimeStatus: "@ + s@,
    {
        AnimeStatus::parse_name(s)
    }
}

/// Law: parsing the name of a variant gives the variant back.
pub proof fn lemma_anime_status_round_trip(v: AnimeStatus)
    ensures
        spec_parse_anime_status(spec_anime_status_name(v)) == Some(v),
{
    match v {
        AnimeStatus::Watching => {
            reveal_strlit("Watching");
        },
        AnimeStatus::Completed => {
            reveal_strlit("Completed");
            reveal_strlit("Watching");
            assert("Completed"@.len() != "Watching"@.len());
        },
        AnimeStatus::OnHold => {
            reveal_strlit("OnHold");
            reveal_strlit("Watching");
            assert("OnHold"@.len() != "Watching"@.len());
            reveal_strlit("Completed");
            assert("OnHold"@.len() != "Completed"@.len());
        },
        AnimeStatus::Dropped => {
            reveal_strlit("Dropped");
            reveal_strlit("Watching");
            assert("Dropped"@.len() != "Watching"@.len());
            reveal_strlit("Completed");
            assert("Dropped"@.len() != "Completed"@.len());
            reveal_strlit("OnHold");
            assert("Dropped"@.len() != "OnHold"@.len());
        },
        AnimeStatus::Planned => {
            reveal_strlit("Planned");
            reveal_strlit("Watching");
            assert("Planned"@.len() != "Watching"@.len());
            reveal_strlit("Completed");
            assert("Planned"@.len() != "Completed"@.len());
            reveal_strlit("OnHold");
            assert("Planned"@.len() != "OnHold"@.len());
            reveal_strlit("Dropped");
            assert("Planned"@[0] != "Dropped"@[0]);
        },
    }
}
/// Source material of a series.
#[derive(Debug, Clone, Copy, PartialEq, Eq, Structural)]
pub enum AnimeSource {
    Original,
    Manga,
    LightNovel,
    VisualNovel,
    Game,
    Other,
}

impl Default for AnimeSource {
    fn default() -> (r: Self)
        ensures
            r == AnimeSource::Original,
    {
        AnimeSource::Original
    }
}

/// The name `Display` writes for a `AnimeSource`.
pub open spec fn spec_anime_source_name(v: AnimeSource) -> Seq<char> {
    match v {
        AnimeSource::Original => "Original"@,
        AnimeSource::Manga => "Manga"@,
        AnimeSource::LightNovel => "LightNovel"@,
        AnimeSource::VisualNovel => "VisualNovel"@,
        AnimeSource::Game => "Game"@,
        AnimeSource::Other => "Other"@,
    }
}

/// The `AnimeSource` a name denotes, if any.
pub open spec fn spec_parse_anime_source(s: Seq<char>) -> Option<AnimeSource> {
    if s == "Original"@ {
        Some(AnimeSource::Original)
    } else if s == "Manga"@ {
        Some(AnimeSource::Manga)
    } else if s == "LightNovel"@ {
        Some(AnimeSource::LightNovel)
    } else if s == "VisualNovel"@ {
        Some(AnimeSource::VisualNovel)
    } else if s == "Game"@ {
        Some(AnimeSource::Game)
    } else if s == "Other"@ {
        Some(AnimeSource::Other)
    } else {
        None
    }
}

impl AnimeSource {
    /// The variant's name, as `Display` writes it.
    pub fn as_str(&self) -> (r: &'static str)
        ensures
            r@ == spec_anime_source_name(*self),
    {
        match self {
            AnimeSource::Original => "Original",
            AnimeSource::Manga => "Manga",
            AnimeSource::LightNovel => "LightNovel",
            AnimeSource::VisualNovel => "VisualNovel",
            AnimeSource::Game => "Game",
            AnimeSource::Other => "Other",
        }
    }

    /// Parse a variant name (`FromStr`); any other text is an error
    /// `unknown AnimeSource: <text>`.
    pub fn parse_name(s: &str) -> (r: Result<AnimeSource, String>)
        ensures
            r matches Ok(v) ==> spec_parse_anime_source(s@) == Some(v),
            r matches Err(e) ==> spec_parse_anime_source(s@) is None && e@ == "unknown AnimeSource: "@ + s@,
    {
        if str_is(s, "Original") {
            return Ok(AnimeSource::Original);
        }
        if str_is(s, "Manga") {
            return Ok(AnimeSource::Manga);
        }
        if str_is(s, "LightNovel") {
            return Ok(AnimeSource::LightNovel);
        }
        if str_is(s, "VisualNovel") {
            return Ok(AnimeSource::VisualNovel);
        }
        if str_is(s, "Game") {
            return Ok(AnimeSource::Game);
        }
        if str_is(s, "Other") {
            return Ok(AnimeSource::Other);
        }
        Err(unknown_error("unknown AnimeSource: ", s))
    }
}

impl core::str::FromStr for AnimeSource {
    type Err = String;

    fn from_str(s: &str) -> (r: Result<AnimeSource, String>)
        ensures
            r matches Ok(v) ==> spec_parse_anime_source(s@) == Some(v),
            r matches Err(e) ==> spec_parse_anime_source(s@) is None && e@ == "unknown AnimeSource: "@ + s@,
    {
        AnimeSource::parse_name(s)
    }
}

/// Law: parsing the name of a variant gives the variant back.
pub proof fn lemma_anime_source_round_trip(v: AnimeSource)
    ensures
        spec_parse_anime_source(spec_anime_source_name(v)) == Some(v),
{
    match v {
        AnimeSource::Original => {
            reveal_strlit("Original");
        },
        AnimeSource::Manga => {
            reveal_strlit("Manga");
            reveal_strlit("Original");
            assert("Manga"@.len() != "Original"@.len());
        },
        AnimeSource::LightNovel => {
            reveal_strlit("LightNovel");
            reveal_strlit("Original");
            assert("LightNovel"@.len() != "Original"@.len());
            reveal_strlit("Manga");
            assert("LightNovel"@.len() != "Manga"@.len());
        },
        AnimeSource::VisualNovel => {
            reveal_strlit("VisualNovel");
            reveal_strlit("Original");
            assert("VisualNovel"@.len() != "Original"@.len());
            reveal_strlit("Manga");
            assert("VisualNovel"@.len() != "Manga"@.len());
            reveal_strlit("LightNovel");
            assert("VisualNovel"@.len() != "LightNovel"@.len());
        },
        AnimeSource::Game => {
            reveal_strlit("Game");
            reveal_strlit("Original");
            assert("Game"@.len() != "Original"@.len());
            reveal_strlit("Manga");
            assert("Game"@.len() != "Manga"@.len());
            reveal_strlit("LightNovel");
            assert("Game"@.len() != "LightNovel"@.len());
            reveal_strlit("VisualNovel");
            assert("Game"@.len() != "VisualNovel"@.len());
        },
        AnimeSource::Other => {
            reveal_strlit("Other");
            reveal_strlit("Original");
            assert("Other"@.len() != "Original"@.len());
            reveal_strlit("Manga");
            assert("Other"@[0] != "Manga"@[0]);
            reveal_strlit("LightNovel");
            assert("Other"@.len() != "LightNovel"@.len());
            reveal_strlit("VisualNovel");
            assert("Other"@.len() != "VisualNovel"@.len());
            reveal_strlit("Game");
            assert("Other"@.len() != "Game"@.len());
        },
    }
}
/// Gender of a character.
#[derive(Debug, Clone, Copy, PartialEq, Eq, Structural)]
pub enum Gender {
    Male,
    Female,
    Other,
}

/// The name `Display` writes for a `Gender`.
pub open spec fn spec_gender_name(v: Gender) -> Seq<char> {
    match v {
        Gender::Male => "Male"@,
        Gender::Female => "Female"@,
        Gender::Other => "Other"@,
    }
}

/// The `Gender` a name denotes, if any.
pub open spec fn spec_parse_gender(s: Seq<char>) -> Option<Gender> {
    if s == "Male"@ {
        Some(Gender::Male)
    } else if s == "Female"@ {
        Some(Gender::Female)
    } else if s == "Other"@ {
        Some(Gender::Other)
    } else {
        None
    }
}

impl Gender {
    /// The variant's name, as `Display` writes it.
    pub fn as_str(&self) -> (r: &'static str)
        ensures
            r@ == spec_gender_name(*self),
    {
        match self {
            Gender::Male => "Male",
            Gender::Female => "Female",
            Gender::Other => "Other",
        }
    }

    /// Parse a variant name (`FromStr`); any other text is an error
    /// `unknown Gender: <text>`.
    pub fn parse_name(s: &str) -> (r: Result<Gender, String>)
        ensures
            r matches Ok(v) ==> spec_parse_gender(s@) == Some(v),
            r matches Err(e) ==> spec_parse_gender(s@) is None && e@ == "unknown Gender: "@ + s@,
    {
        if str_is(s, "Male") {
            return Ok(Gender::Male);
        }
        if str_is(s, "Female") {
            return Ok(Gender::Female);
        }
        if str_is(s, "Other") {
            return Ok(Gender::Other);
        }
        Err(unknown_error("unknown Gender: ", s))
    }
}

impl core::str::FromStr for Gender {
    type Err = String;

    fn from_str(s: &str) -> (r: Result<Gender, String>)
        ensures
            r matches Ok(v) ==> spec_parse_gender(s@) == Some(v),
            r matches Err(e) ==> spec_parse_gender(s@) is None && e@ == "unknown Gender: "@ + s@,
    {
        Gender::parse_name(s)
    }
}

/// Law: parsing the name of a variant gives the variant back.
pub proof fn lemma_gender_round_trip(v: Gender)
    ensures
        spec_parse_gender(spec_gender_name(v)) == Some(v),
{
    match v {
        Gender::Male => {
            reveal_strlit("Male");
        },
        Gender::Female => {
            reveal_strlit("Female");
            reveal_strlit("Male");
            assert("Female"@.len() != "Male"@.len());
        },
        Gender::Other => {
            reveal_strlit("Other");
            reveal_strlit("Male");
            assert("Other"@.len() != "Male"@.len());
            reveal_strlit("Female");
            assert("Other"@.len() != "Female"@.len());
        },
    }
}

/// Season node data (key prefix `anime-season`).
#[derive(Debug, Default, Clone, Copy, PartialEq, Eq)]
pub struct Season {
    pub season_number: Option<u32>,
}

/// Character node data (key prefix `anime-character`).
#[derive(Debug, Default, Clone)]
pub struct Character {
    pub voice_actors: VoiceActorList,
    pub gender: Option<Gender>,
    pub birth_date: Option<String>,
    /// Role of the character in the work (main / supporting / ...).
    pub role: Option<String>,
}

/// A voice actor of a character.
#[derive(Debug, Clone, Default)]
pub struct VoiceActor {
    pub id: u32,
    pub name: String,
    pub name_japanese: Option<String>,
    pub birth_date: Option<String>,
    pub nationality: Option<String>,
    pub image_url: Option<String>,
}

/// Staff node data (key prefix `anime-staff`).
#[derive(Debug, Default, Clone)]
pub struct Staff {
    pub career: StrList,
    pub episode_range: Option<String>,
}

} // verus!
