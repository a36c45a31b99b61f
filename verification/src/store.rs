//! Settings store: the documented default record, the interpretation of
//! raw settings-file contents, and the per-user file location.
//!
//! Reading and writing the file itself is input/output and lives with the
//! caller; this module fixes what the bytes mean. A missing or corrupt
//! file is recovered locally by substituting the default record — it is
//! never surfaced as an error.

use vstd::prelude::*;
use vstd::string::StringExecFns;
use crate::codec::enc_settings;
use crate::codec::encode_settings;
use crate::codec::lemma_settings_round_trip;
use crate::codec::parse_settings;
use crate::codec::spec_parse_settings;
use crate::engine::Settings;

verus! {

/// The documented default cycle configuration.
pub open spec fn spec_default_settings() -> Settings {
    Settings {
        focus_minutes: 50,
        break_minutes: 10,
        micro_every: 2,
        micro_minutes: 2,
        hard_break: true,
        snooze_sec: 60,
    }
}

/// The documented default cycle configuration.
pub fn default_settings() -> (s: Settings)
    ensures
        s == spec_default_settings(),
{
    Settings {
        focus_minutes: 50,
        break_minutes: 10,
        micro_every: 2,
        micro_minutes: 2,
        hard_break: true,
        snooze_sec: 60,
    }
}

/// What loading yields from raw file contents: the parsed record when the
/// bytes parse, else the default.
pub open spec fn spec_load(data: Option<Seq<u8>>) -> Settings {
    match data {
        Some(bytes) => match spec_parse_settings(bytes) {
            Some(s) => s,
            None => spec_default_settings(),
        },
        None => spec_default_settings(),
    }
}

/// Interprets the raw contents of the settings file: `None` stands for a
/// missing file. A record is returned in every case — a file that fails
/// to parse yields the default, never an error.
pub fn load_settings(data: Option<Vec<u8>>) -> (s: Settings)
    ensures
        data is Some ==> s == spec_load(Some(data->0@)),
        data is None ==> s == spec_default_settings(),
{
    match data {
        Some(bytes) => match parse_settings(&bytes) {
            Some(s) => s,
            None => default_settings(),
        },
        None => default_settings(),
    }
}

/// The bytes that saving a record writes to the settings file.
pub fn save_settings_bytes(s: &Settings) -> (out: Vec<u8>)
    ensures
        out@ == enc_settings(*s),
{
    encode_settings(s)
}

/// Saving then loading round-trips every field exactly.
pub proof fn lemma_save_load_round_trip(s: Settings)
    ensures
        spec_load(Some(enc_settings(s))) == s,
{
    lemma_settings_round_trip(s);
}

/// A missing or unparseable settings file loads as the documented default
/// record, with no error raised.
pub proof fn lemma_load_recovers_default(data: Option<Seq<u8>>)
    requires
        data is None || spec_parse_settings(data->0) is None,
    ensures
        spec_load(data) == spec_default_settings(),
{
}

/// The settings store's location: a per-user configuration directory.
pub struct Persist {
    pub dir: String,
}

impl Persist {
    /// A store rooted at the given directory.
    pub fn new(dir: String) -> (p: Persist)
        ensures
            p.dir@ == dir@,
    {
        Persist { dir }
    }

    /// The settings file's path inside the store's directory.
    pub fn path(&self) -> (p: String)
        ensures
            p@ == self.dir@ + "/settings.json"@,
    {
        let mut p = self.dir.clone();
        p.append("/settings.json");
        p
    }
}

} // verus!
