//! Operator settings, read from the Worker's environment variables per world
//! before its server starts. The variables are read outside the library; what
//! each one held is checked here, in the order in which they are read.

use vstd::prelude::*;
use vstd::utf8::encode_utf8;

verus! {

/// What reading one environment variable gave.
pub enum EnvValue {
    /// The variable is not set (undefined or null).
    Unset,
    /// The variable holds this text.
    Text(String),
    /// Reading the variable failed.
    Unreadable,
    /// The variable holds something other than text.
    NotText,
}

/// What reading each of the settings' variables gave.
pub struct Environment {
    pub view_distance: EnvValue,
    pub simulation_distance: EnvValue,
    pub motd: EnvValue,
    pub world_seed: EnvValue,
    pub max_players: EnvValue,
    pub compression_threshold: EnvValue,
    pub compression_level: EnvValue,
    pub idle_timeout_seconds: EnvValue,
}

/// The settings' variables.
#[derive(Clone, Copy, PartialEq, Eq, Debug, Structural)]
pub enum Variable {
    ViewDistance,
    SimulationDistance,
    Motd,
    WorldSeed,
    MaxPlayers,
    CompressionThreshold,
    CompressionLevel,
    IdleTimeoutSeconds,
}

/// The settings' integer variables, each with its range.
#[derive(Clone, Copy, PartialEq, Eq, Debug, Structural)]
pub enum Bounded {
    ViewDistance,
    SimulationDistance,
    MaxPlayers,
    CompressionThreshold,
    CompressionLevel,
    IdleTimeoutSeconds,
}

/// The variable of an integer setting.
pub open spec fn bounded_variable(b: Bounded) -> Variable {
    match b {
        Bounded::ViewDistance => Variable::ViewDistance,
        Bounded::SimulationDistance => Variable::SimulationDistance,
        Bounded::MaxPlayers => Variable::MaxPlayers,
        Bounded::CompressionThreshold => Variable::CompressionThreshold,
        Bounded::CompressionLevel => Variable::CompressionLevel,
        Bounded::IdleTimeoutSeconds => Variable::IdleTimeoutSeconds,
    }
}

impl Bounded {
    /// The variable of this integer setting.
    pub fn variable(self) -> (v: Variable)
        ensures
            v == bounded_variable(self),
    {
        match self {
            Bounded::ViewDistance => Variable::ViewDistance,
            Bounded::SimulationDistance => Variable::SimulationDistance,
            Bounded::MaxPlayers => Variable::MaxPlayers,
            Bounded::CompressionThreshold => Variable::CompressionThreshold,
            Bounded::CompressionLevel => Variable::CompressionLevel,
            Bounded::IdleTimeoutSeconds => Variable::IdleTimeoutSeconds,
        }
    }
}

/// Why the settings were refused.
#[derive(Clone, Copy, PartialEq, Eq, Debug, Structural)]
pub enum SettingsError {
    /// Reading the variable failed.
    Unreadable(Variable),
    /// The variable holds something other than text.
    NotText(Variable),
    /// The variable is not an integer in its range.
    OutOfRange(Bounded),
    /// The simulation distance exceeds the view distance.
    SimulationExceedsView,
    /// The message of the day is blank or longer than 512 bytes.
    MotdLength,
    /// The world seed is blank or longer than 256 bytes.
    SeedLength,
}

/// Operator settings.
#[derive(Clone, Debug, PartialEq)]
pub struct Settings {
    pub view_distance: u8,
    pub simulation_distance: u8,
    pub max_players: u32,
    pub compression_threshold: i32,
    pub compression_level: u32,
    pub idle_timeout_seconds: u32,
    pub motd: String,
    pub seed: Option<String>,
}

/// Settings as values.
pub struct SettingsView {
    pub view_distance: u8,
    pub simulation_distance: u8,
    pub max_players: u32,
    pub compression_threshold: i32,
    pub compression_level: u32,
    pub idle_timeout_seconds: u32,
    pub motd: Seq<char>,
    pub seed: Option<Seq<char>>,
}

impl View for Settings {
    type V = SettingsView;

    open spec fn view(&self) -> SettingsView {
        SettingsView {
            view_distance: self.view_distance,
            simulation_distance: self.simulation_distance,
            max_players: self.max_players,
            compression_threshold: self.compression_threshold,
            compression_level: self.compression_level,
            idle_timeout_seconds: self.idle_timeout_seconds,
            motd: self.motd@,
            seed: match self.seed {
                Some(s) => Some(s@),
                None => None,
            },
        }
    }
}

/// The environment variable's name.
pub open spec fn variable_name(v: Variable) -> Seq<char> {
    match v {
        Variable::ViewDistance => "VIEW_DISTANCE"@,
        Variable::SimulationDistance => "SIMULATION_DISTANCE"@,
        Variable::Motd => "MOTD"@,
        Variable::WorldSeed => "WORLD_SEED"@,
        Variable::MaxPlayers => "MAX_PLAYERS"@,
        Variable::CompressionThreshold => "COMPRESSION_THRESHOLD"@,
        Variable::CompressionLevel => "COMPRESSION_LEVEL"@,
        Variable::IdleTimeoutSeconds => "IDLE_TIMEOUT_SECONDS"@,
    }
}

/// An integer variable's default, least and greatest value.
pub open spec fn integer_bounds(v: Bounded) -> (int, int, int) {
    match v {
        Bounded::ViewDistance => (4, 2, 32),
        Bounded::SimulationDistance => (3, 2, 32),
        Bounded::MaxPlayers => (20, 1, 1000),
        Bounded::CompressionThreshold => (512, -1, 2097152),
        Bounded::CompressionLevel => (1, 0, 9),
        Bounded::IdleTimeoutSeconds => (10, 0, 30),
    }
}

/// The text of an error.
pub open spec fn error_text(e: SettingsError) -> Seq<char> {
    match e {
        SettingsError::Unreadable(v) => variable_name(v) + " is unreadable"@,
        SettingsError::NotText(v) => variable_name(v) + " must be a string"@,
        SettingsError::OutOfRange(v) => match v {
            Bounded::ViewDistance => "VIEW_DISTANCE must be an integer between 2 and 32"@,
            Bounded::SimulationDistance => "SIMULATION_DISTANCE must be an integer between 2 and 32"@,
            Bounded::MaxPlayers => "MAX_PLAYERS must be an integer between 1 and 1000"@,
            Bounded::CompressionThreshold => "COMPRESSION_THRESHOLD must be an integer between -1 and 2097152"@,
            Bounded::CompressionLevel => "COMPRESSION_LEVEL must be an integer between 0 and 9"@,
            Bounded::IdleTimeoutSeconds => "IDLE_TIMEOUT_SECONDS must be an integer between 0 and 30"@,
        },
        SettingsError::SimulationExceedsView => "SIMULATION_DISTANCE must not exceed VIEW_DISTANCE"@,
        SettingsError::MotdLength => "MOTD must contain between 1 and 512 characters"@,
        SettingsError::SeedLength => "WORLD_SEED must be a nonempty string of at most 256 characters"@,
    }
}

impl Variable {
    /// The environment variable's name.
    pub fn name(self) -> (name: String)
        ensures
            name@ == variable_name(self),
    {
        match self {
            Variable::ViewDistance => String::from_str("VIEW_DISTANCE"),
            Variable::SimulationDistance => String::from_str("SIMULATION_DISTANCE"),
            Variable::Motd => String::from_str("MOTD"),
            Variable::WorldSeed => String::from_str("WORLD_SEED"),
            Variable::MaxPlayers => String::from_str("MAX_PLAYERS"),
            Variable::CompressionThreshold => String::from_str("COMPRESSION_THRESHOLD"),
            Variable::CompressionLevel => String::from_str("COMPRESSION_LEVEL"),
            Variable::IdleTimeoutSeconds => String::from_str("IDLE_TIMEOUT_SECONDS"),
        }
    }
}

impl SettingsError {
    /// The text that reports the error.
    pub fn message(&self) -> (text: String)
        ensures
            text@ == error_text(*self),
    {
        match *self {
            SettingsError::Unreadable(v) => v.name().concat(" is unreadable"),
            SettingsError::NotText(v) => v.name().concat(" must be a string"),
            SettingsError::OutOfRange(v) => match v {
                Bounded::ViewDistance => String::from_str(
                    "VIEW_DISTANCE must be an integer between 2 and 32",
                ),
                Bounded::SimulationDistance => String::from_str(
                    "SIMULATION_DISTANCE must be an integer between 2 and 32",
                ),
                Bounded::MaxPlayers => String::from_str(
                    "MAX_PLAYERS must be an integer between 1 and 1000",
                ),
                Bounded::CompressionThreshold => String::from_str(
                    "COMPRESSION_THRESHOLD must be an integer between -1 and 2097152",
                ),
                Bounded::CompressionLevel => String::from_str(
                    "COMPRESSION_LEVEL must be an integer between 0 and 9",
                ),
                Bounded::IdleTimeoutSeconds => String::from_str(
                    "IDLE_TIMEOUT_SECONDS must be an integer between 0 and 30",
                ),
            },
            SettingsError::SimulationExceedsView => String::from_str(
                "SIMULATION_DISTANCE must not exceed VIEW_DISTANCE",
            ),
            SettingsError::MotdLength => String::from_str(
                "MOTD must contain between 1 and 512 characters",
            ),
            SettingsError::SeedLength => String::from_str(
                "WORLD_SEED must be a nonempty string of at most 256 characters",
            ),
        }
    }
}

/// A decimal digit.
pub open spec fn is_digit(c: char) -> bool {
    '0' <= c && c <= '9'
}

/// The value of a string of decimal digits.
pub open spec fn digits_value(s: Seq<char>) -> int
    decreases s.len(),
{
    if s.len() == 0 {
        0
    } else {
        10 * digits_value(s.drop_last()) + (s.last() as int - '0' as int)
    }
}

/// One or more decimal digits.
pub open spec fn all_digits(s: Seq<char>) -> bool {
    s.len() > 0 && forall|i: int| 0 <= i < s.len() ==> is_digit(#[trigger] s[i])
}

/// An optional `+` or `-` sign followed by one or more decimal digits, and
/// nothing else: its value.
pub open spec fn integer_text_value(s: Seq<char>) -> Option<int> {
    let signed = s.len() > 0 && (s[0] == '-' || s[0] == '+');
    let digits = if signed {
        s.drop_first()
    } else {
        s
    };
    if all_digits(digits) {
        Some(
            if signed && s[0] == '-' {
                -digits_value(digits)
            } else {
                digits_value(digits)
            },
        )
    } else {
        None
    }
}

/// What `str::parse::<i64>` gives for `s`: its value where `s` is an integer
/// text whose value fits `i64`.
pub open spec fn parsed_i64(s: Seq<char>) -> Option<i64> {
    match integer_text_value(s) {
        Some(v) => if i64::MIN <= v <= i64::MAX {
            Some(v as i64)
        } else {
            None
        },
        None => None,
    }
}

/// Calls `str::parse::<i64>`, which the standard library documents as
/// accepting an optional `+` or `-` sign followed by decimal digits only, and
/// refusing any other text and any value outside `i64`.
#[verifier::external_body]
fn parse_i64(s: &str) -> (value: Option<i64>)
    ensures
        value == parsed_i64(s@),
{
    s.parse::<i64>().ok()
}

/// The characters with Unicode's `White_Space` property.
pub open spec fn is_white_space(c: char) -> bool {
    ||| ('\u{9}' <= c && c <= '\u{d}')
    ||| c == ' '
    ||| c == '\u{85}'
    ||| c == '\u{a0}'
    ||| c == '\u{1680}'
    ||| ('\u{2000}' <= c && c <= '\u{200a}')
    ||| c == '\u{2028}'
    ||| c == '\u{2029}'
    ||| c == '\u{202f}'
    ||| c == '\u{205f}'
    ||| c == '\u{3000}'
}

/// Whether `c` has Unicode's `White_Space` property, as `char::is_whitespace`
/// tells.
fn char_is_whitespace(c: char) -> (white: bool)
    ensures
        white == is_white_space(c),
{
    ('\u{9}' <= c && c <= '\u{d}') || c == ' ' || c == '\u{85}' || c == '\u{a0}'
        || c == '\u{1680}' || ('\u{2000}' <= c && c <= '\u{200a}') || c == '\u{2028}'
        || c == '\u{2029}' || c == '\u{202f}' || c == '\u{205f}' || c == '\u{3000}'
}

/// Empty once leading and trailing white space is trimmed: white space only.
pub open spec fn is_blank(s: Seq<char>) -> bool {
    forall|i: int| 0 <= i < s.len() ==> is_white_space(#[trigger] s[i])
}

/// Whether `s` holds white space only.
fn blank(s: &str) -> (b: bool)
    ensures
        b == is_blank(s@),
{
    let n = s.unicode_len();
    let mut i: usize = 0;
    while i < n
        invariant
            n == s@.len(),
            i <= n,
            forall|j: int| 0 <= j < i ==> is_white_space(#[trigger] s@[j]),
        decreases n - i,
    {
        if !char_is_whitespace(s.get_char(i)) {
            return false;
        }
        i = i + 1;
    }
    true
}

/// The outcome of reading an integer variable.
pub open spec fn integer_outcome(raw: EnvValue, v: Bounded) -> Result<int, SettingsError> {
    let (fallback, min, max) = integer_bounds(v);
    match raw {
        EnvValue::Unset => Ok(fallback),
        EnvValue::Unreadable => Err(SettingsError::Unreadable(bounded_variable(v))),
        EnvValue::NotText => Err(SettingsError::NotText(bounded_variable(v))),
        EnvValue::Text(s) => match parsed_i64(s@) {
            Some(n) => if min <= n <= max {
                Ok(n as int)
            } else {
                Err(SettingsError::OutOfRange(v))
            },
            None => Err(SettingsError::OutOfRange(v)),
        },
    }
}

/// The outcome of reading a text variable.
pub open spec fn text_outcome(raw: EnvValue, v: Variable) -> Result<Option<Seq<char>>, SettingsError> {
    match raw {
        EnvValue::Unset => Ok(None),
        EnvValue::Unreadable => Err(SettingsError::Unreadable(v)),
        EnvValue::NotText => Err(SettingsError::NotText(v)),
        EnvValue::Text(s) => Ok(Some(s@)),
    }
}

/// A world seed must hold something other than white space, in at most 256
/// bytes.
pub open spec fn seed_refused(seed: Option<Seq<char>>) -> bool {
    match seed {
        Some(s) => is_blank(s) || encode_utf8(s).len() > 256,
        None => false,
    }
}

/// The message of the day shown when `MOTD` is unset.
pub open spec fn default_motd() -> Seq<char> {
    "Minecraft on Cloudflare Workers"@
}

/// The view and simulation distances, or the first error met.
pub open spec fn distances_outcome(env: Environment) -> Result<(int, int), SettingsError> {
    match integer_outcome(env.view_distance, Bounded::ViewDistance) {
        Err(e) => Err(e),
        Ok(view) => match integer_outcome(env.simulation_distance, Bounded::SimulationDistance) {
            Err(e) => Err(e),
            Ok(simulation) => if simulation > view {
                Err(SettingsError::SimulationExceedsView)
            } else {
                Ok((view, simulation))
            },
        },
    }
}

/// The message of the day: its default when unset; it must hold something
/// other than white space, in at most 512 bytes.
pub open spec fn motd_outcome(raw: EnvValue) -> Result<Seq<char>, SettingsError> {
    match text_outcome(raw, Variable::Motd) {
        Err(e) => Err(e),
        Ok(motd) => {
            let motd = match motd {
                Some(m) => m,
                None => default_motd(),
            };
            if is_blank(motd) || encode_utf8(motd).len() > 512 {
                Err(SettingsError::MotdLength)
            } else {
                Ok(motd)
            }
        },
    }
}

/// The world seed, if set.
pub open spec fn seed_outcome(raw: EnvValue) -> Result<Option<Seq<char>>, SettingsError> {
    match text_outcome(raw, Variable::WorldSeed) {
        Err(e) => Err(e),
        Ok(seed) => if seed_refused(seed) {
            Err(SettingsError::SeedLength)
        } else {
            Ok(seed)
        },
    }
}

/// The player limit, compression threshold, compression level and idle
/// timeout, or the first error met.
pub open spec fn limits_outcome(env: Environment) -> Result<(int, int, int, int), SettingsError> {
    match integer_outcome(env.max_players, Bounded::MaxPlayers) {
        Err(e) => Err(e),
        Ok(players) => match integer_outcome(
            env.compression_threshold,
            Bounded::CompressionThreshold,
        ) {
            Err(e) => Err(e),
            Ok(threshold) => match integer_outcome(env.compression_level, Bounded::CompressionLevel) {
                Err(e) => Err(e),
                Ok(level) => match integer_outcome(
                    env.idle_timeout_seconds,
                    Bounded::IdleTimeoutSeconds,
                ) {
                    Err(e) => Err(e),
                    Ok(idle) => Ok((players, threshold, level, idle)),
                },
            },
        },
    }
}

/// The settings that `env` gives, or the first error met, reading the
/// variables in the order view distance, simulation distance, message of the
/// day, world seed, player limit, compression threshold, compression level
/// and idle timeout.
pub open spec fn settings_outcome(env: Environment) -> Result<SettingsView, SettingsError> {
    match distances_outcome(env) {
        Err(e) => Err(e),
        Ok((view, simulation)) => match motd_outcome(env.motd) {
            Err(e) => Err(e),
            Ok(motd) => match seed_outcome(env.world_seed) {
                Err(e) => Err(e),
                Ok(seed) => match limits_outcome(env) {
                    Err(e) => Err(e),
                    Ok((players, threshold, level, idle)) => Ok(
                        SettingsView {
                            view_distance: view as u8,
                            simulation_distance: simulation as u8,
                            max_players: players as u32,
                            compression_threshold: threshold as i32,
                            compression_level: level as u32,
                            idle_timeout_seconds: idle as u32,
                            motd,
                            seed,
                        },
                    ),
                },
            },
        },
    }
}

/// Settings within the documented ranges: distances from 2 to 32 with the
/// simulation distance at most the view distance, 1 to 1000 players, a
/// compression threshold from -1 to 2 MiB, a compression level from 0 to 9,
/// an idle timeout of at most 30 seconds, a message of the day of 1 to 512
/// bytes and a seed of 1 to 256 bytes, neither of them blank.
pub open spec fn settings_valid(v: SettingsView) -> bool {
    &&& 2 <= v.simulation_distance <= v.view_distance <= 32
    &&& 1 <= v.max_players <= 1000
    &&& -1 <= v.compression_threshold <= 2097152
    &&& v.compression_level <= 9
    &&& v.idle_timeout_seconds <= 30
    &&& !is_blank(v.motd) && encode_utf8(v.motd).len() <= 512
    &&& !seed_refused(v.seed)
}

/// Whatever the variables hold, settings that are accepted are within the
/// documented ranges.
pub proof fn lemma_accepted_settings_valid(env: Environment)
    ensures
        settings_outcome(env) matches Ok(v) ==> settings_valid(v),
{
}

/// With no variable set, the settings are the documented defaults.
pub proof fn lemma_unset_defaults(env: Environment)
    requires
        env.view_distance is Unset,
        env.simulation_distance is Unset,
        env.motd is Unset,
        env.world_seed is Unset,
        env.max_players is Unset,
        env.compression_threshold is Unset,
        env.compression_level is Unset,
        env.idle_timeout_seconds is Unset,
    ensures
        settings_outcome(env) == Ok::<SettingsView, SettingsError>(
            SettingsView {
                view_distance: 4,
                simulation_distance: 3,
                max_players: 20,
                compression_threshold: 512,
                compression_level: 1,
                idle_timeout_seconds: 10,
                motd: default_motd(),
                seed: None,
            },
        ),
{
    reveal_strlit("Minecraft on Cloudflare Workers");
    let m = default_motd();
    assert(!is_blank(m)) by {
        assert(!is_white_space(m[0]));
    }
    assert(encode_utf8(m).len() <= 512) by {
        vstd::utf8::is_ascii_chars_encode_utf8(m);
    }
}

/// Some character of `s` is not white space.
pub open spec fn has_visible(s: Seq<char>) -> bool {
    exists|i: int| 0 <= i < s.len() && !is_white_space(#[trigger] s[i])
}

/// Every variable of `env` is unset but the message of the day and the
/// world seed.
pub open spec fn only_text_set(env: Environment) -> bool {
    &&& env.view_distance is Unset
    &&& env.simulation_distance is Unset
    &&& env.max_players is Unset
    &&& env.compression_threshold is Unset
    &&& env.compression_level is Unset
    &&& env.idle_timeout_seconds is Unset
}

/// Any message of the day and world seed that hold something other than
/// white space, in at most 512 and 256 UTF-8 bytes, are accepted as they
/// are, whatever characters they hold; an unset message of the day gives the
/// default one and an unset seed gives none.
pub proof fn lemma_texts_accepted(env: Environment)
    requires
        only_text_set(env),
        match env.motd {
            EnvValue::Text(m) => has_visible(m@) && encode_utf8(m@).len() <= 512,
            EnvValue::Unset => true,
            _ => false,
        },
        match env.world_seed {
            EnvValue::Text(s) => has_visible(s@) && encode_utf8(s@).len() <= 256,
            EnvValue::Unset => true,
            _ => false,
        },
    ensures
        settings_outcome(env) matches Ok(v) && {
            &&& v.motd == match env.motd {
                EnvValue::Text(m) => m@,
                _ => "Minecraft on Cloudflare Workers"@,
            }
            &&& v.seed == match env.world_seed {
                EnvValue::Text(s) => Some(s@),
                _ => None,
            }
        },
{
    reveal_strlit("Minecraft on Cloudflare Workers");
    let d = default_motd();
    assert(!is_blank(d)) by {
        assert(!is_white_space(d[0]));
    }
    assert(encode_utf8(d).len() <= 512) by {
        vstd::utf8::is_ascii_chars_encode_utf8(d);
    }
    if let EnvValue::Text(m) = env.motd {
        let i = choose|i: int| 0 <= i < m@.len() && !is_white_space(#[trigger] m@[i]);
        assert(!is_blank(m@));
    }
    if let EnvValue::Text(s) = env.world_seed {
        let i = choose|i: int| 0 <= i < s@.len() && !is_white_space(#[trigger] s@[i]);
        assert(!is_blank(s@));
    }
}

/// A refused message of the day or world seed is blank or too long: no other
/// property of its text refuses it.
pub proof fn lemma_text_refusals(env: Environment)
    ensures
        settings_outcome(env) == Err::<SettingsView, SettingsError>(SettingsError::MotdLength)
            ==> ({
            let m = match env.motd {
                EnvValue::Text(m) => m@,
                _ => default_motd(),
            };
            !has_visible(m) || encode_utf8(m).len() > 512
        }),
        settings_outcome(env) == Err::<SettingsView, SettingsError>(SettingsError::SeedLength)
            ==> (env.world_seed matches EnvValue::Text(s) && (!has_visible(s@) || encode_utf8(
            s@,
        ).len() > 256)),
{
    if settings_outcome(env) == Err::<SettingsView, SettingsError>(SettingsError::MotdLength) {
        let m = match env.motd {
            EnvValue::Text(m) => m@,
            _ => default_motd(),
        };
        if has_visible(m) {
            let i = choose|i: int| 0 <= i < m.len() && !is_white_space(#[trigger] m[i]);
        }
    }
    if settings_outcome(env) == Err::<SettingsView, SettingsError>(SettingsError::SeedLength) {
        if let EnvValue::Text(s) = env.world_seed {
            if has_visible(s@) {
                let i = choose|i: int| 0 <= i < s@.len() && !is_white_space(#[trigger] s@[i]);
            }
        }
    }
}

/// Reads an integer variable: its default when unset, else its value when it
/// is an integer within `[min, max]`.
fn integer(raw: &EnvValue, v: Bounded, fallback: i64, min: i64, max: i64) -> (value: Result<
    i64,
    SettingsError,
>)
    requires
        integer_bounds(v) == (fallback as int, min as int, max as int),
    ensures
        match integer_outcome(*raw, v) {
            Ok(n) => value matches Ok(m) && m == n,
            Err(e) => value == Err::<i64, SettingsError>(e),
        },
{
    match raw {
        EnvValue::Unset => Ok(fallback),
        EnvValue::Unreadable => Err(SettingsError::Unreadable(v.variable())),
        EnvValue::NotText => Err(SettingsError::NotText(v.variable())),
        EnvValue::Text(s) => match parse_i64(s.as_str()) {
            Some(n) => if min <= n && n <= max {
                Ok(n)
            } else {
                Err(SettingsError::OutOfRange(v))
            },
            None => Err(SettingsError::OutOfRange(v)),
        },
    }
}

/// Reads a text variable.
fn text(raw: &EnvValue, v: Variable) -> (value: Result<Option<String>, SettingsError>)
    ensures
        match text_outcome(*raw, v) {
            Ok(None) => value matches Ok(None),
            Ok(Some(t)) => value matches Ok(Some(s)) && s@ == t,
            Err(e) => value == Err::<Option<String>, SettingsError>(e),
        },
{
    match raw {
        EnvValue::Unset => Ok(None),
        EnvValue::Unreadable => Err(SettingsError::Unreadable(v)),
        EnvValue::NotText => Err(SettingsError::NotText(v)),
        EnvValue::Text(s) => Ok(Some(s.clone())),
    }
}

/// Reads the view and simulation distances.
fn distances(env: &Environment) -> (d: Result<(u8, u8), SettingsError>)
    ensures
        match distances_outcome(*env) {
            Ok((view, simulation)) => d matches Ok((v, s)) && v == view && s == simulation,
            Err(e) => d == Err::<(u8, u8), SettingsError>(e),
        },
{
    let view = match integer(&env.view_distance, Bounded::ViewDistance, 4, 2, 32) {
        Ok(n) => n as u8,
        Err(e) => return Err(e),
    };
    let simulation = match integer(
        &env.simulation_distance,
        Bounded::SimulationDistance,
        3,
        2,
        32,
    ) {
        Ok(n) => n as u8,
        Err(e) => return Err(e),
    };
    if simulation > view {
        return Err(SettingsError::SimulationExceedsView);
    }
    Ok((view, simulation))
}

/// Reads the message of the day.
fn motd(raw: &EnvValue) -> (m: Result<String, SettingsError>)
    ensures
        match motd_outcome(*raw) {
            Ok(t) => m matches Ok(s) && s@ == t,
            Err(e) => m == Err::<String, SettingsError>(e),
        },
{
    let motd = match text(raw, Variable::Motd) {
        Ok(Some(m)) => m,
        Ok(None) => String::from_str("Minecraft on Cloudflare Workers"),
        Err(e) => return Err(e),
    };
    if motd.as_str().as_bytes().len() > 512 || blank(motd.as_str()) {
        return Err(SettingsError::MotdLength);
    }
    Ok(motd)
}

/// Reads the world seed.
fn seed(raw: &EnvValue) -> (s: Result<Option<String>, SettingsError>)
    ensures
        match seed_outcome(*raw) {
            Ok(None) => s matches Ok(None),
            Ok(Some(t)) => s matches Ok(Some(v)) && v@ == t,
            Err(e) => s == Err::<Option<String>, SettingsError>(e),
        },
{
    let seed = match text(raw, Variable::WorldSeed) {
        Ok(seed) => seed,
        Err(e) => return Err(e),
    };
    if let Some(s) = &seed {
        if s.as_str().as_bytes().len() > 256 || blank(s.as_str()) {
            return Err(SettingsError::SeedLength);
        }
    }
    Ok(seed)
}

/// Reads the player limit, compression threshold, compression level and
/// idle timeout.
fn limits(env: &Environment) -> (l: Result<(u32, i32, u32, u32), SettingsError>)
    ensures
        match limits_outcome(*env) {
            Ok((p, t, c, i)) => l matches Ok((lp, lt, lc, li)) && lp == p && lt == t && lc == c
                && li == i,
            Err(e) => l == Err::<(u32, i32, u32, u32), SettingsError>(e),
        },
{
    let players = match integer(&env.max_players, Bounded::MaxPlayers, 20, 1, 1000) {
        Ok(n) => n as u32,
        Err(e) => return Err(e),
    };
    let threshold = match integer(
        &env.compression_threshold,
        Bounded::CompressionThreshold,
        512,
        -1,
        2 * 1024 * 1024,
    ) {
        Ok(n) => n as i32,
        Err(e) => return Err(e),
    };
    let level = match integer(&env.compression_level, Bounded::CompressionLevel, 1, 0, 9) {
        Ok(n) => n as u32,
        Err(e) => return Err(e),
    };
    let idle = match integer(&env.idle_timeout_seconds, Bounded::IdleTimeoutSeconds, 10, 0, 30) {
        Ok(n) => n as u32,
        Err(e) => return Err(e),
    };
    Ok((players, threshold, level, idle))
}

impl Settings {
    /// The settings that the variables give, or the first error met.
    pub fn from_vars(env: &Environment) -> (settings: Result<Settings, SettingsError>)
        ensures
            match settings_outcome(*env) {
                Ok(v) => settings matches Ok(s) && s@ == v,
                Err(e) => settings == Err::<Settings, SettingsError>(e),
            },
    {
        let (view_distance, simulation_distance) = match distances(env) {
            Ok(d) => d,
            Err(e) => return Err(e),
        };
        let motd = match motd(&env.motd) {
            Ok(m) => m,
            Err(e) => return Err(e),
        };
        let seed = match seed(&env.world_seed) {
            Ok(s) => s,
            Err(e) => return Err(e),
        };
        let (max_players, compression_threshold, compression_level, idle_timeout_seconds) =
            match limits(env) {
            Ok(l) => l,
            Err(e) => return Err(e),
        };
        let settings = Settings {
            view_distance,
            simulation_distance,
            max_players,
            compression_threshold,
            compression_level,
            idle_timeout_seconds,
            motd,
            seed,
        };
        assert(settings@ =~= match settings_outcome(*env) {
            Ok(v) => v,
            Err(_) => settings@,
        });
        Ok(settings)
    }
}

} // verus!
