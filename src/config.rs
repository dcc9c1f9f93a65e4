//! The configuration: its keys, the source it is read from, the loader and
//! the store that holds the active snapshot and swaps it on reload.
use vstd::prelude::*;
use vstd::string::*;

use crate::address::{ip_text, parse_ip, IpAddress};
use crate::text::{
    bool_text, parse_bool, parse_temperature, parse_u64, temperature_text, u64_text, Temperature,
};

verus! {

/// The recognised configuration keys.
#[derive(Clone, Copy, Debug, PartialEq, Eq, Structural)]
pub enum Key {
    TapoUser,
    TapoPassword,
    HubIp,
    Thermo1Ip,
    Thermo2Ip,
    MinTemp,
    MaxTemp,
    Duration,
    ThermostatEnabled,
}

pub open spec fn key_name(k: Key) -> &'static str {
    match k {
        Key::TapoUser => "TAPO_USER",
        Key::TapoPassword => "TAPO_PASSWORD",
        Key::HubIp => "HUB_IP",
        Key::Thermo1Ip => "THERMO_1_IP",
        Key::Thermo2Ip => "THERMO_2_IP",
        Key::MinTemp => "MIN_TEMP",
        Key::MaxTemp => "MAX_TEMP",
        Key::Duration => "DURATION",
        Key::ThermostatEnabled => "THERMOSTAT_ENABLED",
    }
}

impl Key {
    /// The variable name under which the key is found in the environment.
    pub fn name(&self) -> (r: &'static str)
        ensures
            r == key_name(*self),
    {
        match self {
            Key::TapoUser => "TAPO_USER",
            Key::TapoPassword => "TAPO_PASSWORD",
            Key::HubIp => "HUB_IP",
            Key::Thermo1Ip => "THERMO_1_IP",
            Key::Thermo2Ip => "THERMO_2_IP",
            Key::MinTemp => "MIN_TEMP",
            Key::MaxTemp => "MAX_TEMP",
            Key::Duration => "DURATION",
            Key::ThermostatEnabled => "THERMOSTAT_ENABLED",
        }
    }
}

/// Why a present value was rejected.
#[derive(Clone, Copy, Debug, PartialEq, Eq, Structural)]
pub enum Detail {
    Empty,
    NotAnAddress,
    NotATemperature,
    NotANumber,
    ZeroInterval,
    NotABool,
}

#[derive(Clone, Copy, Debug, PartialEq, Eq, Structural)]
pub enum ConfigError {
    /// The key is absent from the source.
    MissingField(Key),
    /// The key is present but its value is malformed.
    ParseError(Key, Detail),
}

/// A key/value source of configuration text; a later entry for a key
/// overrides an earlier one.
pub struct Source {
    entries: Vec<(Key, String)>,
}

impl View for Source {
    type V = Seq<(Key, Seq<char>)>;

    closed spec fn view(&self) -> Seq<(Key, Seq<char>)> {
        self.entries@.map_values(|e: (Key, String)| (e.0, e.1@))
    }
}

/// The value of the last entry for `k`.
pub open spec fn lookup(src: Seq<(Key, Seq<char>)>, k: Key) -> Option<Seq<char>>
    decreases src.len(),
{
    if src.len() == 0 {
        None
    } else if src.last().0 == k {
        Some(src.last().1)
    } else {
        lookup(src.drop_last(), k)
    }
}

impl Source {
    pub fn new() -> (r: Source)
        ensures
            r@ == Seq::<(Key, Seq<char>)>::empty(),
    {
        let r = Source { entries: Vec::new() };
        assert(r@ =~= Seq::<(Key, Seq<char>)>::empty());
        r
    }

    /// Records `value` for `key`.
    pub fn insert(&mut self, key: Key, value: String)
        ensures
            final(self)@ == old(self)@.push((key, value@)),
    {
        self.entries.push((key, value));
        assert(self@ =~= old(self)@.push((key, value@)));
    }

    /// The value recorded last for `key`.
    pub fn get(&self, key: Key) -> (r: Option<&str>)
        ensures
            match lookup(self@, key) {
                Some(v) => r is Some && r->Some_0@ == v,
                None => r is None,
            },
    {
        let mut i: usize = self.entries.len();
        assert(self@.subrange(0, i as int) =~= self@);
        while i > 0
            invariant
                i <= self.entries@.len(),
                lookup(self@, key) == lookup(self@.subrange(0, i as int), key),
            decreases i,
        {
            let ghost pre = self@.subrange(0, i as int);
            assert(pre.drop_last() =~= self@.subrange(0, i - 1));
            if self.entries[i - 1].0 == key {
                return Some(self.entries[i - 1].1.as_str());
            }
            i = i - 1;
        }
        assert(self@.subrange(0, 0) =~= Seq::<(Key, Seq<char>)>::empty());
        None
    }
}

/// A configuration, as the contracts speak of it.
pub struct ConfigView {
    pub tapo_user: Seq<char>,
    pub tapo_password: Seq<char>,
    pub hub_ip: IpAddress,
    pub thermo_1_ip: IpAddress,
    pub thermo_2_ip: IpAddress,
    pub min_temp: Temperature,
    pub max_temp: Temperature,
    pub duration: u64,
    pub thermostat_enabled: bool,
}

/// A complete configuration; `duration` is the poll interval in seconds.
#[derive(Debug)]
pub struct Config {
    pub tapo_user: String,
    pub tapo_password: String,
    pub hub_ip: IpAddress,
    pub thermo_1_ip: IpAddress,
    pub thermo_2_ip: IpAddress,
    pub min_temp: Temperature,
    pub max_temp: Temperature,
    pub duration: u64,
    pub thermostat_enabled: bool,
}

impl View for Config {
    type V = ConfigView;

    open spec fn view(&self) -> ConfigView {
        ConfigView {
            tapo_user: self.tapo_user@,
            tapo_password: self.tapo_password@,
            hub_ip: self.hub_ip,
            thermo_1_ip: self.thermo_1_ip,
            thermo_2_ip: self.thermo_2_ip,
            min_temp: self.min_temp,
            max_temp: self.max_temp,
            duration: self.duration,
            thermostat_enabled: self.thermostat_enabled,
        }
    }
}

pub open spec fn text_field(src: Seq<(Key, Seq<char>)>, k: Key) -> Result<Seq<char>, ConfigError> {
    match lookup(src, k) {
        None => Err(ConfigError::MissingField(k)),
        Some(v) => if v.len() == 0 {
            Err(ConfigError::ParseError(k, Detail::Empty))
        } else {
            Ok(v)
        },
    }
}

pub open spec fn address_field(src: Seq<(Key, Seq<char>)>, k: Key) -> Result<
    IpAddress,
    ConfigError,
> {
    match lookup(src, k) {
        None => Err(ConfigError::MissingField(k)),
        Some(v) => match ip_text(v) {
            Some(a) => Ok(a),
            None => Err(ConfigError::ParseError(k, Detail::NotAnAddress)),
        },
    }
}

pub open spec fn temperature_field(src: Seq<(Key, Seq<char>)>, k: Key) -> Result<
    Temperature,
    ConfigError,
> {
    match lookup(src, k) {
        None => Err(ConfigError::MissingField(k)),
        Some(v) => match temperature_text(v) {
            Some(t) => Ok(t),
            None => Err(ConfigError::ParseError(k, Detail::NotATemperature)),
        },
    }
}

pub open spec fn number_field(src: Seq<(Key, Seq<char>)>, k: Key) -> Result<u64, ConfigError> {
    match lookup(src, k) {
        None => Err(ConfigError::MissingField(k)),
        Some(v) => match u64_text(v) {
            Some(n) => Ok(n),
            None => Err(ConfigError::ParseError(k, Detail::NotANumber)),
        },
    }
}

/// A poll interval: a number of seconds, which must be positive.
pub open spec fn seconds_field(src: Seq<(Key, Seq<char>)>, k: Key) -> Result<u64, ConfigError> {
    match number_field(src, k) {
        Ok(n) => if n == 0 {
            Err(ConfigError::ParseError(k, Detail::ZeroInterval))
        } else {
            Ok(n)
        },
        Err(e) => Err(e),
    }
}

pub open spec fn flag_field(src: Seq<(Key, Seq<char>)>, k: Key) -> Result<bool, ConfigError> {
    match lookup(src, k) {
        None => Err(ConfigError::MissingField(k)),
        Some(v) => match bool_text(v) {
            Some(b) => Ok(b),
            None => Err(ConfigError::ParseError(k, Detail::NotABool)),
        },
    }
}

/// What loading `src` gives: the fields are read in the order of `Key`, and
/// the first one that is absent or malformed decides the error.
pub open spec fn load_spec(src: Seq<(Key, Seq<char>)>) -> Result<ConfigView, ConfigError> {
    let user = text_field(src, Key::TapoUser);
    let password = text_field(src, Key::TapoPassword);
    let hub = address_field(src, Key::HubIp);
    let t1 = address_field(src, Key::Thermo1Ip);
    let t2 = address_field(src, Key::Thermo2Ip);
    let min = temperature_field(src, Key::MinTemp);
    let max = temperature_field(src, Key::MaxTemp);
    let secs = seconds_field(src, Key::Duration);
    let enabled = flag_field(src, Key::ThermostatEnabled);
    if user is Err {
        Err(user->Err_0)
    } else if password is Err {
        Err(password->Err_0)
    } else if hub is Err {
        Err(hub->Err_0)
    } else if t1 is Err {
        Err(t1->Err_0)
    } else if t2 is Err {
        Err(t2->Err_0)
    } else if min is Err {
        Err(min->Err_0)
    } else if max is Err {
        Err(max->Err_0)
    } else if secs is Err {
        Err(secs->Err_0)
    } else if enabled is Err {
        Err(enabled->Err_0)
    } else {
        Ok(
            ConfigView {
                tapo_user: user->Ok_0,
                tapo_password: password->Ok_0,
                hub_ip: hub->Ok_0,
                thermo_1_ip: t1->Ok_0,
                thermo_2_ip: t2->Ok_0,
                min_temp: min->Ok_0,
                max_temp: max->Ok_0,
                duration: secs->Ok_0,
                thermostat_enabled: enabled->Ok_0,
            },
        )
    }
}

/// The text recorded for `k`, empty or not.
fn get_str(src: &Source, k: Key) -> (r: Result<String, ConfigError>)
    ensures
        match lookup(src@, k) {
            Some(v) => r is Ok && r->Ok_0@ == v,
            None => r == Err::<String, ConfigError>(ConfigError::MissingField(k)),
        },
{
    match src.get(k) {
        None => Err(ConfigError::MissingField(k)),
        Some(v) => Ok(v.to_string()),
    }
}

/// The text recorded for `k`, which must not be empty.
fn get_nonempty(src: &Source, k: Key) -> (r: Result<String, ConfigError>)
    ensures
        match text_field(src@, k) {
            Ok(v) => r is Ok && r->Ok_0@ == v,
            Err(e) => r == Err::<String, ConfigError>(e),
        },
{
    match get_str(src, k) {
        Err(e) => Err(e),
        Ok(v) => {
            if v.as_str().unicode_len() == 0 {
                Err(ConfigError::ParseError(k, Detail::Empty))
            } else {
                Ok(v)
            }
        },
    }
}

fn get_ip(src: &Source, k: Key) -> (r: Result<IpAddress, ConfigError>)
    ensures
        r == address_field(src@, k),
{
    match src.get(k) {
        None => Err(ConfigError::MissingField(k)),
        Some(v) => match parse_ip(v) {
            Some(a) => Ok(a),
            None => Err(ConfigError::ParseError(k, Detail::NotAnAddress)),
        },
    }
}

fn get_temperature(src: &Source, k: Key) -> (r: Result<Temperature, ConfigError>)
    ensures
        r == temperature_field(src@, k),
{
    match src.get(k) {
        None => Err(ConfigError::MissingField(k)),
        Some(v) => match parse_temperature(v) {
            Some(t) => Ok(t),
            None => Err(ConfigError::ParseError(k, Detail::NotATemperature)),
        },
    }
}

/// The number recorded for `k`, whatever its value.
pub fn get_parse(src: &Source, k: Key) -> (r: Result<u64, ConfigError>)
    ensures
        r == number_field(src@, k),
{
    match src.get(k) {
        None => Err(ConfigError::MissingField(k)),
        Some(v) => match parse_u64(v) {
            Some(n) => Ok(n),
            None => Err(ConfigError::ParseError(k, Detail::NotANumber)),
        },
    }
}

/// The poll interval recorded for `k`, which must be positive.
fn get_interval(src: &Source, k: Key) -> (r: Result<u64, ConfigError>)
    ensures
        r == seconds_field(src@, k),
{
    match get_parse(src, k) {
        Err(e) => Err(e),
        Ok(n) => {
            if n == 0 {
                Err(ConfigError::ParseError(k, Detail::ZeroInterval))
            } else {
                Ok(n)
            }
        },
    }
}

pub fn get_bool(src: &Source, k: Key) -> (r: Result<bool, ConfigError>)
    ensures
        r == flag_field(src@, k),
{
    match src.get(k) {
        None => Err(ConfigError::MissingField(k)),
        Some(v) => match parse_bool(v) {
            Some(b) => Ok(b),
            None => Err(ConfigError::ParseError(k, Detail::NotABool)),
        },
    }
}

impl Config {
    /// Reads and validates every field from `src`. No partial configuration
    /// is ever returned: the first absent or malformed field is the error.
    pub fn load(src: &Source) -> (r: Result<Config, ConfigError>)
        ensures
            match load_spec(src@) {
                Ok(c) => r is Ok && r->Ok_0@ == c,
                Err(e) => r is Err && r->Err_0 == e,
            },
    {
        let tapo_user = match get_nonempty(src, Key::TapoUser) {
            Ok(v) => v,
            Err(e) => return Err(e),
        };
        let tapo_password = match get_nonempty(src, Key::TapoPassword) {
            Ok(v) => v,
            Err(e) => return Err(e),
        };
        let hub_ip = match get_ip(src, Key::HubIp) {
            Ok(v) => v,
            Err(e) => return Err(e),
        };
        let thermo_1_ip = match get_ip(src, Key::Thermo1Ip) {
            Ok(v) => v,
            Err(e) => return Err(e),
        };
        let thermo_2_ip = match get_ip(src, Key::Thermo2Ip) {
            Ok(v) => v,
            Err(e) => return Err(e),
        };
        let min_temp = match get_temperature(src, Key::MinTemp) {
            Ok(v) => v,
            Err(e) => return Err(e),
        };
        let max_temp = match get_temperature(src, Key::MaxTemp) {
            Ok(v) => v,
            Err(e) => return Err(e),
        };
        let duration = match get_interval(src, Key::Duration) {
            Ok(v) => v,
            Err(e) => return Err(e),
        };
        let thermostat_enabled = match get_bool(src, Key::ThermostatEnabled) {
            Ok(v) => v,
            Err(e) => return Err(e),
        };
        Ok(
            Config {
                tapo_user,
                tapo_password,
                hub_ip,
                thermo_1_ip,
                thermo_2_ip,
                min_temp,
                max_temp,
                duration,
                thermostat_enabled,
            },
        )
    }

    /// A copy of this configuration.
    pub fn snapshot(&self) -> (r: Config)
        ensures
            r@ == self@,
    {
        Config {
            tapo_user: self.tapo_user.clone(),
            tapo_password: self.tapo_password.clone(),
            hub_ip: self.hub_ip,
            thermo_1_ip: self.thermo_1_ip,
            thermo_2_ip: self.thermo_2_ip,
            min_temp: self.min_temp,
            max_temp: self.max_temp,
            duration: self.duration,
            thermostat_enabled: self.thermostat_enabled,
        }
    }
}

/// Holds the active configuration. It is only ever replaced whole, by a
/// configuration that loaded completely.
pub struct ConfigStore {
    current: Config,
}

impl View for ConfigStore {
    type V = ConfigView;

    closed spec fn view(&self) -> ConfigView {
        self.current@
    }
}

/// Loads the first configuration and installs it in a new store.
pub fn init_config(src: &Source) -> (r: Result<ConfigStore, ConfigError>)
    ensures
        match load_spec(src@) {
            Ok(c) => r is Ok && r->Ok_0@ == c,
            Err(e) => r is Err && r->Err_0 == e,
        },
{
    match Config::load(src) {
        Ok(current) => Ok(ConfigStore { current }),
        Err(e) => Err(e),
    }
}

/// The active configuration.
pub fn config(store: &ConfigStore) -> (r: Config)
    ensures
        r@ == store@,
{
    store.current.snapshot()
}

/// Loads `src` again. On success the new configuration replaces the active
/// one; on failure the active one is left exactly as it was and the error is
/// returned.
pub fn reload_config(store: &mut ConfigStore, src: &Source) -> (r: Result<(), ConfigError>)
    ensures
        match load_spec(src@) {
            Ok(c) => r is Ok && final(store)@ == c,
            Err(e) => r == Err::<(), ConfigError>(e) && final(store)@ == old(store)@,
        },
{
    match Config::load(src) {
        Ok(c) => {
            store.current = c;
            Ok(())
        },
        Err(e) => Err(e),
    }
}

/// Whether the field for `k` is present and well-formed in `src`.
pub open spec fn field_ok(src: Seq<(Key, Seq<char>)>, k: Key) -> bool {
    match k {
        Key::TapoUser | Key::TapoPassword => text_field(src, k) is Ok,
        Key::HubIp | Key::Thermo1Ip | Key::Thermo2Ip => address_field(src, k) is Ok,
        Key::MinTemp | Key::MaxTemp => temperature_field(src, k) is Ok,
        Key::Duration => seconds_field(src, k) is Ok,
        Key::ThermostatEnabled => flag_field(src, k) is Ok,
    }
}

/// When every field parses, loading succeeds, and the result holds exactly
/// what the source's text says: the thresholds, the enable flag and the poll
/// interval, which is positive.
pub proof fn lemma_load_round_trip(src: Seq<(Key, Seq<char>)>)
    requires
        forall|k: Key| #[trigger] field_ok(src, k),
    ensures
        load_spec(src) is Ok,
        load_spec(src)->Ok_0.tapo_user == lookup(src, Key::TapoUser)->Some_0,
        load_spec(src)->Ok_0.tapo_password == lookup(src, Key::TapoPassword)->Some_0,
        Some(load_spec(src)->Ok_0.hub_ip) == ip_text(lookup(src, Key::HubIp)->Some_0),
        Some(load_spec(src)->Ok_0.min_temp) == temperature_text(lookup(src, Key::MinTemp)->Some_0),
        Some(load_spec(src)->Ok_0.max_temp) == temperature_text(lookup(src, Key::MaxTemp)->Some_0),
        Some(load_spec(src)->Ok_0.duration) == u64_text(lookup(src, Key::Duration)->Some_0),
        load_spec(src)->Ok_0.duration > 0,
        Some(load_spec(src)->Ok_0.thermostat_enabled) == bool_text(
            lookup(src, Key::ThermostatEnabled)->Some_0,
        ),
{
    assert(field_ok(src, Key::TapoUser));
    assert(field_ok(src, Key::TapoPassword));
    assert(field_ok(src, Key::HubIp));
    assert(field_ok(src, Key::Thermo1Ip));
    assert(field_ok(src, Key::Thermo2Ip));
    assert(field_ok(src, Key::MinTemp));
    assert(field_ok(src, Key::MaxTemp));
    assert(field_ok(src, Key::Duration));
    assert(field_ok(src, Key::ThermostatEnabled));
}

/// Every load error names its field, and its kind tells an absent key
/// (`MissingField`) from a present but malformed value (`ParseError`).
/// Loading succeeds exactly when every field is well-formed.
pub proof fn lemma_load_error_kind(src: Seq<(Key, Seq<char>)>)
    ensures
        load_spec(src) is Ok <==> forall|k: Key| #[trigger] field_ok(src, k),
        load_spec(src) is Err ==> !field_ok(src, error_key(load_spec(src)->Err_0)),
        match load_spec(src) {
            Err(ConfigError::MissingField(k)) => lookup(src, k) is None,
            Err(ConfigError::ParseError(k, _)) => lookup(src, k) is Some,
            Ok(_) => true,
        },
{
    if forall|k: Key| #[trigger] field_ok(src, k) {
        assert(field_ok(src, Key::TapoUser));
        assert(field_ok(src, Key::TapoPassword));
        assert(field_ok(src, Key::HubIp));
        assert(field_ok(src, Key::Thermo1Ip));
        assert(field_ok(src, Key::Thermo2Ip));
        assert(field_ok(src, Key::MinTemp));
        assert(field_ok(src, Key::MaxTemp));
        assert(field_ok(src, Key::Duration));
        assert(field_ok(src, Key::ThermostatEnabled));
    }
}

/// The key that a load error names.
pub open spec fn error_key(e: ConfigError) -> Key {
    match e {
        ConfigError::MissingField(k) => k,
        ConfigError::ParseError(k, _) => k,
    }
}

/// When only the field for `k` is bad, loading fails with an error for `k`:
/// `MissingField(k)` when the key is absent, a `ParseError` for `k` when its
/// value is present but malformed.
pub proof fn lemma_single_bad_field(src: Seq<(Key, Seq<char>)>, k: Key)
    requires
        !field_ok(src, k),
        forall|j: Key| j != k ==> #[trigger] field_ok(src, j),
    ensures
        load_spec(src) is Err,
        error_key(load_spec(src)->Err_0) == k,
        lookup(src, k) is None ==> load_spec(src) == Err::<ConfigView, ConfigError>(
            ConfigError::MissingField(k),
        ),
        lookup(src, k) is Some ==> load_spec(src)->Err_0 is ParseError,
{
    assert(k == Key::TapoUser || field_ok(src, Key::TapoUser));
    assert(k == Key::TapoPassword || field_ok(src, Key::TapoPassword));
    assert(k == Key::HubIp || field_ok(src, Key::HubIp));
    assert(k == Key::Thermo1Ip || field_ok(src, Key::Thermo1Ip));
    assert(k == Key::Thermo2Ip || field_ok(src, Key::Thermo2Ip));
    assert(k == Key::MinTemp || field_ok(src, Key::MinTemp));
    assert(k == Key::MaxTemp || field_ok(src, Key::MaxTemp));
    assert(k == Key::Duration || field_ok(src, Key::Duration));
    assert(k == Key::ThermostatEnabled || field_ok(src, Key::ThermostatEnabled));
}

} // verus!
