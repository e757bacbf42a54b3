//! Server settings: string values looked up by key in the key/value pairs
//! read from the configuration file. A missing key reads as the empty string.
use vstd::hash_map::StringHashMap;
use vstd::prelude::*;

verus! {

/// Key/value pairs of a configuration.
pub struct ConfigMap {
    entries: StringHashMap<String>,
}

impl View for ConfigMap {
    type V = Map<Seq<char>, String>;

    closed spec fn view(&self) -> Map<Seq<char>, String> {
        self.entries@
    }
}

impl ConfigMap {
    pub fn new() -> (r: ConfigMap)
        ensures
            r@ == Map::<Seq<char>, String>::empty(),
    {
        ConfigMap { entries: StringHashMap::new() }
    }

    /// Sets `key` to `value`, replacing any earlier value.
    pub fn insert(&mut self, key: String, value: String)
        ensures
            final(self)@ == old(self)@.insert(key@, value),
    {
        self.entries.insert(key, value);
    }
}

/// The value of `key` in `dict`, or the empty string.
pub open spec fn value_of(dict: Map<Seq<char>, String>, key: Seq<char>) -> Seq<char> {
    if dict.contains_key(key) {
        dict[key]@
    } else {
        Seq::empty()
    }
}

/// The settings the server reads at startup.
pub struct Settings {
    pub host: String,
    pub port: String,
    pub client_max: String,
    pub buffer_size1: String,
    pub buffer_size2: String,
    pub party_name: String,
}

impl Settings {
    /// The value of `key`, or the empty string when the key is missing.
    pub fn get_configuration_value(dict: &ConfigMap, key: &str) -> (r: String)
        ensures
            r@ == value_of(dict@, key@),
    {
        match dict.entries.get(key) {
            Some(value) => value.clone(),
            None => String::new(),
        }
    }

    /// Reads each setting under its own name.
    pub fn from_map(dict: &ConfigMap) -> (r: Settings)
        ensures
            r.host@ == value_of(dict@, "host"@),
            r.port@ == value_of(dict@, "port"@),
            r.client_max@ == value_of(dict@, "client_max"@),
            r.buffer_size1@ == value_of(dict@, "buffer_size1"@),
            r.buffer_size2@ == value_of(dict@, "buffer_size2"@),
            r.party_name@ == value_of(dict@, "party_name"@),
    {
        Settings {
            host: Settings::get_configuration_value(dict, "host"),
            port: Settings::get_configuration_value(dict, "port"),
            client_max: Settings::get_configuration_value(dict, "client_max"),
            buffer_size1: Settings::get_configuration_value(dict, "buffer_size1"),
            buffer_size2: Settings::get_configuration_value(dict, "buffer_size2"),
            party_name: Settings::get_configuration_value(dict, "party_name"),
        }
    }
}

} // verus!
