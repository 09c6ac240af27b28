//! What the operator configures: settings for the whole program and one
//! entry for each record that is to be kept.
//!
//! An entry is kept as `toml` read it. `TomlView` models what such a value
//! holds, and every call into `toml` that the library makes stands in this
//! file, with what it does stated over that model.

use crate::text::text_view;
use vstd::prelude::*;

verus! {

// ---------------------------------------------------------------------------
// What a configured value holds
// ---------------------------------------------------------------------------

/// What a configured value holds, as far as the program reads it.
pub enum TomlView {
    Text(Seq<char>),
    Integer(i64),
    Flag(bool),
    List(Seq<TomlView>),
    Table(Map<Seq<char>, TomlView>),
    /// A number with a fraction, or a date or time.
    Other,
}

impl TomlView {
    /// The entry of a table under a key; `None` where the value is no table
    /// or the table has no such entry.
    pub open spec fn entry(self, key: Seq<char>) -> Option<TomlView> {
        match self {
            TomlView::Table(entries) => if entries.contains_key(key) {
                Some(entries[key])
            } else {
                None
            },
            _ => None,
        }
    }

    /// The text that a value is; `None` where it is none.
    pub open spec fn text(self) -> Option<Seq<char>> {
        match self {
            TomlView::Text(t) => Some(t),
            _ => None,
        }
    }

    /// The whole number that a value is; `None` where it is none.
    pub open spec fn integer(self) -> Option<i64> {
        match self {
            TomlView::Integer(n) => Some(n),
            _ => None,
        }
    }

    /// The flag that a value is; `None` where it is none.
    pub open spec fn flag(self) -> Option<bool> {
        match self {
            TomlView::Flag(b) => Some(b),
            _ => None,
        }
    }

    /// The text under a key of a table; `None` where nothing or something
    /// else is there.
    pub open spec fn text_under(self, key: Seq<char>) -> Option<Seq<char>> {
        match self.entry(key) {
            Some(e) => e.text(),
            None => None,
        }
    }

    /// The whole number under a key of a table; `None` where nothing or
    /// something else is there.
    pub open spec fn integer_under(self, key: Seq<char>) -> Option<i64> {
        match self.entry(key) {
            Some(e) => e.integer(),
            None => None,
        }
    }

    /// The flag under a key of a table; `None` where nothing or something
    /// else is there.
    pub open spec fn flag_under(self, key: Seq<char>) -> Option<bool> {
        match self.entry(key) {
            Some(e) => e.flag(),
            None => None,
        }
    }
}

// ---------------------------------------------------------------------------
// What `toml` holds and does
// ---------------------------------------------------------------------------

/// A configured value, as `toml` holds it.
#[verifier::external_type_specification]
#[verifier::external_body]
pub struct ExTomlValue(toml::Value);

/// What a `toml::Value` holds.
pub uninterp spec fn toml_view(value: toml::Value) -> TomlView;

/// `Value::get` with a string: the entry of a table under `key`, and nothing
/// where the value is no table or has no such entry.
#[verifier::external_body]
pub(crate) fn entry<'a>(value: &'a toml::Value, key: &str) -> (found: Option<&'a toml::Value>)
    ensures
        found matches Some(e) ==> toml_view(*value).entry(key@) == Some(toml_view(*e)),
        found is None ==> toml_view(*value).entry(key@) is None,
{
    value.get(key)
}

/// `Value::as_str`: the text that the value is.
#[verifier::external_body]
pub(crate) fn as_text<'a>(value: &'a toml::Value) -> (found: Option<&'a str>)
    ensures
        found matches Some(t) ==> toml_view(*value).text() == Some(t@),
        found is None ==> toml_view(*value).text() is None,
{
    value.as_str()
}

/// `Value::as_integer`: the whole number that the value is.
#[verifier::external_body]
pub(crate) fn as_integer(value: &toml::Value) -> (found: Option<i64>)
    ensures
        found == toml_view(*value).integer(),
{
    value.as_integer()
}

/// `Value::as_bool`: the flag that the value is.
#[verifier::external_body]
pub(crate) fn as_flag(value: &toml::Value) -> (found: Option<bool>)
    ensures
        found == toml_view(*value).flag(),
{
    value.as_bool()
}

// ---------------------------------------------------------------------------
// The configuration
// ---------------------------------------------------------------------------

/// Settings that hold for the whole program.
#[derive(Clone, Debug)]
pub struct Global {
    pub api_version: String,
    /// How many seconds to wait for the network before anything is done.
    pub post_up_wait: u64,
    /// Commands to run once the wait is over, with `;` between them.
    pub post_up_cmd: String,
}

/// The whole configuration: the settings of the program, and one table for
/// each record. Of such a table the program reads the name of the registrar
/// under `domain_registrar`, the registrar's parameters under `api_param`,
/// the command that prints the address under `ip_address_from_cmd`, and the
/// commands to run after a change under `ip_address_on_update_cmd`.
#[derive(Clone, Debug)]
pub struct Config {
    pub global: Global,
    pub record: Vec<toml::Value>,
}

/// What the environment holds under the name `DDK_CONFIG`.
#[derive(Clone, Debug)]
pub enum Setting {
    /// This text.
    Present(String),
    /// Nothing.
    Absent,
    /// Something that is no text.
    Unreadable,
}

/// The path of the file that holds the configuration: the one that the
/// environment names, or, where it names none, the one chosen on the command
/// line. An environment that cannot be read yields the empty path, at which
/// no file is found.
pub open spec fn config_path_of(setting: Setting, chosen: Seq<char>) -> Seq<char> {
    match setting {
        Setting::Present(path) => path@,
        Setting::Absent => chosen,
        Setting::Unreadable => Seq::empty(),
    }
}

/// The path of the file that holds the configuration.
pub fn config_path(setting: Setting, chosen: String) -> (path: String)
    ensures
        path@ == config_path_of(setting, chosen@),
{
    match setting {
        Setting::Present(path) => path,
        Setting::Absent => chosen,
        Setting::Unreadable => String::new(),
    }
}

/// Why a configured record cannot be kept.
#[derive(Clone, Copy, Debug, PartialEq, Eq, Structural)]
pub enum ConfigError {
    /// The record names no registrar.
    MissingRegistrar,
    /// The record names a registrar that is not known.
    UnknownRegistrar,
    /// A parameter that the registrar needs is not there or is of the wrong
    /// kind.
    InvalidParameter,
    /// The record has no command that prints the address.
    MissingCommand,
}

/// The text under `key` of a table.
pub fn get_text(table: &toml::Value, key: &str) -> (found: Option<String>)
    ensures
        text_view(found) == toml_view(*table).text_under(key@),
{
    match entry(table, key) {
        Some(e) => match as_text(e) {
            Some(t) => Some(t.to_owned()),
            None => None,
        },
        None => None,
    }
}

/// The whole number under `key` of a table.
pub fn get_integer(table: &toml::Value, key: &str) -> (found: Option<i64>)
    ensures
        found == toml_view(*table).integer_under(key@),
{
    match entry(table, key) {
        Some(e) => as_integer(e),
        None => None,
    }
}

/// The flag under `key` of a table.
pub fn get_flag(table: &toml::Value, key: &str) -> (found: Option<bool>)
    ensures
        found == toml_view(*table).flag_under(key@),
{
    match entry(table, key) {
        Some(e) => as_flag(e),
        None => None,
    }
}

} // verus!
