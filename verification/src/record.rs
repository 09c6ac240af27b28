//! One record to keep: where it is kept, how the address is found out, and
//! what to run after it changed.

use crate::config::{get_text, toml_view, ConfigError, TomlView};
use crate::function::{create, registrar_of, Registrar, RegistrarView};
use vstd::prelude::*;

verus! {

/// The description of one record. It is made once and never changed.
#[derive(Clone, Debug)]
pub struct RecordSpec {
    /// The registrar that keeps the record, with all it needs to be asked.
    pub registrar: Registrar,
    /// The command that prints the address to keep.
    pub ip_address_from_cmd: String,
    /// Commands to run after the record changed, if any.
    pub ip_address_on_update_cmd: Option<String>,
}

/// A `RecordSpec` with its texts as characters.
pub struct RecordSpecView {
    pub registrar: RegistrarView,
    pub ip_address_from_cmd: Seq<char>,
    pub ip_address_on_update_cmd: Option<Seq<char>>,
}

impl View for RecordSpec {
    type V = RecordSpecView;

    open spec fn view(&self) -> RecordSpecView {
        RecordSpecView {
            registrar: self.registrar@,
            ip_address_from_cmd: self.ip_address_from_cmd@,
            ip_address_on_update_cmd: match self.ip_address_on_update_cmd {
                Some(t) => Some(t@),
                None => None,
            },
        }
    }
}

/// The record that a configured record describes, or why there is none: the
/// registrar's reason where the registrar cannot be made, and else a missing
/// command where no text stands under `ip_address_from_cmd`. The commands to
/// run after a change are the text under `ip_address_on_update_cmd`, if one
/// stands there.
pub open spec fn record_of(c: TomlView) -> Result<RecordSpecView, ConfigError> {
    match registrar_of(c) {
        Err(e) => Err(e),
        Ok(registrar) => match c.text_under("ip_address_from_cmd"@) {
            None => Err(ConfigError::MissingCommand),
            Some(command) => Ok(
                RecordSpecView {
                    registrar,
                    ip_address_from_cmd: command,
                    ip_address_on_update_cmd: c.text_under("ip_address_on_update_cmd"@),
                },
            ),
        },
    }
}

/// The view of a result that holds a record.
pub open spec fn record_view(result: Result<RecordSpec, ConfigError>) -> Result<
    RecordSpecView,
    ConfigError,
> {
    match result {
        Ok(record) => Ok(record@),
        Err(e) => Err(e),
    }
}

impl RecordSpec {
    /// Makes the record that a configured record describes.
    pub fn from_config(c: &toml::Value) -> (made: Result<RecordSpec, ConfigError>)
        ensures
            record_view(made) == record_of(toml_view(*c)),
    {
        let registrar = match create(c) {
            Ok(registrar) => registrar,
            Err(e) => {
                return Err(e);
            },
        };
        let command = match get_text(c, "ip_address_from_cmd") {
            Some(command) => command,
            None => {
                return Err(ConfigError::MissingCommand);
            },
        };
        let on_update = get_text(c, "ip_address_on_update_cmd");
        Ok(
            RecordSpec {
                registrar,
                ip_address_from_cmd: command,
                ip_address_on_update_cmd: on_update,
            },
        )
    }
}

} // verus!
