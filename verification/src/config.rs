//! Parsing the text of a window configuration.
//!
//! The parsing itself is `serde_json`'s, into the window configuration of
//! `tauri_utils`. Nothing of it is proved here: what this module states of it
//! is taken from those crates.

use vstd::prelude::*;
use crate::error::ConfigError;
use crate::colour::{admitted, is_admitted};
use tauri_utils::config::WindowConfig;

verus! {

/// The window configuration of `tauri_utils`. A value of it is carried from
/// the parser to the caller; nothing in this library looks into it.
#[verifier::external_type_specification]
#[verifier::external_body]
pub struct ExWindowConfig(tauri_utils::config::WindowConfig);

/// The error of `serde_json`. It is read only for its message.
#[verifier::external_type_specification]
#[verifier::external_body]
pub struct ExJsonError(serde_json::Error);

/// What is reported, in place of a parse, for a text that is not admitted.
pub const NOT_ADMITTED: &'static str =
    "a colour of the configuration cannot be read: it would be cut inside a character";

/// What `serde_json` makes of the bytes `text` when it is asked for a window
/// configuration: the configuration, where the bytes are one JSON value, with
/// nothing but white space behind it, that `WindowConfig`'s `Deserialize`
/// takes; else the error that says what was found, and where.
pub uninterp spec fn parsed_window_config(text: Seq<u8>) -> Result<WindowConfig, serde_json::Error>;

/// `serde_json::from_slice`, asked for a `WindowConfig`. All that is claimed of
/// it is that, on an admitted text, it returns, and that its result depends on
/// the bytes alone; which bytes it accepts, and what it makes of them, is left
/// to `serde_json` and `tauri_utils`. Texts that are not admitted are left
/// out: in each of them a string stands where `tauri_utils` reads a colour,
/// and reading it would stop the program, because the colour's text is cut
/// inside a character.
#[verifier::external_body]
fn json_to_window_config(window_json: &[u8]) -> (r: Result<WindowConfig, serde_json::Error>)
    requires
        admitted(window_json@),
    ensures
        r == parsed_window_config(window_json@),
{
    serde_json::from_slice(window_json)
}

/// What is reported for the outcome `parsed` of the parser: its configuration
/// as it is, or else a parse error that carries the message of the parser's
/// error.
pub open spec fn outcome_is(
    parsed: Result<WindowConfig, serde_json::Error>,
    r: Result<WindowConfig, ConfigError>,
) -> bool {
    match parsed {
        Ok(config) => r == Ok::<WindowConfig, ConfigError>(config),
        Err(error) => r matches Err(ConfigError::ConfigParseError(message))
            && vstd::string::to_string_from_display_ensures(&error, message),
    }
}

/// Reports the outcome `parsed` of the parser: hands its configuration on, or
/// turns its error into a parse error with the same message.
pub fn parse_outcome(parsed: Result<WindowConfig, serde_json::Error>) -> (r: Result<
    WindowConfig,
    ConfigError,
>)
    ensures
        outcome_is(parsed, r),
{
    match parsed {
        Ok(config) => Ok(config),
        Err(error) => Err(ConfigError::ConfigParseError(error.to_string())),
    }
}

/// Whether `r` is what is reported for `text`: for an admitted text the
/// outcome of the parser, and for any other a parse error with the message
/// `NOT_ADMITTED`, without a parse.
pub open spec fn reported(text: Seq<u8>, r: Result<WindowConfig, ConfigError>) -> bool {
    if admitted(text) {
        outcome_is(parsed_window_config(text), r)
    } else {
        r matches Err(ConfigError::ConfigParseError(message)) && message@ == NOT_ADMITTED@
    }
}

/// Parses the text of a window configuration, if it is admitted to the
/// parser; a text that is not admitted is reported as a parse error.
pub fn parse_window_config(text: &[u8]) -> (r: Result<WindowConfig, ConfigError>)
    ensures
        reported(text@, r),
{
    if is_admitted(text) {
        parse_outcome(json_to_window_config(text))
    } else {
        Err(ConfigError::ConfigParseError(NOT_ADMITTED.to_owned()))
    }
}

} // verus!
