//! The restore of a launch: from the persisted size record and the template to
//! the window configuration.

use vstd::prelude::*;
use crate::config::{parse_window_config, reported};
use crate::error::ConfigError;
use crate::patch::{patch_template, patched};
use crate::record::{extract_size, is_record_of, lemma_record_round_trip, size_of, Stored};
use crate::size::is_number;
use tauri_utils::config::WindowConfig;

verus! {

/// The text that a launch parses. Without a persisted record it is the
/// template itself. With a record that states a size it is the template with
/// that size written over its size pair. A record that states no size is
/// malformed, and there is no text.
pub open spec fn restored_text(record: Option<&Stored>, template: Seq<u8>) -> Result<
    Seq<u8>,
    ConfigError,
> {
    match record {
        None => Ok(template),
        Some(stored) => match size_of(*stored) {
            Some((width, height)) => Ok(patched(template, width, height)),
            None => Err(ConfigError::MalformedSizeRecord),
        },
    }
}

/// Makes the text that a launch parses from the persisted record, if there is
/// one, and the template.
pub fn restore_text(record: Option<&Stored>, template: &[u8]) -> (r: Result<Vec<u8>, ConfigError>)
    ensures
        match restored_text(record, template@) {
            Ok(text) => r matches Ok(out) && out@ == text,
            Err(error) => r == Err::<Vec<u8>, ConfigError>(error),
        },
{
    match record {
        None => {
            let mut out: Vec<u8> = Vec::new();
            out.extend_from_slice(template);
            assert(out@ =~= template@);
            Ok(out)
        },
        Some(stored) => {
            match extract_size(stored) {
                Ok(size) => Ok(patch_template(template, &size)),
                Err(error) => Err(error),
            }
        },
    }
}

/// Restores the window configuration of a launch: makes the text from the
/// persisted record and the template, and parses it where it is admitted to
/// the parser. A malformed record is reported before anything is parsed.
pub fn restore_window_config(record: Option<&Stored>, template: &[u8]) -> (r: Result<
    WindowConfig,
    ConfigError,
>)
    ensures
        match restored_text(record, template@) {
            Ok(text) => reported(text, r),
            Err(error) => r == Err::<WindowConfig, ConfigError>(error),
        },
{
    match restore_text(record, template) {
        Ok(text) => parse_window_config(text.as_slice()),
        Err(error) => Err(error),
    }
}

/// Without a persisted record the template is parsed as it is: the launch
/// gets the width and height that the template was written with.
pub proof fn lemma_restore_without_record(template: Seq<u8>)
    ensures
        restored_text(None, template) == Ok::<Seq<u8>, ConfigError>(template),
{
}

/// A persisted record that states no size is reported as malformed, whatever
/// the template: no text is made of it, and so no configuration.
pub proof fn lemma_restore_malformed_record(stored: Stored, template: Seq<u8>)
    requires
        size_of(stored) is None,
    ensures
        restored_text(Some(&stored), template) == Err::<Seq<u8>, ConfigError>(
            ConfigError::MalformedSizeRecord,
        ),
{
}

/// A resize is restored: with the record that was persisted for a size, the
/// text of the next launch is the template patched with that size.
pub proof fn lemma_restore_after_resize(
    record: Stored,
    width: Seq<u8>,
    height: Seq<u8>,
    template: Seq<u8>,
)
    requires
        is_record_of(record, width, height),
        is_number(width),
        is_number(height),
    ensures
        restored_text(Some(&record), template) == Ok::<Seq<u8>, ConfigError>(
            patched(template, width, height),
        ),
{
    lemma_record_round_trip(record, width, height);
}

} // verus!
