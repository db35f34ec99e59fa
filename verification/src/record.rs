//! The persisted size record: what the store holds under the size's key.

use vstd::prelude::*;
use crate::error::ConfigError;
use crate::size::{check_number, is_number, WindowSize};
use vstd::slice::slice_to_vec;

verus! {

/// The key under which the size record is persisted.
pub const SIZE_KEY: &'static str = "window_size";

/// A value as the persisted store holds it.
#[derive(Debug, PartialEq, Eq)]
pub enum Stored {
    Null,
    Flag(bool),
    /// A number, as the text that the store renders it with: `1024`,
    /// `1024.5`, `-3`.
    Number(Vec<u8>),
    Text(String),
    List(Vec<Stored>),
    /// A record of named fields, in the order in which they were stored.
    Fields(Vec<(String, Stored)>),
}

/// Whether the field at index `at` is the first of `fields` that is named `name`.
pub open spec fn first_named(fields: Seq<(String, Stored)>, name: Seq<char>, at: int) -> bool {
    &&& 0 <= at < fields.len()
    &&& fields[at].0@ == name
    &&& forall|before: int| 0 <= before < at ==> (#[trigger] fields[before]).0@ != name
}

/// What the first field named `name` holds, if there is such a field.
pub open spec fn field(fields: Seq<(String, Stored)>, name: Seq<char>) -> Option<Stored> {
    if exists|at: int| first_named(fields, name, at) {
        Some(fields[choose|at: int| first_named(fields, name, at)].1)
    } else {
        None
    }
}

/// The size that `record` states, as the texts of its width and its height:
/// it is a record of fields, and its `width` and its `height` each hold a
/// number that is not negative.
pub open spec fn size_of(record: Stored) -> Option<(Seq<u8>, Seq<u8>)> {
    match record {
        Stored::Fields(fields) => match (field(fields@, "width"@), field(fields@, "height"@)) {
            (Some(Stored::Number(width)), Some(Stored::Number(height))) => if is_number(width@)
                && is_number(height@) {
                Some((width@, height@))
            } else {
                None
            },
            _ => None,
        },
        _ => None,
    }
}

/// What the first field named `name` holds, if there is such a field.
pub fn lookup<'a>(fields: &'a Vec<(String, Stored)>, name: &str) -> (r: Option<&'a Stored>)
    ensures
        match r {
            Some(value) => field(fields@, name@) == Some(*value),
            None => field(fields@, name@) is None,
        },
{
    let wanted: String = name.to_owned();
    let mut at: usize = 0;
    while at < fields.len()
        invariant
            at <= fields.len(),
            wanted@ == name@,
            forall|before: int| 0 <= before < at ==> (#[trigger] fields@[before]).0@ != name@,
        decreases fields.len() - at,
    {
        if fields[at].0 == wanted {
            proof {
                lemma_field(fields@, name@, at as int);
            }
            return Some(&fields[at].1);
        }
        at += 1;
    }
    assert forall|i: int| !first_named(fields@, name@, i) by {}
    None
}

/// The first field of a name is the one that `field` reads.
pub proof fn lemma_field(fields: Seq<(String, Stored)>, name: Seq<char>, at: int)
    requires
        first_named(fields, name, at),
    ensures
        field(fields, name) == Some(fields[at].1),
{
    let chosen = choose|at: int| first_named(fields, name, at);
    assert(first_named(fields, name, chosen));
    if chosen < at {
        assert(fields[chosen].0@ != name);
    } else if at < chosen {
        assert(fields[at].0@ != name);
    }
}

/// Reads the size that `record` states. A record that states none is malformed.
pub fn extract_size(record: &Stored) -> (r: Result<WindowSize, ConfigError>)
    ensures
        match size_of(*record) {
            Some((width, height)) => r matches Ok(size) && size.width@ == width && size.height@
                == height,
            None => r == Err::<WindowSize, ConfigError>(ConfigError::MalformedSizeRecord),
        },
{
    match record {
        Stored::Fields(fields) => {
            match (lookup(fields, "width"), lookup(fields, "height")) {
                (Some(Stored::Number(width)), Some(Stored::Number(height))) => {
                    if check_number(width.as_slice()) && check_number(height.as_slice()) {
                        Ok(
                            WindowSize {
                                width: slice_to_vec(width.as_slice()),
                                height: slice_to_vec(height.as_slice()),
                            },
                        )
                    } else {
                        Err(ConfigError::MalformedSizeRecord)
                    }
                },
                _ => Err(ConfigError::MalformedSizeRecord),
            }
        },
        _ => Err(ConfigError::MalformedSizeRecord),
    }
}

/// Whether `record` is what is persisted for a size with the texts `width`
/// and `height`: the fields `width` and `height`, in this order, each with
/// its number.
pub open spec fn is_record_of(record: Stored, width: Seq<u8>, height: Seq<u8>) -> bool {
    &&& record matches Stored::Fields(fields)
    &&& fields@.len() == 2
    &&& fields@[0].0@ == "width"@
    &&& fields@[0].1 matches Stored::Number(wide)
    &&& wide@ == width
    &&& fields@[1].0@ == "height"@
    &&& fields@[1].1 matches Stored::Number(high)
    &&& high@ == height
}

/// The record to persist when the window has been resized to `size`.
pub fn size_record(size: &WindowSize) -> (record: Stored)
    ensures
        is_record_of(record, size.width@, size.height@),
{
    let mut fields: Vec<(String, Stored)> = Vec::new();
    fields.push(("width".to_owned(), Stored::Number(slice_to_vec(size.width.as_slice()))));
    fields.push(("height".to_owned(), Stored::Number(slice_to_vec(size.height.as_slice()))));
    Stored::Fields(fields)
}

/// A size that was persisted is read back as it was: the record that is
/// persisted for a size states that size.
pub proof fn lemma_record_round_trip(record: Stored, width: Seq<u8>, height: Seq<u8>)
    requires
        is_record_of(record, width, height),
        is_number(width),
        is_number(height),
    ensures
        size_of(record) == Some((width, height)),
{
    reveal_strlit("width");
    reveal_strlit("height");
    let fields = record->Fields_0@;
    assert("width"@.len() != "height"@.len());
    assert(first_named(fields, "width"@, 0));
    assert(first_named(fields, "height"@, 1));
    lemma_field(fields, "width"@, 0);
    lemma_field(fields, "height"@, 1);
}

} // verus!
