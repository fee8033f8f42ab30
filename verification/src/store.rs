//! The stored form of the registry: a length-prefixed binary encoding of
//! the records and the schema version.

use vstd::prelude::*;
use vstd::string::StringExecFns;
use crate::plugin::{Plugin, PluginView};
use crate::text::{copy_texts, decimal, decimal_text, texts};

verus! {

/// The fields of a record in the order in which they are stored.
pub type Fields = (
    String,
    String,
    Vec<String>,
    Vec<String>,
    String,
    String,
    String,
    Vec<String>,
);

/// A stored entry: the key and the record's fields.
pub type Row = (String, Fields);

/// The most that a stored registry may claim while it is read.
pub const STORE_LIMIT: usize = 1073741824;

/// Why a stored registry could not be read or written.
#[derive(Debug, Clone, Copy, PartialEq, Eq, Structural)]
pub enum StoreError {
    /// The bytes are no stored registry.
    Corrupt,
    /// The registry was written under another schema version.
    VersionMismatch { expected: u32, actual: u32 },
    /// The registry could not be encoded.
    Unwritable,
}

/// The text of a store error.
pub open spec fn store_message(e: StoreError) -> Seq<char> {
    match e {
        StoreError::Corrupt => "Failed to deserialize plugin database"@,
        StoreError::VersionMismatch { expected, actual } => "插件数据库版本不匹配。期望 "@
            + decimal(expected as nat) + ", 实际 "@ + decimal(actual as nat),
        StoreError::Unwritable => "Failed to serialize plugin database"@,
    }
}

impl StoreError {
    /// The message shown for this error; a version mismatch names the
    /// version that was expected and the one that was found.
    pub fn message(&self) -> (r: String)
        ensures
            r@ == store_message(*self),
    {
        match self {
            StoreError::Corrupt => String::from_str("Failed to deserialize plugin database"),
            StoreError::VersionMismatch { expected, actual } => {
                let mut out = String::from_str("插件数据库版本不匹配。期望 ");
                out.append(decimal_text(*expected as u64).as_str());
                out.append(", 实际 ");
                out.append(decimal_text(*actual as u64).as_str());
                out
            },
            StoreError::Unwritable => String::from_str("Failed to serialize plugin database"),
        }
    }
}

/// The key and the record that a stored entry holds.
pub open spec fn row_view(row: Row) -> (Seq<char>, PluginView) {
    (
        row.0@,
        PluginView {
            name: row.1.0@,
            executor: row.1.1@,
            arg_template: texts(row.1.2@),
            extensions: texts(row.1.3@),
            description: row.1.4@,
            author: row.1.5@,
            version: row.1.6@,
            requires: texts(row.1.7@),
        },
    )
}

/// The keys and records of a list of stored entries, in order.
pub open spec fn row_views(rows: Seq<Row>) -> Seq<(Seq<char>, PluginView)> {
    Seq::new(rows.len(), |i: int| row_view(rows[i]))
}

/// What `bincode::encode_to_vec` makes of these entries and this version
/// under the standard configuration: the bytes, or `None` for an encoding
/// error.
pub uninterp spec fn store_bytes(rows: Seq<(Seq<char>, PluginView)>, version: u32) -> Option<
    Seq<u8>,
>;

/// What `bincode::decode_from_slice` makes of these bytes under the
/// standard configuration, limited to `STORE_LIMIT`: the entries and the
/// version, or `None` for a decoding error.
pub uninterp spec fn store_contents(bytes: Seq<u8>) -> Option<
    (Seq<(Seq<char>, PluginView)>, u32),
>;

/// Encodes with `bincode::encode_to_vec` under the standard configuration:
/// the number of entries, each entry as its key and its eight fields, then
/// the version. The result is a function of the entries and the version;
/// `None` stands for an encoding error.
#[verifier::external_body]
pub(crate) fn encode_rows(rows: &Vec<Row>, version: u32) -> (r: Option<Vec<u8>>)
    ensures
        match r {
            Some(bytes) => store_bytes(row_views(rows@), version) == Some(bytes@),
            None => store_bytes(row_views(rows@), version) is None,
        },
{
    bincode::encode_to_vec((rows, version), bincode::config::standard()).ok()
}

/// Decodes with `bincode::decode_from_slice` under the standard
/// configuration, limited to `STORE_LIMIT` claimed bytes so that a length
/// prefix cannot ask for more memory than that. Bytes after the encoded
/// value are ignored. The result is a function of the bytes; `None` stands
/// for a decoding error.
#[verifier::external_body]
pub(crate) fn decode_rows(bytes: &[u8]) -> (r: Option<(Vec<Row>, u32)>)
    ensures
        match r {
            Some(found) => store_contents(bytes@) == Some((row_views(found.0@), found.1)),
            None => store_contents(bytes@) is None,
        },
{
    let config = bincode::config::standard().with_limit::<STORE_LIMIT>();
    let decoded: Result<((Vec<Row>, u32), usize), _> = bincode::decode_from_slice(bytes, config);
    decoded.ok().map(|found| found.0)
}

/// The stored entry of a record: its name as the key, and its fields.
pub fn row_of(plugin: &Plugin) -> (r: Row)
    ensures
        row_view(r) == (plugin@.name, plugin@),
{
    (
        plugin.name.clone(),
        (
            plugin.name.clone(),
            plugin.executor.clone(),
            copy_texts(&plugin.arg_template),
            copy_texts(&plugin.extensions),
            plugin.description.clone(),
            plugin.author.clone(),
            plugin.version.clone(),
            copy_texts(&plugin.requires),
        ),
    )
}

/// The key and the record of a stored entry.
pub fn plugin_of(row: &Row) -> (r: (String, Plugin))
    ensures
        (r.0@, r.1@) == row_view(*row),
{
    (
        row.0.clone(),
        Plugin {
            name: row.1.0.clone(),
            executor: row.1.1.clone(),
            arg_template: copy_texts(&row.1.2),
            extensions: copy_texts(&row.1.3),
            description: row.1.4.clone(),
            author: row.1.5.clone(),
            version: row.1.6.clone(),
            requires: copy_texts(&row.1.7),
        },
    )
}

} // verus!
