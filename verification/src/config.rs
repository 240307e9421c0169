//! The configuration the gateway is started with: the allow-lists of
//! producers and objects, and the schema table.

use vstd::prelude::*;
use vstd::string::*;
use crate::dispatch::Gateway;
use crate::bytes::texts;
use crate::key::{accepts, KeyGrammar};
use crate::schema::{sound_table, table_view, SchemaEntry, SchemaRegistry};

verus! {

/// The producers that may write.
pub open spec fn standard_producers() -> Seq<Seq<char>> {
    seq!["DiskUsage"@, "ModemWatcher"@, "Psmon"@, "SerialPort"@]
}

/// The objects a producer may write.
pub open spec fn standard_objects() -> Seq<Seq<char>> {
    seq!["object1"@, "object2"@]
}

/// The schema of a disk usage record.
pub open spec fn disk_usage_schema() -> Seq<char> {
    "{\"type\":\"object\",\"properties\":{\"version\":{\"type\":\"number\"},\"disk\":{\"type\":\"string\"},\"usage\":{\"type\":\"number\"}},\"required\":[\"version\",\"disk\",\"usage\"]}"@
}

/// The schema of a modem status record.
pub open spec fn modem_status_schema() -> Seq<char> {
    "{\"type\":\"object\",\"properties\":{\"version\":{\"type\":\"number\"},\"status\":{\"type\":\"string\"},\"signal_strength\":{\"type\":\"integer\"}},\"required\":[\"version\",\"status\",\"signal_strength\"]}"@
}

/// The key grammar over the standard allow-lists.
pub fn generate_key_pattern() -> (grammar: KeyGrammar)
    ensures
        texts(grammar.producers@) == standard_producers(),
        texts(grammar.objects@) == standard_objects(),
{
    let producers = vec![
        "DiskUsage".to_owned(),
        "ModemWatcher".to_owned(),
        "Psmon".to_owned(),
        "SerialPort".to_owned(),
    ];
    let objects = vec!["object1".to_owned(), "object2".to_owned()];
    proof {
        assert(texts(producers@) =~= standard_producers());
        assert(texts(objects@) =~= standard_objects());
    }
    KeyGrammar::new(producers, objects)
}

/// Tests whether `key` matches the grammar over the standard allow-lists.
pub fn is_valid_key(key: &str) -> (b: bool)
    ensures
        b == accepts(standard_producers(), standard_objects(), key@),
{
    generate_key_pattern().is_valid(key)
}

/// The lines of the standard schema table.
pub open spec fn standard_table() -> Seq<(Seq<char>, Seq<char>)> {
    seq![
        ("cs:DiskUsage:object1"@, disk_usage_schema()),
        ("cs:ModemWatcher:object2"@, modem_status_schema()),
    ]
}

/// The standard schema table, every line tried once: `None` where the
/// table cannot be used.
pub fn standard_schemas() -> (registry: Option<SchemaRegistry>)
    ensures
        registry is Some <==> sound_table(standard_table()),
        registry matches Some(r) ==> r@ == standard_table(),
{
    let entries = vec![
        SchemaEntry {
            base_key: "cs:DiskUsage:object1".to_owned(),
            schema: "{\"type\":\"object\",\"properties\":{\"version\":{\"type\":\"number\"},\"disk\":{\"type\":\"string\"},\"usage\":{\"type\":\"number\"}},\"required\":[\"version\",\"disk\",\"usage\"]}".to_owned(),
        },
        SchemaEntry {
            base_key: "cs:ModemWatcher:object2".to_owned(),
            schema: "{\"type\":\"object\",\"properties\":{\"version\":{\"type\":\"number\"},\"status\":{\"type\":\"string\"},\"signal_strength\":{\"type\":\"integer\"}},\"required\":[\"version\",\"status\",\"signal_strength\"]}".to_owned(),
        },
    ];
    proof {
        assert(table_view(entries@) =~= standard_table());
    }
    SchemaRegistry::new(entries)
}

/// The gateway over the standard configuration: `None` where the schema
/// table cannot be used.
pub fn standard_gateway() -> (gateway: Option<Gateway>)
    ensures
        gateway is Some <==> sound_table(standard_table()),
        gateway matches Some(g) ==> {
            &&& texts(g.grammar.producers@) == standard_producers()
            &&& texts(g.grammar.objects@) == standard_objects()
            &&& g.schemas@ == standard_table()
        },
{
    match standard_schemas() {
        None => None,
        Some(schemas) => Some(Gateway { grammar: generate_key_pattern(), schemas }),
    }
}

} // verus!
