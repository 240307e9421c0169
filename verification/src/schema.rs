//! The schema registry: which schema applies to a key, and the verdict on a
//! value that was checked against it.

use vstd::prelude::*;
use vstd::string::*;
use vstd::utf8::*;
use crate::bytes::{has_at, same_text, text_view, texts};

verus! {

/// The byte that separates the segments of a key.
pub const COLON: u8 = 58;

/// A byte that a reference keyword cannot be written without.
pub const DOLLAR: u8 = 36;

/// The byte that begins an escape in JSON text.
pub const BACKSLASH: u8 = 92;

/// A schema text that refers to no other schema: every keyword that does
/// begins with a dollar sign, which JSON text writes as that byte or as an
/// escape.
pub open spec fn reference_free(schema: Seq<u8>) -> bool {
    forall|i: int| 0 <= i < schema.len() ==> #[trigger] schema[i] != DOLLAR && schema[i] != BACKSLASH
}

/// Tests whether a schema text refers to no other schema.
pub fn is_reference_free(schema: &[u8]) -> (b: bool)
    ensures
        b == reference_free(schema@),
{
    let mut i: usize = 0;
    while i < schema.len()
        invariant
            i <= schema.len(),
            forall|k: int| 0 <= k < i ==> #[trigger] schema@[k] != DOLLAR && schema@[k] != BACKSLASH,
        decreases schema.len() - i,
    {
        if schema[i] == DOLLAR || schema[i] == BACKSLASH {
            return false;
        }
        i += 1;
    }
    true
}

/// Why a schema text cannot be used: the text of the error that parsing or
/// compiling it gives, `None` where it compiles.
pub uninterp spec fn schema_fault(schema: Seq<char>) -> Option<Seq<char>>;

/// What checking the JSON text `value` against a schema that compiles
/// reports: the violations found, each with the place in the value and the
/// validator's text, in the validator's order; or the error of a value that
/// is no JSON.
pub uninterp spec fn schema_report(schema: Seq<char>, value: Seq<char>) -> Result<
    Seq<(Seq<char>, Seq<char>)>,
    Seq<char>,
>;

/// One violation: the place in the value, as a JSON pointer (empty for the
/// value itself), and what the validator says of it.
pub struct Violation {
    pub path: String,
    pub text: String,
}

impl View for Violation {
    type V = (Seq<char>, Seq<char>);

    open spec fn view(&self) -> (Seq<char>, Seq<char>) {
        (self.path@, self.text@)
    }
}

/// The views of a list of violations.
pub open spec fn violations(list: Seq<Violation>) -> Seq<(Seq<char>, Seq<char>)> {
    Seq::new(list.len(), |i: int| list[i]@)
}

/// A report as a mathematical value.
pub open spec fn report_view(report: Result<Vec<Violation>, String>) -> Result<
    Seq<(Seq<char>, Seq<char>)>,
    Seq<char>,
> {
    match report {
        Ok(list) => Ok(violations(list@)),
        Err(reason) => Err(reason@),
    }
}

/// The result of a validation as a mathematical value.
pub open spec fn outcome_view(outcome: Result<(), String>) -> Result<(), Seq<char>> {
    match outcome {
        Ok(_) => Ok(()),
        Err(message) => Err(message@),
    }
}

/// Parses the schema text with `serde_json::from_str` and compiles it with
/// `jsonschema::JSONSchema::compile`. Trusted: the error text, or its
/// absence, is a function of the schema text alone, named `schema_fault`.
#[verifier::external_body]
fn schema_fault_of(schema: &str) -> (fault: Option<String>)
    requires
        reference_free(encode_utf8(schema@)),
    ensures
        text_view(fault) == schema_fault(schema@),
{
    match serde_json::from_str::<serde_json::Value>(schema) {
        Err(e) => Some(e.to_string()),
        Ok(parsed) => jsonschema::JSONSchema::compile(&parsed).err().map(|e| e.to_string()),
    }
}

/// Compiles the schema as `schema_fault_of` does, parses the value with
/// `serde_json::from_str` and runs `JSONSchema::validate` on it. Trusted: for
/// a schema that compiles and refers to no other schema the call returns,
/// and its result is a function of the two texts alone, named
/// `schema_report`: `Err` with the parse error of the value, or `Ok` with the
/// instance path and the text of every violation.
#[verifier::external_body]
fn check_against_schema(schema: &str, value: &str) -> (report: Result<Vec<Violation>, String>)
    requires
        reference_free(encode_utf8(schema@)),
        schema_fault(schema@) is None,
    ensures
        report_view(report) == schema_report(schema@, value@),
{
    let schema = serde_json::from_str::<serde_json::Value>(schema).map_err(|e| e.to_string())?;
    let compiled = jsonschema::JSONSchema::compile(&schema).map_err(|e| e.to_string())?;
    let value = serde_json::from_str::<serde_json::Value>(value).map_err(|e| e.to_string())?;
    let found = match compiled.validate(&value) {
        Ok(()) => Vec::new(),
        Err(errors) => errors.map(
            |e| Violation { path: e.instance_path.to_string(), text: e.to_string() },
        ).collect(),
    };
    Ok(found)
}

/// The message for one violation: the validator's text, preceded by the
/// place in the value where the violation does not concern the value itself.
pub open spec fn message_of(violation: (Seq<char>, Seq<char>)) -> Seq<char> {
    if violation.0.len() == 0 {
        violation.1
    } else {
        violation.0 + ": "@ + violation.1
    }
}

/// The messages for a list of violations.
pub open spec fn messages_of(found: Seq<(Seq<char>, Seq<char>)>) -> Seq<Seq<char>> {
    Seq::new(found.len(), |i: int| message_of(found[i]))
}

/// Builds the message for one violation.
pub fn violation_message(violation: &Violation) -> (message: String)
    ensures
        message@ == message_of(violation@),
{
    if violation.path.as_str().unicode_len() == 0 {
        violation.text.clone()
    } else {
        let mut message = violation.path.clone();
        message.append(": ");
        message.append(violation.text.as_str());
        message
    }
}

/// The messages joined by `", "`.
pub open spec fn joined(messages: Seq<Seq<char>>) -> Seq<char>
    decreases messages.len(),
{
    if messages.len() == 0 {
        Seq::empty()
    } else if messages.len() == 1 {
        messages[0]
    } else {
        joined(messages.drop_last()) + ", "@ + messages.last()
    }
}

/// The verdict on a report: a value passes when it was checked and nothing
/// was found; otherwise the error is the reason why it could not be checked,
/// or the messages of all violations in one text.
pub open spec fn verdict(report: Result<Seq<(Seq<char>, Seq<char>)>, Seq<char>>) -> Result<
    (),
    Seq<char>,
> {
    match report {
        Err(reason) => Err(reason),
        Ok(found) => if found.len() == 0 {
            Ok(())
        } else {
            Err(joined(messages_of(found)))
        },
    }
}

/// Joins the messages by `", "`.
pub fn join_messages(messages: &Vec<String>) -> (text: String)
    ensures
        text@ == joined(texts(messages@)),
{
    let ghost all = texts(messages@);
    let mut text = String::new();
    let mut i: usize = 0;
    while i < messages.len()
        invariant
            i <= messages.len(),
            all == texts(messages@),
            text@ == joined(all.take(i as int)),
        decreases messages.len() - i,
    {
        proof {
            assert(all.take(i + 1).drop_last() =~= all.take(i as int));
            assert(all.take(i + 1).last() == messages[i as int]@);
        }
        if i > 0 {
            text.append(", ");
        }
        text.append(messages[i].as_str());
        proof {
            assert(text@ =~= joined(all.take(i + 1)));
        }
        i += 1;
    }
    proof {
        assert(all.take(i as int) =~= all);
    }
    text
}

/// Turns what the validator reported into the result of the validation.
pub fn validation_outcome(report: Result<Vec<Violation>, String>) -> (outcome: Result<(), String>)
    ensures
        outcome_view(outcome) == verdict(report_view(report)),
{
    match report {
        Err(reason) => Err(reason),
        Ok(found) => {
            if found.len() == 0 {
                return Ok(());
            }
            let mut messages: Vec<String> = Vec::new();
            let mut i: usize = 0;
            while i < found.len()
                invariant
                    i <= found.len(),
                    messages@.len() == i,
                    texts(messages@) == messages_of(violations(found@)).take(i as int),
                decreases found.len() - i,
            {
                let ghost before = messages@;
                messages.push(violation_message(&found[i]));
                proof {
                    let all = messages_of(violations(found@));
                    assert forall|k: int| 0 <= k < i + 1 implies texts(messages@)[k] == all.take(
                        i + 1,
                    )[k] by {
                        if k < i {
                            assert(messages@[k] == before[k]);
                            assert(texts(before)[k] == all.take(i as int)[k]);
                        } else {
                            assert(violations(found@)[k] == found@[k]@);
                        }
                    }
                    assert(texts(messages@) =~= all.take(i + 1));
                }
                i += 1;
            }
            proof {
                let all = messages_of(violations(found@));
                assert(all.take(i as int) =~= all);
            }
            Err(join_messages(&messages))
        },
    }
}

/// Where the base key of `key` ends, scanning from `from` with `colons`
/// separators already seen: before the third separator, or at the end.
pub open spec fn base_end(key: Seq<u8>, from: int, colons: int) -> int
    decreases key.len() - from,
{
    if from < 0 || from >= key.len() {
        key.len() as int
    } else if key[from] == COLON && colons >= 2 {
        from
    } else if key[from] == COLON {
        base_end(key, from + 1, colons + 1)
    } else {
        base_end(key, from + 1, colons)
    }
}

/// The base key: the first three segments of `key`, or all of it where it has fewer.
pub open spec fn base_key(key: Seq<u8>) -> Seq<u8> {
    key.take(base_end(key, 0, 0))
}

/// The length of the base key of `key`.
pub fn base_key_len(key: &[u8]) -> (n: usize)
    ensures
        n == base_end(key@, 0, 0),
        n <= key.len(),
{
    let mut i: usize = 0;
    let mut colons: u8 = 0;
    while i < key.len()
        invariant
            i <= key.len(),
            colons <= 2,
            base_end(key@, 0, 0) == base_end(key@, i as int, colons as int),
        decreases key.len() - i,
    {
        if key[i] == COLON {
            if colons == 2 {
                return i;
            }
            colons += 1;
        }
        i += 1;
    }
    i
}

/// One line of the schema table.
pub struct SchemaEntry {
    pub base_key: String,
    pub schema: String,
}

impl View for SchemaEntry {
    type V = (Seq<char>, Seq<char>);

    open spec fn view(&self) -> (Seq<char>, Seq<char>) {
        (self.base_key@, self.schema@)
    }
}

/// The views of the lines of a table: base key and schema text.
pub open spec fn table_view(entries: Seq<SchemaEntry>) -> Seq<(Seq<char>, Seq<char>)> {
    Seq::new(entries.len(), |i: int| entries[i]@)
}

/// A schema that can be used: it refers to no other schema, and it compiles.
pub open spec fn usable(schema: Seq<char>) -> bool {
    reference_free(encode_utf8(schema)) && schema_fault(schema) is None
}

/// A table that can be used: every schema can, and no base key occurs twice.
pub open spec fn sound_table(table: Seq<(Seq<char>, Seq<char>)>) -> bool {
    &&& forall|i: int| 0 <= i < table.len() ==> usable(#[trigger] table[i].1)
    &&& forall|i: int, j: int|
        0 <= i < j < table.len() ==> (#[trigger] table[i]).0 != (#[trigger] table[j]).0
}

/// The schema of the first line from `from` on that is registered under `base`.
pub open spec fn schema_from(table: Seq<(Seq<char>, Seq<char>)>, base: Seq<u8>, from: int) -> Option<
    Seq<char>,
>
    decreases table.len() - from,
{
    if from < 0 || from >= table.len() {
        None
    } else if encode_utf8(table[from].0) == base {
        Some(table[from].1)
    } else {
        schema_from(table, base, from + 1)
    }
}

/// The schema that a table holds for `key`, if one is registered for its base key.
pub open spec fn schema_for(table: Seq<(Seq<char>, Seq<char>)>, key: Seq<char>) -> Option<Seq<char>> {
    schema_from(table, base_key(encode_utf8(key)), 0)
}

/// What validating `value` under `key` gives with a table.
pub open spec fn validation(table: Seq<(Seq<char>, Seq<char>)>, key: Seq<char>, value: Seq<char>) -> Result<
    (),
    Seq<char>,
> {
    match schema_for(table, key) {
        None => Ok(()),
        Some(schema) => verdict(schema_report(schema, value)),
    }
}

/// The schema table: fixed once built, read by every validation. Every
/// schema in it compiles and no base key occurs twice.
pub struct SchemaRegistry {
    entries: Vec<SchemaEntry>,
}

impl View for SchemaRegistry {
    type V = Seq<(Seq<char>, Seq<char>)>;

    closed spec fn view(&self) -> Seq<(Seq<char>, Seq<char>)> {
        table_view(self.entries@)
    }
}

impl SchemaRegistry {
    #[verifier::type_invariant]
    spec fn well_formed(&self) -> bool {
        sound_table(table_view(self.entries@))
    }

    /// Builds the table, trying every line once: `None` where a schema
    /// cannot be used or a base key occurs twice, so that a faulty table is
    /// found before any request.
    pub fn new(entries: Vec<SchemaEntry>) -> (registry: Option<SchemaRegistry>)
        ensures
            registry is Some <==> sound_table(table_view(entries@)),
            registry matches Some(r) ==> r@ == table_view(entries@) && sound_table(r@),
    {
        let ghost table = table_view(entries@);
        let mut i: usize = 0;
        while i < entries.len()
            invariant
                i <= entries.len(),
                table == table_view(entries@),
                forall|k: int| 0 <= k < i ==> usable(#[trigger] table[k].1),
                forall|k: int, l: int|
                    0 <= k < l < i ==> (#[trigger] table[k]).0 != (#[trigger] table[l]).0,
            decreases entries.len() - i,
        {
            let schema = entries[i].schema.as_str();
            assert(table[i as int].1 == schema@);
            if !is_reference_free(schema.as_bytes()) {
                return None;
            }
            if schema_fault_of(schema).is_some() {
                return None;
            }
            let mut k: usize = 0;
            while k < i
                invariant
                    k <= i < entries.len(),
                    table == table_view(entries@),
                    forall|l: int| 0 <= l < k ==> (#[trigger] table[l]).0 != table[i as int].0,
                decreases i - k,
            {
                if same_text(entries[k].base_key.as_str(), entries[i].base_key.as_str()) {
                    assert(table[k as int].0 == table[i as int].0);
                    return None;
                }
                k += 1;
            }
            i += 1;
        }
        Some(SchemaRegistry { entries })
    }

    /// Validates the JSON text `value` against the schema registered for the
    /// base key of `key`. A key without a registered schema passes whatever
    /// the value is.
    pub fn validate_json_schema(&self, key: &str, value: &str) -> (outcome: Result<(), String>)
        ensures
            outcome_view(outcome) == validation(self@, key@, value@),
            schema_for(self@, key@) is None ==> outcome is Ok,
    {
        proof {
            use_type_invariant(self);
        }
        let bytes = key.as_bytes();
        let n = base_key_len(bytes);
        let ghost base = base_key(encode_utf8(key@));
        let ghost table = table_view(self.entries@);
        let mut i: usize = 0;
        while i < self.entries.len()
            invariant
                i <= self.entries.len(),
                bytes@ == encode_utf8(key@),
                n == base_end(bytes@, 0, 0),
                n <= bytes.len(),
                base == bytes@.take(n as int),
                table == table_view(self.entries@),
                sound_table(table),
                schema_from(table, base, 0) == schema_from(table, base, i as int),
            decreases self.entries.len() - i,
        {
            let name = self.entries[i].base_key.as_str().as_bytes();
            assert(table[i as int] == self.entries[i as int]@);
            if name.len() == n && has_at(bytes, 0, name) {
                assert(usable(table[i as int].1));
                let report = check_against_schema(self.entries[i].schema.as_str(), value);
                return validation_outcome(report);
            }
            i += 1;
        }
        Ok(())
    }
}

} // verus!
