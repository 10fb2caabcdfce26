use vstd::prelude::*;

use crate::errors::Failure;
use crate::json::{compact, lemma_member_at, lemma_member_found, Json, JsonView, Member};
use crate::managed_server::{check_record_shape, ProcessRecord, RecordView};
use crate::parse::{is_flat_object, parse_json, parsed_json, same_members};
use crate::text::{concat3, decimal, same_text, text_view};

verus! {

/// A `u32` as JSON.
pub open spec fn number_json(n: u32) -> JsonView {
    JsonView::Number { text: decimal(n as int), integer: Some(n as i64) }
}

/// A process record as JSON.
pub open spec fn record_json(record: RecordView) -> JsonView {
    JsonView::Object(
        seq![
            ("schemaVersion"@, number_json(record.schema_version)),
            ("pid"@, number_json(record.pid)),
            ("processGroupId"@, number_json(record.process_group_id)),
            ("processStartTime"@, JsonView::Str(record.process_start_time)),
            (
                "bootId"@,
                match record.boot_id {
                    Some(id) => JsonView::Str(id),
                    None => JsonView::Null,
                },
            ),
            ("codexBin"@, JsonView::Str(record.codex_bin)),
            ("codexVersion"@, JsonView::Str(record.codex_version)),
            ("codexHome"@, JsonView::Str(record.codex_home)),
            ("endpoint"@, JsonView::Str(record.endpoint)),
        ],
    )
}

/// The text of a process record.
pub open spec fn record_text(record: RecordView) -> Seq<char> {
    compact(record_json(record))
}

/// Whether a process record has a member with this key.
pub open spec fn is_record_key(key: Seq<char>) -> bool {
    ||| key == "schemaVersion"@
    ||| key == "pid"@
    ||| key == "processGroupId"@
    ||| key == "processStartTime"@
    ||| key == "bootId"@
    ||| key == "codexBin"@
    ||| key == "codexVersion"@
    ||| key == "codexHome"@
    ||| key == "endpoint"@
}

/// The `u32` under a key.
pub open spec fn u32_field(value: JsonView, key: Seq<char>) -> Option<u32> {
    match value.field(key).as_i64() {
        Some(n) => if 0 <= n <= u32::MAX {
            Some(n as u32)
        } else {
            None
        },
        None => None,
    }
}

/// The text under a key.
pub open spec fn text_field(value: JsonView, key: Seq<char>) -> Option<Seq<char>> {
    value.field(key).as_str()
}

/// Whether a value has the members of a process record, and no others. The boot id may be
/// null or absent.
pub open spec fn is_record(value: JsonView) -> bool {
    &&& value is Object
    &&& forall|key: Seq<char>| #[trigger] value.get(key) is Some ==> is_record_key(key)
    &&& u32_field(value, "schemaVersion"@) is Some
    &&& u32_field(value, "pid"@) is Some
    &&& u32_field(value, "processGroupId"@) is Some
    &&& text_field(value, "processStartTime"@) is Some
    &&& value.field("bootId"@) is Null || text_field(value, "bootId"@) is Some
    &&& text_field(value, "codexBin"@) is Some
    &&& text_field(value, "codexVersion"@) is Some
    &&& text_field(value, "codexHome"@) is Some
    &&& text_field(value, "endpoint"@) is Some
}

/// The process record that a value is.
pub open spec fn decoded_record(value: JsonView) -> Option<RecordView> {
    if is_record(value) {
        Some(
            RecordView {
                schema_version: u32_field(value, "schemaVersion"@)->0,
                pid: u32_field(value, "pid"@)->0,
                process_group_id: u32_field(value, "processGroupId"@)->0,
                process_start_time: text_field(value, "processStartTime"@)->0,
                boot_id: text_field(value, "bootId"@),
                codex_bin: text_field(value, "codexBin"@)->0,
                codex_version: text_field(value, "codexVersion"@)->0,
                codex_home: text_field(value, "codexHome"@)->0,
                endpoint: text_field(value, "endpoint"@)->0,
            },
        )
    } else {
        None
    }
}

/// The view of an optional process record.
pub open spec fn record_view(record: Option<ProcessRecord>) -> Option<RecordView> {
    match record {
        Some(record) => Some(record@),
        None => None,
    }
}

proof fn lemma_record_members(record: RecordView)
    ensures
        is_flat_object(record_json(record)),
        forall|i: int|
            0 <= i < 9 ==> {
                let (key, value) = #[trigger] record_json(record)->Object_0[i];
                record_json(record).get(key) == Some(value) && is_record_key(key)
            },
        forall|key: Seq<char>| #[trigger]
            record_json(record).get(key) is Some ==> is_record_key(key),
{
    reveal_strlit("schemaVersion");
    reveal_strlit("pid");
    reveal_strlit("processGroupId");
    reveal_strlit("processStartTime");
    reveal_strlit("bootId");
    reveal_strlit("codexBin");
    reveal_strlit("codexVersion");
    reveal_strlit("codexHome");
    reveal_strlit("endpoint");
    let members = record_json(record)->Object_0;
    assert(members[0].0.len() == 13);
    assert(members[1].0.len() == 3);
    assert(members[2].0.len() == 14);
    assert(members[3].0.len() == 16);
    assert(members[4].0.len() == 6);
    assert(members[5].0.len() == 8 && members[5].0[0] == 'c');
    assert(members[6].0.len() == 12);
    assert(members[7].0.len() == 9);
    assert(members[8].0.len() == 8 && members[8].0[0] == 'e');
    assert forall|i: int, j: int| 0 <= i < j < members.len() implies (#[trigger] members[i]).0 != (
    #[trigger] members[j]).0 by {}
    assert forall|i: int| 0 <= i < 9 implies {
        let (key, value) = #[trigger] members[i];
        record_json(record).get(key) == Some(value) && is_record_key(key)
    } by {
        lemma_member_at(members, members[i].0, i);
    }
    assert forall|key: Seq<char>| #[trigger]
        record_json(record).get(key) is Some implies is_record_key(key) by {
        lemma_member_found(members, key);
    }
}

/// A process record as JSON is the record that was written, and has the version that tells it
/// from an older one.
pub proof fn law_written_record_reads_back(record: RecordView)
    ensures
        decoded_record(record_json(record)) == Some(record),
        record_json(record).get("schemaVersion"@) is Some,
{
    lemma_record_members(record);
    let value = record_json(record);
    let members = value->Object_0;
    assert(value.get(members[0].0) == Some(members[0].1));
    assert(value.get(members[1].0) == Some(members[1].1));
    assert(value.get(members[2].0) == Some(members[2].1));
    assert(value.get(members[3].0) == Some(members[3].1));
    assert(value.get(members[4].0) == Some(members[4].1));
    assert(value.get(members[5].0) == Some(members[5].1));
    assert(value.get(members[6].0) == Some(members[6].1));
    assert(value.get(members[7].0) == Some(members[7].1));
    assert(value.get(members[8].0) == Some(members[8].1));
}

/// The order of the members does not matter.
proof fn lemma_same_record(a: JsonView, b: JsonView)
    requires
        same_members(a, b),
    ensures
        decoded_record(a) == decoded_record(b),
{
    assert forall|key: Seq<char>| a.get(key) == #[trigger] b.get(key) by {}
    assert forall|key: Seq<char>| #[trigger] a.get(key) == b.get(key) by {}
    assert(is_record(a) ==> is_record(b)) by {
        assert forall|key: Seq<char>| is_record(a) && #[trigger] b.get(key) is Some implies
            is_record_key(key) by {
            assert(a.get(key) is Some);
        }
    }
    assert(is_record(b) ==> is_record(a)) by {
        assert forall|key: Seq<char>| is_record(b) && #[trigger] a.get(key) is Some implies
            is_record_key(key) by {
            assert(b.get(key) is Some);
        }
    }
}

fn text_member(key: &str, text: &str) -> (member: Member)
    ensures
        member.key@ == key@,
        member.value@ == JsonView::Str(text@),
{
    Member { key: key.to_owned(), value: Json::string(text) }
}

fn number_member(key: &str, n: u32) -> (member: Member)
    ensures
        member.key@ == key@,
        member.value@ == number_json(n),
{
    Member { key: key.to_owned(), value: Json::integer(n as i64) }
}

/// The text in which a process record is written down.
pub fn encode_record(record: &ProcessRecord) -> (text: String)
    ensures
        text@ == record_text(record@),
{
    let boot_id = match &record.boot_id {
        Some(id) => Json::string(id.as_str()),
        None => Json::Null,
    };
    let ghost boot_view = boot_id@;
    assert(boot_view == match record@.boot_id {
        Some(id) => JsonView::Str(id),
        None => JsonView::Null,
    });
    let members: Vec<Member> = vec![
        number_member("schemaVersion", record.schema_version),
        number_member("pid", record.pid),
        number_member("processGroupId", record.process_group_id),
        text_member("processStartTime", record.process_start_time.as_str()),
        Member { key: "bootId".to_owned(), value: boot_id },
        text_member("codexBin", record.codex_bin.as_str()),
        text_member("codexVersion", record.codex_version.as_str()),
        text_member("codexHome", record.codex_home.as_str()),
        text_member("endpoint", record.endpoint.as_str()),
    ];
    let json = Json::Object(members);
    proof {
        assert(json@->Object_0[4].1 == boot_view);
        assert(json@->Object_0 =~= record_json(record@)->Object_0);
    }
    json.to_text()
}

fn known_key(key: &str) -> (known: bool)
    ensures
        known == is_record_key(key@),
{
    same_text(key, "schemaVersion") || same_text(key, "pid") || same_text(key, "processGroupId")
        || same_text(key, "processStartTime") || same_text(key, "bootId") || same_text(
        key,
        "codexBin",
    ) || same_text(key, "codexVersion") || same_text(key, "codexHome") || same_text(
        key,
        "endpoint",
    )
}

/// Whether a value is an object with no other members than a process record has.
fn has_known_keys(value: &Json) -> (known: bool)
    ensures
        known == (value@ is Object && forall|key: Seq<char>| #[trigger]
            value@.get(key) is Some ==> is_record_key(key)),
{
    match value {
        Json::Object(members) => {
            let ghost views = value@->Object_0;
            let mut i: usize = 0;
            while i < members.len()
                invariant
                    i <= members@.len(),
                    *value == Json::Object(*members),
                    views == value@->Object_0,
                    value@ is Object,
                    forall|j: int| 0 <= j < i ==> is_record_key((#[trigger] views[j]).0),
                decreases members@.len() - i,
            {
                assert(views[i as int].0 == members@[i as int].key@);
                if !known_key(members[i].key.as_str()) {
                    proof {
                        lemma_member_found(views, views[i as int].0);
                        assert(value@.get(views[i as int].0) is Some);
                    }
                    return false;
                }
                i += 1;
            }
            proof {
                assert forall|key: Seq<char>| #[trigger] value@.get(key) is Some implies
                    is_record_key(key) by {
                    lemma_member_found(views, key);
                }
            }
            true
        },
        _ => false,
    }
}

fn read_u32(value: &Json, key: &str) -> (number: Option<u32>)
    ensures
        number == u32_field(value@, key@),
{
    match value.field(key).as_i64() {
        Some(n) => if 0 <= n && n <= 0xffff_ffff {
            Some(n as u32)
        } else {
            None
        },
        None => None,
    }
}

fn read_text(value: &Json, key: &str) -> (text: Option<String>)
    ensures
        text_view(text) == text_field(value@, key@),
{
    match value.field(key).as_str() {
        Some(text) => Some(text.to_owned()),
        None => None,
    }
}

/// The process record that a value is, where it has just the members of one.
pub fn decode_record(value: &Json) -> (record: Option<ProcessRecord>)
    ensures
        record_view(record) == decoded_record(value@),
{
    if !has_known_keys(value) {
        return None;
    }
    let boot_id = read_text(value, "bootId");
    if boot_id.is_none() && !value.field("bootId").is_null() {
        return None;
    }
    match (
        read_u32(value, "schemaVersion"),
        read_u32(value, "pid"),
        read_u32(value, "processGroupId"),
        read_text(value, "processStartTime"),
        read_text(value, "codexBin"),
        read_text(value, "codexVersion"),
        read_text(value, "codexHome"),
        read_text(value, "endpoint"),
    ) {
        (
            Some(schema_version),
            Some(pid),
            Some(process_group_id),
            Some(process_start_time),
            Some(codex_bin),
            Some(codex_version),
            Some(codex_home),
            Some(endpoint),
        ) => Some(
            ProcessRecord {
                schema_version,
                pid,
                process_group_id,
                process_start_time,
                boot_id,
                codex_bin,
                codex_version,
                codex_home,
                endpoint,
            },
        ),
        _ => None,
    }
}

/// Reads the text of a process record. A text that is no JSON is a failure, and so is a record
/// from before records had a version; of any other value it is said whether it is a record,
/// and which.
///
/// A record that was written down is read back as it was.
pub fn read_record(text: &str, path: &str) -> (read: Result<Option<ProcessRecord>, Failure>)
    ensures
        match (read, parsed_json(text@)) {
            (Ok(record), Ok(value)) => {
                &&& value.get("schemaVersion"@) is Some
                &&& record_view(record) == decoded_record(value)
            },
            (Err(failure), Ok(value)) => value.get("schemaVersion"@) is None && failure@ == seq![
                "legacy process record `"@ + path@
                    + "` cannot be safely validated; preserving it"@,
            ],
            (Err(failure), Err(message)) => failure@ == seq![
                "invalid process record `"@ + path@ + "`"@,
                message,
            ],
            (Ok(_), Err(_)) => false,
        },
        forall|record: RecordView|
            text@ == #[trigger] record_text(record) ==> (read matches Ok(Some(own)) && own@
                == record),
{
    let parsed = parse_json(text);
    proof {
        assert forall|record: RecordView| text@ == #[trigger] record_text(record) implies (
        parsed matches Ok(value) && value@.get("schemaVersion"@) is Some && decoded_record(value@)
            == Some(record)) by {
            lemma_record_members(record);
            law_written_record_reads_back(record);
            let written = record_json(record);
            assert(text@ == compact(written));
            assert(parsed is Ok);
            lemma_same_record(parsed->Ok_0@, written);
            assert(parsed->Ok_0@.get("schemaVersion"@) == written.get("schemaVersion"@));
        }
    }
    match parsed {
        Ok(value) => match check_record_shape(&value, path) {
            Ok(()) => Ok(decode_record(&value)),
            Err(failure) => Err(failure),
        },
        Err(message) => {
            let context = concat3("invalid process record `", path, "`");
            Err(Failure::caused(context.as_str(), message.as_str()))
        },
    }
}

} // verus!
