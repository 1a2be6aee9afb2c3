//! The InfluxDB forwarder's rules: which line-protocol bodies are posted for
//! a payload.

use vstd::prelude::*;
use vstd::string::*;
use serde_json::Value;
use crate::json::{
    document, entries, entry_texts, json_look, json_text, json_texts, look, plain_key,
    read_document,
};
use crate::packet::optional_text_view;
use crate::topic::strings_view;

verus! {

/// The body posted for a sensor reading.
pub open spec fn body_text(
    tag_id: Seq<char>,
    temperature: Seq<char>,
    battery_level: Seq<char>,
    timestamp: Seq<char>,
) -> Seq<char> {
    "sensor,tag="@ + tag_id + " temperature="@ + temperature + ",batteryLevel="@ + battery_level
        + " "@ + timestamp
}

/// The body posted for the entry of a given text: made of what is found in
/// it under `tagId`, `temperature`, `batteryLevel` and `timestamp`, and none
/// where one of the four cannot be looked up.
pub open spec fn entry_body(entry: Seq<char>) -> Option<Seq<char>> {
    reading_text(
        json_look(entry, "timestamp"@),
        json_look(entry, "tagId"@),
        json_look(entry, "batteryLevel"@),
        json_look(entry, "temperature"@),
    )
}

/// The body made of what four lookups found: none unless all four found
/// something.
pub open spec fn reading_text(
    timestamp: Option<Seq<char>>,
    tag_id: Option<Seq<char>>,
    battery_level: Option<Seq<char>>,
    temperature: Option<Seq<char>>,
) -> Option<Seq<char>> {
    match (timestamp, tag_id, battery_level, temperature) {
        (Some(timestamp), Some(tag_id), Some(battery_level), Some(temperature)) => Some(
            body_text(tag_id, temperature, battery_level, timestamp),
        ),
        _ => None,
    }
}

/// The bodies posted for a list of entries: the body of each entry that has
/// one, in the list's order.
pub open spec fn entry_bodies(entries: Seq<Seq<char>>) -> Seq<Seq<char>>
    decreases entries.len(),
{
    if entries.len() == 0 {
        Seq::empty()
    } else {
        match entry_body(entries.last()) {
            Some(body) => entry_bodies(entries.drop_last()).push(body),
            None => entry_bodies(entries.drop_last()),
        }
    }
}

/// The bodies posted for a payload: those of its entries, and none where
/// the payload is not read as a document (it is too long, holds a number
/// with an exponent of more than nine digits, or is no JSON) or carries no
/// entries.
pub open spec fn payload_bodies(payload: Seq<u8>) -> Seq<Seq<char>> {
    match read_document(payload) {
        Some(document) => match entry_texts(document) {
            Some(entries) => entry_bodies(entries),
            None => Seq::empty(),
        },
        None => Seq::empty(),
    }
}

proof fn lemma_keys_are_plain()
    ensures
        plain_key("timestamp"@),
        plain_key("tagId"@),
        plain_key("batteryLevel"@),
        plain_key("temperature"@),
{
    reveal_strlit("timestamp");
    reveal_strlit("tagId");
    reveal_strlit("batteryLevel");
    reveal_strlit("temperature");
}

/// The InfluxDB forwarder. It holds nothing: what it posts follows from the
/// payload alone.
pub struct InfluxDbDataProcessor;

impl InfluxDbDataProcessor {
    pub fn new() -> InfluxDbDataProcessor {
        InfluxDbDataProcessor
    }

    /// The body for one reading.
    pub fn body(tag_id: &str, temperature: &str, battery_level: &str, timestamp: &str) -> (body:
        String)
        ensures
            body@ == body_text(tag_id@, temperature@, battery_level@, timestamp@),
    {
        let mut body = String::from_str("sensor,tag=");
        body.append(tag_id);
        body.append(" temperature=");
        body.append(temperature);
        body.append(",batteryLevel=");
        body.append(battery_level);
        body.append(" ");
        body.append(timestamp);
        body
    }

    fn entry(entry: &Value) -> (body: Option<String>)
        ensures
            match entry_body(json_text(*entry)) {
                Some(text) => body matches Some(found) && found@ == text,
                None => body is None,
            },
    {
        proof {
            lemma_keys_are_plain();
        }
        let timestamp = look(entry, "timestamp");
        let tag_id = look(entry, "tagId");
        let battery_level = look(entry, "batteryLevel");
        let temperature = look(entry, "temperature");
        Self::reading(&timestamp, &tag_id, &battery_level, &temperature)
    }

    /// The body for what four lookups found in an entry: none unless all
    /// four found something.
    pub fn reading(
        timestamp: &Option<String>,
        tag_id: &Option<String>,
        battery_level: &Option<String>,
        temperature: &Option<String>,
    ) -> (body: Option<String>)
        ensures
            match reading_text(
                optional_text_view(*timestamp),
                optional_text_view(*tag_id),
                optional_text_view(*battery_level),
                optional_text_view(*temperature),
            ) {
                Some(text) => body matches Some(found) && found@ == text,
                None => body is None,
            },
    {
        match (timestamp, tag_id, battery_level, temperature) {
            (Some(timestamp), Some(tag_id), Some(battery_level), Some(temperature)) => Some(
                Self::body(
                    tag_id.as_str(),
                    temperature.as_str(),
                    battery_level.as_str(),
                    timestamp.as_str(),
                ),
            ),
            _ => None,
        }
    }

    /// The bodies to post for the entries of a payload.
    pub fn process_entries(&self, entries: &Vec<Value>) -> (bodies: Vec<String>)
        ensures
            strings_view(bodies@) == entry_bodies(json_texts(entries@)),
    {
        let ghost texts = json_texts(entries@);
        let mut bodies: Vec<String> = Vec::new();
        let mut i: usize = 0;
        assert(texts.take(0) =~= Seq::empty());
        assert(strings_view(bodies@) =~= Seq::empty());
        while i < entries.len()
            invariant
                i <= entries.len(),
                texts == json_texts(entries@),
                strings_view(bodies@) == entry_bodies(texts.take(i as int)),
            decreases entries.len() - i,
        {
            let ghost so_far = strings_view(bodies@);
            proof {
                let longer = texts.take(i + 1);
                assert(longer.drop_last() =~= texts.take(i as int));
                assert(longer.last() == json_text(entries@[i as int]));
            }
            match Self::entry(&entries[i]) {
                Some(body) => {
                    bodies.push(body);
                    assert(strings_view(bodies@) =~= so_far.push(body@));
                },
                None => {},
            }
            i = i + 1;
        }
        assert(texts.take(i as int) =~= texts);
        bodies
    }

    /// The bodies to post for a payload handed over for a path. The path is
    /// not looked at.
    pub fn handle_request(&self, path: &[&str], payload: &[u8]) -> (bodies: Vec<String>)
        ensures
            strings_view(bodies@) == payload_bodies(payload@),
    {
        match document(payload) {
            Some(found) => match entries(&found) {
                Some(listed) => self.process_entries(listed),
                None => {
                    let bodies: Vec<String> = Vec::new();
                    assert(strings_view(bodies@) =~= Seq::empty());
                    bodies
                },
            },
            None => {
                let bodies: Vec<String> = Vec::new();
                assert(strings_view(bodies@) =~= Seq::empty());
                bodies
            },
        }
    }
}

} // verus!
