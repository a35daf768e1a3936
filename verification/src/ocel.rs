//! The object-centric event log: declared types, events, objects and their attribute values.
use chrono::{FixedOffset, TimeZone};
use process_mining::ocel::ocel_struct::{
    OCELAttributeValue, OCELEventAttribute, OCELObjectAttribute, OCELRelationship,
};
use vstd::prelude::*;

use crate::json::{json_text, text_pair, JsonModel};
use crate::text::same_text;

verus! {

/// The first second that a date can denote: the start of the year -262143.
pub const FIRST_SECOND: i64 = -8334601228800;

/// The last second that a date can denote: the end of the year 262142.
pub const LAST_SECOND: i64 = 8210266876799;

/// A point in time: seconds since 1970-01-01T00:00:00 UTC, nanoseconds within the second (from
/// one thousand million on within a leap second) and the seconds by which local time is ahead of
/// UTC.
pub struct Instant {
    pub seconds: int,
    pub nanos: int,
    pub offset: int,
}

impl Instant {
    /// The instant and its local time lie within the calendar, a leap second follows the last
    /// second of a minute, and the offset is less than a day.
    pub open spec fn valid(self) -> bool {
        &&& FIRST_SECOND <= self.seconds <= LAST_SECOND
        &&& FIRST_SECOND <= self.seconds + self.offset <= LAST_SECOND
        &&& -86_400 < self.offset < 86_400
        &&& 0 <= self.nanos < 2_000_000_000
        &&& self.nanos >= 1_000_000_000 ==> self.seconds % 60 == 59
    }
}

/// A valid point in time with its offset from UTC.
#[derive(Clone, Copy, Debug, PartialEq, Eq)]
pub struct Timestamp {
    seconds: i64,
    nanos: u32,
    offset: i32,
}

impl DeepView for Timestamp {
    type V = Instant;

    closed spec fn deep_view(&self) -> Instant {
        Instant {
            seconds: self.seconds as int,
            nanos: self.nanos as int,
            offset: self.offset as int,
        }
    }
}

impl Timestamp {
    #[verifier::type_invariant]
    spec fn well_formed(self) -> bool {
        self.deep_view().valid()
    }

    /// The timestamp with the given parts, or `None` where they denote no valid instant.
    pub fn new(seconds: i64, nanos: u32, offset: i32) -> (r: Option<Timestamp>)
        ensures
            ({
                let instant = Instant {
                    seconds: seconds as int,
                    nanos: nanos as int,
                    offset: offset as int,
                };
                match r {
                    Some(timestamp) => instant.valid() && timestamp.deep_view() == instant,
                    None => !instant.valid(),
                }
            }),
    {
        if seconds < FIRST_SECOND || seconds > LAST_SECOND || offset <= -86_400 || offset >= 86_400
            || nanos >= 2_000_000_000 {
            return None;
        }
        let local: i64 = seconds + offset as i64;
        let second_of_minute: i64 = (seconds - FIRST_SECOND) % 60;
        if local < FIRST_SECOND || local > LAST_SECOND || (nanos >= 1_000_000_000
            && second_of_minute != 59) {
            return None;
        }
        Some(Timestamp { seconds, nanos, offset })
    }
}

/// The text with which `process_mining::ocel::ocel_struct::OCELAttributeValue` displays the floating
/// point number that a text denotes, where it denotes one.
pub uninterp spec fn displayed_float(text: Seq<char>) -> Option<Seq<char>>;

/// `OCELAttributeValue::to_string` on the floating point number that `str::parse` reads from the
/// text, where it reads one. The result depends on the text alone.
#[verifier::external_body]
fn display_float(text: &str) -> (r: Option<String>)
    ensures
        r.deep_view() == displayed_float(text@),
{
    text.parse().map(OCELAttributeValue::Float).ok().map(|value| value.to_string())
}

/// A floating point number, held as the text that displays it.
#[derive(Debug, PartialEq, Eq)]
pub struct FloatText {
    text: String,
}

impl DeepView for FloatText {
    type V = Seq<char>;

    closed spec fn deep_view(&self) -> Seq<char> {
        self.text@
    }
}

impl FloatText {
    #[verifier::type_invariant]
    spec fn well_formed(self) -> bool {
        displayed_float(self.text@) == Some(self.text@)
    }

    /// The number that a text displays, or `None` where no number is displayed so.
    pub fn new(text: String) -> (r: Option<FloatText>)
        ensures
            match r {
                Some(number) => displayed_float(text@) == Some(text@) && number.deep_view()
                    == text@,
                None => displayed_float(text@) != Some(text@),
            },
    {
        match display_float(text.as_str()) {
            Some(displayed) => if same_text(displayed.as_str(), text.as_str()) {
                Some(FloatText { text })
            } else {
                None
            },
            None => None,
        }
    }

    /// The text that displays the number.
    pub fn as_str(&self) -> (r: &str)
        ensures
            r@ == self.deep_view(),
            displayed_float(r@) == Some(r@),
    {
        proof {
            use_type_invariant(self);
        }
        self.text.as_str()
    }
}

/// An attribute value.
#[derive(Debug, PartialEq, Eq)]
pub enum AttributeValue {
    Time(Timestamp),
    Integer(i64),
    Float(FloatText),
    Boolean(bool),
    Text(String),
    Null,
}

/// What an attribute value holds.
pub enum ValueModel {
    Time(Instant),
    Integer(int),
    Float(Seq<char>),
    Boolean(bool),
    Text(Seq<char>),
    Null,
}

impl DeepView for AttributeValue {
    type V = ValueModel;

    open spec fn deep_view(&self) -> ValueModel {
        match self {
            AttributeValue::Time(time) => ValueModel::Time(time.deep_view()),
            AttributeValue::Integer(i) => ValueModel::Integer(*i as int),
            AttributeValue::Float(text) => ValueModel::Float(text.deep_view()),
            AttributeValue::Boolean(b) => ValueModel::Boolean(*b),
            AttributeValue::Text(text) => ValueModel::Text(text@),
            AttributeValue::Null => ValueModel::Null,
        }
    }
}

/// An attribute of a type: its name and the declared type of its values.
#[derive(Debug, PartialEq, Eq)]
pub struct AttributeDefinition {
    pub name: String,
    pub value_type: String,
}

/// What an attribute definition holds.
pub struct AttributeDefinitionModel {
    pub name: Seq<char>,
    pub value_type: Seq<char>,
}

impl DeepView for AttributeDefinition {
    type V = AttributeDefinitionModel;

    open spec fn deep_view(&self) -> AttributeDefinitionModel {
        AttributeDefinitionModel { name: self.name@, value_type: self.value_type@ }
    }
}

/// An event type or an object type with its attributes.
#[derive(Debug, PartialEq, Eq)]
pub struct TypeDefinition {
    pub name: String,
    pub attributes: Vec<AttributeDefinition>,
}

/// What a type definition holds.
pub struct TypeModel {
    pub name: Seq<char>,
    pub attributes: Seq<AttributeDefinitionModel>,
}

impl DeepView for TypeDefinition {
    type V = TypeModel;

    open spec fn deep_view(&self) -> TypeModel {
        TypeModel { name: self.name@, attributes: self.attributes.deep_view() }
    }
}

/// A named value of an event.
#[derive(Debug, PartialEq, Eq)]
pub struct EventAttribute {
    pub name: String,
    pub value: AttributeValue,
}

/// What an event attribute holds.
pub struct EventAttributeModel {
    pub name: Seq<char>,
    pub value: ValueModel,
}

impl DeepView for EventAttribute {
    type V = EventAttributeModel;

    open spec fn deep_view(&self) -> EventAttributeModel {
        EventAttributeModel { name: self.name@, value: self.value.deep_view() }
    }
}

/// A value that an attribute of an object takes from a point in time on.
#[derive(Debug, PartialEq, Eq)]
pub struct ObjectAttribute {
    pub name: String,
    pub value: AttributeValue,
    pub time: Timestamp,
}

/// What an object attribute holds.
pub struct ObjectAttributeModel {
    pub name: Seq<char>,
    pub value: ValueModel,
    pub time: Instant,
}

impl DeepView for ObjectAttribute {
    type V = ObjectAttributeModel;

    open spec fn deep_view(&self) -> ObjectAttributeModel {
        ObjectAttributeModel {
            name: self.name@,
            value: self.value.deep_view(),
            time: self.time.deep_view(),
        }
    }
}

/// A qualified reference to an object.
#[derive(Debug, PartialEq, Eq)]
pub struct Relationship {
    pub object_id: String,
    pub qualifier: String,
}

/// What a relationship holds.
pub struct RelationshipModel {
    pub object_id: Seq<char>,
    pub qualifier: Seq<char>,
}

impl DeepView for Relationship {
    type V = RelationshipModel;

    open spec fn deep_view(&self) -> RelationshipModel {
        RelationshipModel { object_id: self.object_id@, qualifier: self.qualifier@ }
    }
}

/// An event.
#[derive(Debug, PartialEq, Eq)]
pub struct Event {
    pub id: String,
    pub event_type: String,
    pub time: Timestamp,
    pub attributes: Vec<EventAttribute>,
    pub relationships: Vec<Relationship>,
}

/// What an event holds.
pub struct EventModel {
    pub id: Seq<char>,
    pub event_type: Seq<char>,
    pub time: Instant,
    pub attributes: Seq<EventAttributeModel>,
    pub relationships: Seq<RelationshipModel>,
}

impl DeepView for Event {
    type V = EventModel;

    open spec fn deep_view(&self) -> EventModel {
        EventModel {
            id: self.id@,
            event_type: self.event_type@,
            time: self.time.deep_view(),
            attributes: self.attributes.deep_view(),
            relationships: self.relationships.deep_view(),
        }
    }
}

/// An object.
#[derive(Debug, PartialEq, Eq)]
pub struct Object {
    pub id: String,
    pub object_type: String,
    pub attributes: Vec<ObjectAttribute>,
    pub relationships: Vec<Relationship>,
}

/// What an object holds.
pub struct ObjectModel {
    pub id: Seq<char>,
    pub object_type: Seq<char>,
    pub attributes: Seq<ObjectAttributeModel>,
    pub relationships: Seq<RelationshipModel>,
}

impl DeepView for Object {
    type V = ObjectModel;

    open spec fn deep_view(&self) -> ObjectModel {
        ObjectModel {
            id: self.id@,
            object_type: self.object_type@,
            attributes: self.attributes.deep_view(),
            relationships: self.relationships.deep_view(),
        }
    }
}

/// An object-centric event log.
#[derive(Debug, PartialEq, Eq)]
pub struct Ocel {
    pub event_types: Vec<TypeDefinition>,
    pub object_types: Vec<TypeDefinition>,
    pub events: Vec<Event>,
    pub objects: Vec<Object>,
}

/// What an object-centric event log holds.
pub struct OcelModel {
    pub event_types: Seq<TypeModel>,
    pub object_types: Seq<TypeModel>,
    pub events: Seq<EventModel>,
    pub objects: Seq<ObjectModel>,
}

impl DeepView for Ocel {
    type V = OcelModel;

    open spec fn deep_view(&self) -> OcelModel {
        OcelModel {
            event_types: self.event_types.deep_view(),
            object_types: self.object_types.deep_view(),
            events: self.events.deep_view(),
            objects: self.objects.deep_view(),
        }
    }
}

/// The text that `chrono::DateTime::<FixedOffset>::to_rfc3339` writes for an instant.
pub uninterp spec fn rfc3339_text(instant: Instant) -> Seq<char>;

/// The text that `serde_json::to_string` writes for a list of
/// `process_mining::ocel::ocel_struct::OCELEventAttribute`.
pub uninterp spec fn event_attributes_text(attributes: Seq<EventAttributeModel>) -> Seq<char>;

/// The text that `serde_json::to_string` writes for a list of
/// `process_mining::ocel::ocel_struct::OCELObjectAttribute`.
pub uninterp spec fn object_attributes_text(attributes: Seq<ObjectAttributeModel>) -> Seq<char>;

/// Relationships as a document.
pub open spec fn relationships_document(relationships: Seq<RelationshipModel>) -> JsonModel {
    JsonModel::List(
        relationships.map_values(
            |r: RelationshipModel| text_pair("objectId"@, r.object_id, "qualifier"@, r.qualifier),
        ),
    )
}

/// The text that `serde_json::to_string` writes for a list of
/// `process_mining::ocel::ocel_struct::OCELRelationship`.
pub open spec fn relationships_text(relationships: Seq<RelationshipModel>) -> Seq<char> {
    json_text(relationships_document(relationships))
}

/// `chrono::DateTime::to_rfc3339` on the date and time with the parts of the timestamp. Every
/// valid timestamp denotes one, and its text depends on the parts alone.
#[verifier::external_body]
pub(crate) fn rfc3339(time: Timestamp) -> (r: String)
    ensures
        r@ == rfc3339_text(time.deep_view()),
{
    let offset = FixedOffset::east_opt(time.offset).unwrap();
    offset.timestamp_opt(time.seconds, time.nanos).unwrap().to_rfc3339()
}

/// `serde_json::to_string` on the attributes as values of
/// `process_mining::ocel::ocel_struct::OCELEventAttribute`. It does not fail: all keys are texts, a
/// number that is not finite is written as null, and memory takes every byte. The text depends on
/// the attributes alone.
#[verifier::external_body]
pub(crate) fn event_attributes_json(attributes: &Vec<EventAttribute>) -> (r: Result<String, String>)
    ensures
        r is Ok,
        r->Ok_0@ == event_attributes_text(attributes.deep_view()),
{
    let at = |t: Timestamp| FixedOffset::east_opt(t.offset).unwrap().timestamp_opt(t.seconds, t.nanos).unwrap();
    serde_json::to_string(&Vec::from_iter(attributes.iter().map(|a| OCELEventAttribute {
        name: a.name.clone(),
        value: match &a.value {
            AttributeValue::Time(t) => OCELAttributeValue::Time(at(*t)),
            AttributeValue::Integer(i) => OCELAttributeValue::Integer(*i),
            AttributeValue::Float(f) => OCELAttributeValue::Float(f.text.parse().unwrap()),
            AttributeValue::Boolean(b) => OCELAttributeValue::Boolean(*b),
            AttributeValue::Text(s) => OCELAttributeValue::String(s.clone()),
            AttributeValue::Null => OCELAttributeValue::Null
        }
    }))).map_err(|err| err.to_string())
}

/// `serde_json::to_string` on the attributes as values of
/// `process_mining::ocel::ocel_struct::OCELObjectAttribute`. It does not fail: all keys are texts, a
/// number that is not finite is written as null, and memory takes every byte. The text depends on
/// the attributes alone.
#[verifier::external_body]
pub(crate) fn object_attributes_json(attributes: &Vec<ObjectAttribute>) -> (r: Result<String, String>)
    ensures
        r is Ok,
        r->Ok_0@ == object_attributes_text(attributes.deep_view()),
{
    let at = |t: Timestamp| FixedOffset::east_opt(t.offset).unwrap().timestamp_opt(t.seconds, t.nanos).unwrap();
    serde_json::to_string(&Vec::from_iter(attributes.iter().map(|a| OCELObjectAttribute {
        name: a.name.clone(),
        value: match &a.value {
            AttributeValue::Time(t) => OCELAttributeValue::Time(at(*t)),
            AttributeValue::Integer(i) => OCELAttributeValue::Integer(*i),
            AttributeValue::Float(f) => OCELAttributeValue::Float(f.text.parse().unwrap()),
            AttributeValue::Boolean(b) => OCELAttributeValue::Boolean(*b),
            AttributeValue::Text(s) => OCELAttributeValue::String(s.clone()),
            AttributeValue::Null => OCELAttributeValue::Null
        },
        time: at(a.time)
    }))).map_err(|err| err.to_string())
}

/// `serde_json::to_string` on the relationships as values of
/// `process_mining::ocel::ocel_struct::OCELRelationship`. It does not fail: all keys are texts, and
/// memory takes every byte. It writes what it writes for the list of objects with the two fields.
#[verifier::external_body]
pub(crate) fn relationships_json(relationships: &Vec<Relationship>) -> (r: Result<String, String>)
    ensures
        r is Ok,
        r->Ok_0@ == relationships_text(relationships.deep_view()),
{
    serde_json::to_string(&Vec::from_iter(relationships.iter().map(|r| OCELRelationship {
        object_id: r.object_id.clone(),
        qualifier: r.qualifier.clone(),
    }))).map_err(|err| err.to_string())
}

} // verus!
