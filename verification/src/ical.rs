//! The calendar text format, as `elikoga_ical_rs` reads and writes it.
//!
//! The library works on its own [`Component`]; this module carries one to
//! and from the parser's `ICalObject` and calls the parser and the printer.

use vstd::prelude::*;
use vstd::string::StringExecFns;
use crate::document::{
    component_views, lemma_component_view, property_views, Calendar, Component, ComponentView,
    Property, PropertyView,
};
use crate::framing::{is_parsable, parse_defined};

verus! {

/// A content line of `elikoga_ical_rs`: a name, parameters and a value.
#[verifier::external_type_specification]
#[verifier::external_body]
pub struct ExContentLine(elikoga_ical_rs::ContentLine);

/// A component of `elikoga_ical_rs`: a type, content lines and nested
/// components.
#[verifier::external_type_specification]
#[verifier::external_body]
pub struct ExICalObject(elikoga_ical_rs::ICalObject);

/// What a content line of `elikoga_ical_rs` holds in its three fields.
pub uninterp spec fn line_view(line: elikoga_ical_rs::ContentLine) -> PropertyView;

/// What a component of `elikoga_ical_rs` holds in its three fields, its
/// content lines and nested components taken the same way.
pub uninterp spec fn object_view(object: elikoga_ical_rs::ICalObject) -> ComponentView;

/// The text that `elikoga_ical_rs` prints for a component.
pub uninterp spec fn ical_text(component: ComponentView) -> Seq<char>;

/// What `elikoga_ical_rs` reads from a byte string: a component, or the
/// message of the error it gives.
pub uninterp spec fn ical_parse(bytes: Seq<u8>) -> Result<ComponentView, Seq<char>>;

/// What the content lines of a list hold, in order.
pub open spec fn line_views(lines: Seq<elikoga_ical_rs::ContentLine>) -> Seq<PropertyView> {
    lines.map_values(|l: elikoga_ical_rs::ContentLine| line_view(l))
}

/// What the components of a list hold, in order.
pub open spec fn object_views(objects: Seq<elikoga_ical_rs::ICalObject>) -> Seq<ComponentView> {
    objects.map_values(|o: elikoga_ical_rs::ICalObject| object_view(o))
}

/// `ContentLine::new` of `elikoga_ical_rs` on copies of a property's name,
/// parameters and value: the content line holds what the property holds.
#[verifier::external_body]
fn line_of(property: &Property) -> (line: elikoga_ical_rs::ContentLine)
    ensures
        line_view(line) == property@,
{
    elikoga_ical_rs::ContentLine::new(
        property.name.clone(),
        property.params.clone(),
        property.value.clone(),
    )
}

/// A property from copies of the three fields of a content line of
/// `elikoga_ical_rs`: the property holds what the content line holds.
#[verifier::external_body]
fn property_of(line: &elikoga_ical_rs::ContentLine) -> (property: Property)
    ensures
        property@ == line_view(*line),
{
    Property { name: line.name.clone(), params: line.params.clone(), value: line.value.clone() }
}

/// An `ICalObject` of `elikoga_ical_rs` from its three fields: it holds a
/// copy of the type, the content lines and the nested components.
#[verifier::external_body]
fn object_of(
    object_type: &String,
    properties: Vec<elikoga_ical_rs::ContentLine>,
    sub_objects: Vec<elikoga_ical_rs::ICalObject>,
) -> (object: elikoga_ical_rs::ICalObject)
    ensures
        object_view(object) == (ComponentView {
            object_type: object_type@,
            properties: line_views(properties@),
            sub_objects: object_views(sub_objects@),
        }),
{
    elikoga_ical_rs::ICalObject { object_type: object_type.clone(), properties, sub_objects }
}

/// The three fields of an `ICalObject` of `elikoga_ical_rs`.
#[verifier::external_body]
fn parts_of(object: &elikoga_ical_rs::ICalObject) -> (parts: (
    &String,
    &Vec<elikoga_ical_rs::ContentLine>,
    &Vec<elikoga_ical_rs::ICalObject>,
))
    ensures
        object_view(*object) == (ComponentView {
            object_type: parts.0@,
            properties: line_views(parts.1@),
            sub_objects: object_views(parts.2@),
        }),
{
    (&object.object_type, &object.properties, &object.sub_objects)
}

/// `to_string` on an `ICalObject` of `elikoga_ical_rs`, that is its
/// `Display`: the text depends on what the component holds and on nothing
/// else.
#[verifier::external_body]
fn print_object(object: &elikoga_ical_rs::ICalObject) -> (text: String)
    ensures
        text@ == ical_text(object_view(*object)),
{
    object.to_string()
}

/// `ICalObject::from_bufread` of `elikoga_ical_rs` on a cursor over the
/// bytes: the component read or the error's message, which depend on the
/// bytes and on nothing else. The bytes on which it panics are left out.
/// A document nested so deeply that the parser's recursion exhausts the
/// stack is beyond this contract.
#[verifier::external_body]
fn read_object(bytes: &[u8]) -> (r: Result<elikoga_ical_rs::ICalObject, String>)
    requires
        parse_defined(bytes@),
    ensures
        match r {
            Ok(object) => ical_parse(bytes@) == Ok::<ComponentView, Seq<char>>(object_view(object)),
            Err(message) => ical_parse(bytes@) == Err::<ComponentView, Seq<char>>(message@),
        },
{
    match elikoga_ical_rs::ICalObject::from_bufread(&mut std::io::Cursor::new(bytes)) {
        Ok(object) => Ok(object),
        Err(error) => Err(error.to_string()),
    }
}

/// The parser's form of a component.
fn to_object(component: &Component) -> (object: elikoga_ical_rs::ICalObject)
    ensures
        object_view(object) == component@,
    decreases component,
{
    let mut lines: Vec<elikoga_ical_rs::ContentLine> = Vec::new();
    let mut i: usize = 0;
    while i < component.properties.len()
        invariant
            i <= component.properties.len(),
            lines.len() == i,
            forall|j: int| 0 <= j < i ==> line_view(lines@[j]) == component.properties@[j]@,
        decreases component.properties.len() - i,
    {
        lines.push(line_of(&component.properties[i]));
        i += 1;
    }
    let mut objects: Vec<elikoga_ical_rs::ICalObject> = Vec::new();
    let mut k: usize = 0;
    while k < component.sub_objects.len()
        invariant
            k <= component.sub_objects.len(),
            objects.len() == k,
            forall|j: int| 0 <= j < k ==> object_view(objects@[j]) == component.sub_objects@[j]@,
        decreases component.sub_objects.len() - k,
    {
        objects.push(to_object(&component.sub_objects[k]));
        k += 1;
    }
    proof {
        lemma_component_view(*component);
        assert(line_views(lines@) =~= property_views(component.properties@));
        assert(object_views(objects@) =~= component_views(component.sub_objects@));
    }
    object_of(&component.object_type, lines, objects)
}

/// The library's form of a component of the parser.
fn from_object(object: &elikoga_ical_rs::ICalObject) -> (component: Component)
    ensures
        component@ == object_view(*object),
    decreases object_view(*object),
{
    let (object_type, lines, objects) = parts_of(object);
    let mut properties: Vec<Property> = Vec::new();
    let mut i: usize = 0;
    while i < lines.len()
        invariant
            i <= lines.len(),
            properties.len() == i,
            forall|j: int| 0 <= j < i ==> properties@[j]@ == line_view(lines@[j]),
        decreases lines.len() - i,
    {
        properties.push(property_of(&lines[i]));
        i += 1;
    }
    let mut sub_objects: Vec<Component> = Vec::new();
    let mut k: usize = 0;
    while k < objects.len()
        invariant
            k <= objects.len(),
            sub_objects.len() == k,
            object_view(*object).sub_objects == object_views(objects@),
            forall|j: int| 0 <= j < k ==> sub_objects@[j]@ == object_view(objects@[j]),
        decreases objects.len() - k,
    {
        assert(object_view(*object).sub_objects[k as int] == object_view(objects@[k as int]));
        sub_objects.push(from_object(&objects[k]));
        k += 1;
    }
    let component = Component { object_type: object_type.clone(), properties, sub_objects };
    proof {
        lemma_component_view(component);
        assert(property_views(component.properties@) =~= line_views(lines@));
        assert(component_views(component.sub_objects@) =~= object_views(objects@));
    }
    component
}

/// What reading a calendar yields, in contracts: the component read or the
/// message of the error.
pub open spec fn reading_view(r: Result<Calendar, String>) -> Result<ComponentView, Seq<char>> {
    match r {
        Ok(c) => Ok(c@),
        Err(message) => Err(message@),
    }
}

/// The message for bytes that may not be handed to the parser.
pub open spec fn unreadable() -> Seq<char> {
    "malformed line ends or parameters"@
}

/// What reading `bytes` yields: what the parser reads from them, or an
/// error where they may not be handed to it.
pub open spec fn read(bytes: Seq<u8>) -> Result<ComponentView, Seq<char>> {
    if parse_defined(bytes) {
        ical_parse(bytes)
    } else {
        Err(unreadable())
    }
}

impl Calendar {
    /// Reads a calendar from bytes. Bytes that may not be handed to the
    /// parser are an error like those that the parser gives.
    pub fn parse(bytes: &[u8]) -> (r: Result<Calendar, String>)
        ensures
            reading_view(r) == read(bytes@),
    {
        if !is_parsable(bytes) {
            return Err(String::from_str("malformed line ends or parameters"));
        }
        match read_object(bytes) {
            Ok(object) => Ok(Calendar(from_object(&object))),
            Err(message) => Err(message),
        }
    }

    /// The calendar as text.
    pub fn to_text(&self) -> (text: String)
        ensures
            text@ == ical_text(self@),
    {
        let object = to_object(&self.0);
        print_object(&object)
    }
}

} // verus!
