use ical_merger::document::{Calendar, Component, Property};
use ical_merger::error::CompositionError;

fn text(s: &str) -> String {
    s.to_string()
}

fn property(name: &str, value: &str) -> Property {
    Property::new(text(name), text(value))
}

fn calendar(object_type: &str, properties: Vec<Property>, sub_objects: Vec<Component>) -> Calendar {
    Calendar(Component { object_type: text(object_type), properties, sub_objects })
}

fn event(uid: &str) -> Component {
    Component { object_type: text("VEVENT"), properties: vec![property("UID", uid)], sub_objects: vec![] }
}

fn work() -> Calendar {
    calendar(
        "VCALENDAR",
        vec![
            property("PRODID", "upstream"),
            property("Version", "2.0"),
            property("X-WR-CALNAME", "Work"),
            property("calscale", "GREGORIAN"),
            property("METHOD", "PUBLISH"),
            property("X-WR-TIMEZONE", "UTC"),
        ],
        vec![event("w1"), event("w2")],
    )
}

fn home() -> Calendar {
    calendar("vcalendar", vec![property("X-WR-CALNAME", "Home")], vec![event("h1")])
}

#[test]
fn merge_of_nothing_is_an_identified_calendar() {
    let merged = Calendar::merge_calendars(vec![]).ok().unwrap();
    assert_eq!(
        merged,
        calendar("VCALENDAR", vec![property("PRODID", "ICal Merger"), property("VERSION", "2.0")], vec![])
    );
}

#[test]
fn identification_is_what_the_parser_reads_from_its_lines() {
    let merged = Calendar::merge_calendars(vec![]).ok().unwrap();
    let prodid: elikoga_ical_rs::ContentLine = "PRODID:ICal Merger".parse().unwrap();
    let version: elikoga_ical_rs::ContentLine = "VERSION:2.0".parse().unwrap();
    for (property, line) in merged.0.properties.iter().zip([prodid, version]) {
        assert_eq!(property.name, line.name);
        assert_eq!(property.params, line.params);
        assert_eq!(property.value, line.value);
    }
}

#[test]
fn merge_concatenates_in_order_and_strips_the_producers_properties() {
    let merged = Calendar::merge_calendars(vec![work(), home()]).ok().unwrap();
    assert_eq!(
        merged,
        calendar(
            "VCALENDAR",
            vec![
                property("X-WR-CALNAME", "Work"),
                property("X-WR-TIMEZONE", "UTC"),
                property("X-WR-CALNAME", "Home"),
                property("PRODID", "ICal Merger"),
                property("VERSION", "2.0"),
            ],
            vec![event("w1"), event("w2"), event("h1")],
        )
    );
    let other_way = Calendar::merge_calendars(vec![home(), work()]).ok().unwrap();
    assert_eq!(other_way.0.sub_objects, vec![event("h1"), event("w1"), event("w2")]);
    assert_eq!(other_way.0.properties[0], property("X-WR-CALNAME", "Home"));
}

#[test]
fn merge_of_a_calendar_with_itself_doubles_it() {
    let a = work();
    let merged = Calendar::merge_calendars(vec![a.clone(), a.clone()]).ok().unwrap();
    assert_eq!(merged.0.sub_objects.len(), 2 * a.0.sub_objects.len());
    // Four of the six properties are stripped.
    assert_eq!(merged.0.properties.len(), 2 * (a.0.properties.len() - 4) + 2);
    assert_eq!(merged.0.properties.len(), 6);
    assert_eq!(merged.0.sub_objects, vec![event("w1"), event("w2"), event("w1"), event("w2")]);
}

#[test]
fn merge_of_one_calendar() {
    let merged = Calendar::merge_calendars(vec![home()]).ok().unwrap();
    assert_eq!(merged.0.object_type, "VCALENDAR");
    assert_eq!(
        merged.0.properties,
        vec![property("X-WR-CALNAME", "Home"), property("PRODID", "ICal Merger"), property("VERSION", "2.0")]
    );
}

#[test]
fn merge_rejects_a_todo_list() {
    let todo = calendar("VTODO", vec![], vec![]);
    let result = Calendar::merge_calendars(vec![work(), todo, home()]);
    assert_eq!(
        result,
        Err(CompositionError::TypeMismatch { expected: text("VCALENDAR"), actual: text("VTODO") })
    );
}

#[test]
fn merge_names_the_first_foreign_type() {
    let result = Calendar::merge_calendars(vec![
        home(),
        calendar("VEVENT", vec![], vec![]),
        calendar("VTODO", vec![], vec![]),
    ]);
    assert_eq!(
        result,
        Err(CompositionError::TypeMismatch { expected: text("VCALENDAR"), actual: text("VEVENT") })
    );
    let result = Calendar::merge_calendars(vec![calendar("", vec![], vec![])]);
    assert_eq!(
        result,
        Err(CompositionError::TypeMismatch { expected: text("VCALENDAR"), actual: text("") })
    );
}

#[test]
fn merge_does_not_descend() {
    let nested = calendar(
        "VCALENDAR",
        vec![],
        vec![Component {
            object_type: text("VTODO"),
            properties: vec![property("PRODID", "kept"), property("VERSION", "kept")],
            sub_objects: vec![],
        }],
    );
    let merged = Calendar::merge_calendars(vec![nested.clone()]).ok().unwrap();
    assert_eq!(merged.0.sub_objects, nested.0.sub_objects);
}

#[test]
fn errors_describe_themselves() {
    let mismatch = CompositionError::TypeMismatch { expected: text("VCALENDAR"), actual: text("VTODO") };
    assert_eq!(mismatch.message(), "Calendar object type is not VCALENDAR, but VTODO");
    let fetch = CompositionError::Fetch { url: text("https://a/b.ics"), cause: text("timed out") };
    assert_eq!(fetch.message(), "timed out");
    let parse = CompositionError::Parse { source: text("https://a/b.ics"), cause: text("expected BEGIN") };
    assert_eq!(parse.message(), "expected BEGIN");
    assert_eq!(fetch.clone(), fetch);
    assert_eq!(parse.clone(), parse);
    assert_eq!(mismatch.clone(), mismatch);
}
