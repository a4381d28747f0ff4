use ical_merger::document::{Calendar, Component, Property};
use ical_merger::modification::{apply_all, ComponentModification};
use ical_merger::names::matches_any;
use ical_merger::template::render;

fn text(s: &str) -> String {
    s.to_string()
}

fn names(list: &[&str]) -> Vec<String> {
    list.iter().map(|s| s.to_string()).collect()
}

fn property(name: &str, value: &str) -> Property {
    Property::new(text(name), text(value))
}

fn component(object_type: &str, properties: Vec<Property>, sub_objects: Vec<Component>) -> Component {
    Component { object_type: text(object_type), properties, sub_objects }
}

fn event(summary: &str) -> Component {
    component(
        "VEVENT",
        vec![property("SUMMARY", summary), property("LOCATION", "Room 1"), property("UID", "1")],
        vec![component("VALARM", vec![property("ACTION", "DISPLAY"), property("LOCATION", "x")], vec![])],
    )
}

fn sample() -> Component {
    component(
        "VCALENDAR",
        vec![
            property("PRODID", "upstream"),
            property("X-WR-CALNAME", "Work"),
            property("version", "2.0"),
            property("ATTENDEE", "a"),
            property("Attendee", "b"),
        ],
        vec![
            event("one"),
            component("VALARM", vec![property("LOCATION", "hall")], vec![]),
            component("vevent", vec![property("location", "Room 2")], vec![]),
            component("VTODO", vec![property("LOCATION", "desk")], vec![]),
        ],
    )
}

fn property_names(c: &Component) -> Vec<String> {
    c.properties.iter().map(|p| p.name.clone()).collect()
}

fn types(c: &Component) -> Vec<String> {
    c.sub_objects.iter().map(|s| s.object_type.clone()).collect()
}

#[test]
fn names_match_without_regard_to_ascii_case() {
    assert!(matches_any(&names(&["summary"]), "SUMMARY"));
    assert!(matches_any(&names(&["A", "SuMmArY"]), "sUmMaRy"));
    assert!(!matches_any(&names(&["SUMMARY"]), "SUMMARX"));
    assert!(!matches_any(&names(&["SUMMARY"]), "SUMMAR"));
    assert!(!matches_any(&names(&[]), "SUMMARY"));
    assert!(matches_any(&names(&[""]), ""));
    // Only ASCII letters are folded.
    assert!(!matches_any(&names(&["\u{e4}"]), "\u{c4}"));
    assert!(!matches_any(&names(&["@"]), "`"));
    assert!(!matches_any(&names(&["["]), "{"));
}

#[test]
fn template_takes_the_value_at_each_placeholder() {
    assert_eq!(render("[Uni] {{ value }}", "Lecture"), "[Uni] Lecture");
    assert_eq!(render("{{ value }}", "x"), "x");
    assert_eq!(render("{{ value }}{{ value }}", "ab"), "abab");
    assert_eq!(render("<{{ value }}|{{ value }}>", ""), "<|>");
    assert_eq!(render("nothing to fill", "x"), "nothing to fill");
    assert_eq!(render("", "x"), "");
    // Only the exact placeholder counts, and a value is not rendered again.
    assert_eq!(render("{{value}} {{ value }", "x"), "{{value}} {{ value }");
    assert_eq!(render("{{{ value }}}", "x"), "{x}");
    assert_eq!(render("{{ value }}", "{{ value }}"), "{{ value }}");
    assert_eq!(render("a {{ value }} b", "\u{e9}\u{1f600}"), "a \u{e9}\u{1f600} b");
}

#[test]
fn keep_properties_retains_matching_names_in_order() {
    let m = ComponentModification::KeepPropertiesIfNameIn(names(&["attendee", "VERSION"]));
    let out = m.apply_component(sample()).ok().unwrap();
    assert_eq!(property_names(&out), names(&["version", "ATTENDEE", "Attendee"]));
    assert_eq!(out.properties[1].value, "a");
    assert_eq!(out.properties[2].value, "b");
    assert_eq!(out.object_type, "VCALENDAR");
    assert_eq!(out.sub_objects, sample().sub_objects);
}

#[test]
fn remove_properties_drops_matching_names_in_order() {
    let m = ComponentModification::RemovePropertiesIfNameIn(names(&["attendee", "VERSION"]));
    let out = m.apply_component(sample()).ok().unwrap();
    assert_eq!(property_names(&out), names(&["PRODID", "X-WR-CALNAME"]));
    assert_eq!(out.sub_objects, sample().sub_objects);
}

#[test]
fn keep_and_remove_share_out_the_properties() {
    let list = names(&["prodid", "ATTENDEE", "NOPE"]);
    let kept = ComponentModification::KeepPropertiesIfNameIn(list.clone())
        .apply_component(sample())
        .ok()
        .unwrap();
    let dropped = ComponentModification::RemovePropertiesIfNameIn(list)
        .apply_component(sample())
        .ok()
        .unwrap();
    assert_eq!(kept.properties.len() + dropped.properties.len(), sample().properties.len());
    for p in sample().properties {
        let in_kept = kept.properties.contains(&p);
        let in_dropped = dropped.properties.contains(&p);
        assert!(in_kept != in_dropped);
    }
    assert_eq!(property_names(&kept), names(&["PRODID", "ATTENDEE", "Attendee"]));
    assert_eq!(property_names(&dropped), names(&["X-WR-CALNAME", "version"]));
}

#[test]
fn selection_with_no_names() {
    let keep = ComponentModification::KeepPropertiesIfNameIn(vec![]);
    assert!(keep.apply_component(sample()).ok().unwrap().properties.is_empty());
    let remove = ComponentModification::RemovePropertiesIfNameIn(vec![]);
    assert_eq!(remove.apply_component(sample()).ok().unwrap(), sample());
    let keep = ComponentModification::KeepComponentsIfNameIn(vec![]);
    assert!(keep.apply_component(sample()).ok().unwrap().sub_objects.is_empty());
    let remove = ComponentModification::RemoveComponentsIfNameIn(vec![]);
    assert_eq!(remove.apply_component(sample()).ok().unwrap(), sample());
}

#[test]
fn keep_components_retains_matching_types_in_order() {
    let m = ComponentModification::KeepComponentsIfNameIn(names(&["VEVENT", "vtodo"]));
    let out = m.apply_component(sample()).ok().unwrap();
    assert_eq!(types(&out), names(&["VEVENT", "vevent", "VTODO"]));
    assert_eq!(out.sub_objects[0], event("one"));
    assert_eq!(out.properties, sample().properties);
}

#[test]
fn remove_components_drops_matching_types_in_order() {
    let m = ComponentModification::RemoveComponentsIfNameIn(names(&["VEVENT"]));
    let out = m.apply_component(sample()).ok().unwrap();
    assert_eq!(types(&out), names(&["VALARM", "VTODO"]));
    assert_eq!(out.properties, sample().properties);
}

#[test]
fn selection_does_not_descend() {
    // The alarm inside the event stays, though alarms are removed.
    let m = ComponentModification::RemoveComponentsIfNameIn(names(&["VALARM"]));
    let out = m.apply_component(sample()).ok().unwrap();
    assert_eq!(types(&out), names(&["VEVENT", "vevent", "VTODO"]));
    assert_eq!(out.sub_objects[0].sub_objects.len(), 1);
    // The location inside the event stays, though locations are removed.
    let m = ComponentModification::RemovePropertiesIfNameIn(names(&["LOCATION", "PRODID"]));
    let out = m.apply_component(sample()).ok().unwrap();
    assert_eq!(out.sub_objects, sample().sub_objects);
    assert_eq!(out.properties.len(), 4);
}

#[test]
fn replace_value_renders_the_template_for_matching_names_only() {
    let m = ComponentModification::ReplacePropertiesValueIfNameIs(
        text("attendee"),
        text("<{{ value }}>"),
    );
    let out = m.apply_component(sample()).ok().unwrap();
    assert_eq!(property_names(&out), property_names(&sample()));
    assert_eq!(out.properties[3].value, "<a>");
    assert_eq!(out.properties[4].value, "<b>");
    for i in 0..3 {
        assert_eq!(out.properties[i], sample().properties[i]);
    }
    assert_eq!(out.sub_objects, sample().sub_objects);
    assert_eq!(out.object_type, "VCALENDAR");
}

#[test]
fn replace_value_without_a_match_changes_nothing() {
    let m = ComponentModification::ReplacePropertiesValueIfNameIs(text("SUMMARY"), text("x"));
    assert_eq!(m.apply_component(sample()).ok().unwrap(), sample());
}

#[test]
fn replace_value_keeps_the_parameters() {
    let line: elikoga_ical_rs::ContentLine = "DTSTART;TZID=Europe/Berlin:20220101".parse().unwrap();
    let with_params = Property { name: line.name, params: line.params, value: line.value };
    assert_eq!(with_params.params.len(), 1);
    let c = component("VEVENT", vec![with_params.clone()], vec![]);
    let m = ComponentModification::ReplacePropertiesValueIfNameIs(text("dtstart"), text("{{ value }}T00"));
    let out = m.apply_component(c).ok().unwrap();
    assert_eq!(out.properties[0].name, "DTSTART");
    assert_eq!(out.properties[0].params, with_params.params);
    assert_eq!(out.properties[0].value, "20220101T00");
}

#[test]
fn insert_property_appends_and_keeps_duplicates() {
    let m = ComponentModification::InsertProperty(property("PRODID", "mine"));
    let once = m.apply_component(sample()).ok().unwrap();
    assert_eq!(once.properties.len(), 6);
    assert_eq!(once.properties[5], property("PRODID", "mine"));
    assert_eq!(once.properties[0], property("PRODID", "upstream"));
    let twice = m.apply_component(once).ok().unwrap();
    assert_eq!(twice.properties.len(), 7);
    assert_eq!(twice.properties[6], property("PRODID", "mine"));
    assert_eq!(twice.sub_objects, sample().sub_objects);
}

#[test]
fn modify_children_spares_alarms_and_strips_the_location_of_events() {
    let m = ComponentModification::ModifyComponentsIfNameIs(
        text("VEVENT"),
        vec![ComponentModification::RemovePropertiesIfNameIn(names(&["LOCATION"]))],
    );
    let out = m.apply_component(sample()).ok().unwrap();
    assert_eq!(types(&out), types(&sample()));
    // Every event has lost its location, whatever the case of its type.
    assert_eq!(property_names(&out.sub_objects[0]), names(&["SUMMARY", "UID"]));
    assert!(out.sub_objects[2].properties.is_empty());
    // The alarm and the to-do are as they were.
    assert_eq!(out.sub_objects[1], sample().sub_objects[1]);
    assert_eq!(out.sub_objects[3], sample().sub_objects[3]);
    // So is the alarm inside the event, and the calendar's own properties.
    assert_eq!(out.sub_objects[0].sub_objects, event("one").sub_objects);
    assert_eq!(out.properties, sample().properties);
}

#[test]
fn modify_children_applies_the_nested_list_in_order() {
    let m = ComponentModification::ModifyComponentsIfNameIs(
        text("vevent"),
        vec![
            ComponentModification::InsertProperty(property("SUMMARY", "added")),
            ComponentModification::ReplacePropertiesValueIfNameIs(text("SUMMARY"), text("[{{ value }}]")),
            ComponentModification::ModifyComponentsIfNameIs(
                text("VALARM"),
                vec![ComponentModification::KeepPropertiesIfNameIn(names(&["ACTION"]))],
            ),
        ],
    );
    let out = m.apply_component(sample()).ok().unwrap();
    let first = &out.sub_objects[0];
    assert_eq!(first.properties[0].value, "[one]");
    assert_eq!(first.properties[3], property("SUMMARY", "[added]"));
    assert_eq!(property_names(&first.sub_objects[0]), names(&["ACTION"]));
    let third = &out.sub_objects[2];
    assert_eq!(property_names(third), names(&["location", "SUMMARY"]));
    // The alarm next to the events is not one of their children.
    assert_eq!(out.sub_objects[1], sample().sub_objects[1]);
}

#[test]
fn modifications_apply_in_order() {
    let insert_then_remove = vec![
        ComponentModification::InsertProperty(property("X", "1")),
        ComponentModification::RemovePropertiesIfNameIn(names(&["x"])),
    ];
    let remove_then_insert = vec![
        ComponentModification::RemovePropertiesIfNameIn(names(&["x"])),
        ComponentModification::InsertProperty(property("X", "1")),
    ];
    let c = component("VEVENT", vec![property("x", "0")], vec![]);
    assert!(apply_all(&insert_then_remove, c.clone()).ok().unwrap().properties.is_empty());
    assert_eq!(apply_all(&remove_then_insert, c.clone()).ok().unwrap().properties, vec![property("X", "1")]);
    assert_eq!(apply_all(&vec![], c.clone()).ok().unwrap(), c);
}

#[test]
fn apply_and_apply_modifications_work_on_calendars() {
    let calendar = Calendar(sample());
    let m = ComponentModification::KeepComponentsIfNameIn(names(&["VTODO"]));
    let out = m.clone().apply(calendar.clone()).ok().unwrap();
    assert_eq!(types(&out.0), names(&["VTODO"]));
    let out = calendar
        .apply_modifications(vec![m, ComponentModification::KeepPropertiesIfNameIn(names(&["prodid"]))])
        .ok()
        .unwrap();
    assert_eq!(types(&out.0), names(&["VTODO"]));
    assert_eq!(property_names(&out.0), names(&["PRODID"]));
    // The calendar itself is untouched.
    assert_eq!(calendar, Calendar(sample()));
}

#[test]
fn copies_are_equal_to_what_they_were_made_from() {
    assert_eq!(sample().clone(), sample());
    assert_eq!(Calendar(sample()).clone(), Calendar(sample()));
    let m = ComponentModification::ModifyComponentsIfNameIs(
        text("VEVENT"),
        vec![
            ComponentModification::RemovePropertiesIfNameIn(names(&["LOCATION"])),
            ComponentModification::InsertProperty(property("A", "b")),
            ComponentModification::ReplacePropertiesValueIfNameIs(text("A"), text("{{ value }}")),
            ComponentModification::KeepComponentsIfNameIn(names(&["VALARM"])),
            ComponentModification::RemoveComponentsIfNameIn(names(&["X"])),
            ComponentModification::KeepPropertiesIfNameIn(names(&["Y", "Z"])),
        ],
    );
    assert_eq!(m.clone(), m);
}
