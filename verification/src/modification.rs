//! The modification engine: ordered, name-based edits of a component's
//! properties and nested components.

use vstd::prelude::*;
use crate::document::{
    component_views, lemma_component_view, property_views, Calendar, Component, ComponentView,
    Property, PropertyView,
};
use crate::error::CompositionError;
use crate::names::{eq_ignore_ascii_case, matches_any, name_in, names_match, text_views};
use crate::template::{render, rendered};

verus! {

/// One edit of a component. Names are matched without regard to ASCII case.
#[derive(Debug, PartialEq, Eq)]
pub enum ComponentModification {
    /// Keeps the direct properties whose name is in the list.
    KeepPropertiesIfNameIn(Vec<String>),
    /// Drops the direct properties whose name is in the list.
    RemovePropertiesIfNameIn(Vec<String>),
    /// Gives each direct property of that name the value that the template
    /// yields for its current value.
    ReplacePropertiesValueIfNameIs(String, String),
    /// Appends a property.
    InsertProperty(Property),
    /// Keeps the direct sub-components whose type is in the list.
    KeepComponentsIfNameIn(Vec<String>),
    /// Drops the direct sub-components whose type is in the list.
    RemoveComponentsIfNameIn(Vec<String>),
    /// Applies the nested edits, in order, to each direct sub-component of
    /// that type.
    ModifyComponentsIfNameIs(String, Vec<ComponentModification>),
}

/// What a [`ComponentModification`] stands for in contracts.
pub enum ModificationView {
    KeepPropertiesIfNameIn(Seq<Seq<char>>),
    RemovePropertiesIfNameIn(Seq<Seq<char>>),
    ReplacePropertiesValueIfNameIs(Seq<char>, Seq<char>),
    InsertProperty(PropertyView),
    KeepComponentsIfNameIn(Seq<Seq<char>>),
    RemoveComponentsIfNameIn(Seq<Seq<char>>),
    ModifyComponentsIfNameIs(Seq<char>, Seq<ModificationView>),
}

impl View for ComponentModification {
    type V = ModificationView;

    open spec fn view(&self) -> ModificationView {
        modification_view(*self)
    }
}

/// The value of a modification: its names and texts and, recursively, the
/// values of its nested modifications.
pub open spec fn modification_view(m: ComponentModification) -> ModificationView
    decreases m,
{
    match m {
        ComponentModification::KeepPropertiesIfNameIn(names) =>
            ModificationView::KeepPropertiesIfNameIn(text_views(names@)),
        ComponentModification::RemovePropertiesIfNameIn(names) =>
            ModificationView::RemovePropertiesIfNameIn(text_views(names@)),
        ComponentModification::ReplacePropertiesValueIfNameIs(name, template) =>
            ModificationView::ReplacePropertiesValueIfNameIs(name@, template@),
        ComponentModification::InsertProperty(property) =>
            ModificationView::InsertProperty(property@),
        ComponentModification::KeepComponentsIfNameIn(names) =>
            ModificationView::KeepComponentsIfNameIn(text_views(names@)),
        ComponentModification::RemoveComponentsIfNameIn(names) =>
            ModificationView::RemoveComponentsIfNameIn(text_views(names@)),
        ComponentModification::ModifyComponentsIfNameIs(name, nested) =>
            ModificationView::ModifyComponentsIfNameIs(
                name@,
                Seq::new(
                    nested@.len(),
                    |i: int|
                        if 0 <= i < nested@.len() {
                            modification_view(nested@[i])
                        } else {
                            arbitrary()
                        },
                ),
            ),
    }
}

/// A copy of a list of names.
fn clone_names(names: &Vec<String>) -> (r: Vec<String>)
    ensures
        text_views(r@) == text_views(names@),
{
    let mut out: Vec<String> = Vec::new();
    let mut i: usize = 0;
    while i < names.len()
        invariant
            i <= names.len(),
            out.len() == i,
            forall|j: int| 0 <= j < i ==> out@[j]@ == names@[j]@,
        decreases names.len() - i,
    {
        out.push(names[i].clone());
        i += 1;
    }
    out
}

/// A copy of a list of modifications.
pub(crate) fn clone_modifications(modifications: &Vec<ComponentModification>) -> (r: Vec<
    ComponentModification,
>)
    ensures
        modification_views(r@) == modification_views(modifications@),
    decreases modifications,
{
    let mut out: Vec<ComponentModification> = Vec::new();
    let mut i: usize = 0;
    while i < modifications.len()
        invariant
            i <= modifications.len(),
            out.len() == i,
            forall|j: int| 0 <= j < i ==> out@[j]@ == modifications@[j]@,
        decreases modifications.len() - i,
    {
        out.push(modifications[i].clone());
        i += 1;
    }
    out
}

impl Clone for ComponentModification {
    fn clone(&self) -> (r: ComponentModification)
        ensures
            r@ == self@,
        decreases self,
    {
        match self {
            ComponentModification::KeepPropertiesIfNameIn(names) =>
                ComponentModification::KeepPropertiesIfNameIn(clone_names(names)),
            ComponentModification::RemovePropertiesIfNameIn(names) =>
                ComponentModification::RemovePropertiesIfNameIn(clone_names(names)),
            ComponentModification::ReplacePropertiesValueIfNameIs(name, template) =>
                ComponentModification::ReplacePropertiesValueIfNameIs(
                    name.clone(),
                    template.clone(),
                ),
            ComponentModification::InsertProperty(property) =>
                ComponentModification::InsertProperty(property.clone()),
            ComponentModification::KeepComponentsIfNameIn(names) =>
                ComponentModification::KeepComponentsIfNameIn(clone_names(names)),
            ComponentModification::RemoveComponentsIfNameIn(names) =>
                ComponentModification::RemoveComponentsIfNameIn(clone_names(names)),
            ComponentModification::ModifyComponentsIfNameIs(name, nested) => {
                let copies = clone_modifications(nested);
                let copied_name = name.clone();
                proof {
                    lemma_nested_views(*name, *nested);
                    lemma_nested_views(copied_name, copies);
                }
                ComponentModification::ModifyComponentsIfNameIs(copied_name, copies)
            },
        }
    }
}

/// The values of a list of modifications, in order.
pub open spec fn modification_views(ms: Seq<ComponentModification>) -> Seq<ModificationView> {
    ms.map_values(|m: ComponentModification| m@)
}

/// The properties of `properties` whose name is in `names` (`keep`), or
/// those whose name is not (`!keep`), in their order.
pub open spec fn select_properties(
    properties: Seq<PropertyView>,
    names: Seq<Seq<char>>,
    keep: bool,
) -> Seq<PropertyView> {
    properties.filter(|p: PropertyView| name_in(names, p.name) == keep)
}

/// The components of `components` whose type is in `names` (`keep`), or
/// those whose type is not (`!keep`), in their order.
pub open spec fn select_components(
    components: Seq<ComponentView>,
    names: Seq<Seq<char>>,
    keep: bool,
) -> Seq<ComponentView> {
    components.filter(|c: ComponentView| name_in(names, c.object_type) == keep)
}

/// A property after a value replacement for `name`: one of that name has
/// the rendered template for its value, any other is as it was.
pub open spec fn replaced(p: PropertyView, name: Seq<char>, template: Seq<char>) -> PropertyView {
    if names_match(p.name, name) {
        PropertyView { value: rendered(template, p.value), ..p }
    } else {
        p
    }
}

/// The component that one modification makes of `c`.
pub open spec fn modified(m: ModificationView, c: ComponentView) -> ComponentView
    decreases m, 0nat,
{
    match m {
        ModificationView::KeepPropertiesIfNameIn(names) => ComponentView {
            properties: select_properties(c.properties, names, true),
            ..c
        },
        ModificationView::RemovePropertiesIfNameIn(names) => ComponentView {
            properties: select_properties(c.properties, names, false),
            ..c
        },
        ModificationView::ReplacePropertiesValueIfNameIs(name, template) => ComponentView {
            properties: c.properties.map_values(|p: PropertyView| replaced(p, name, template)),
            ..c
        },
        ModificationView::InsertProperty(property) => ComponentView {
            properties: c.properties.push(property),
            ..c
        },
        ModificationView::KeepComponentsIfNameIn(names) => ComponentView {
            sub_objects: select_components(c.sub_objects, names, true),
            ..c
        },
        ModificationView::RemoveComponentsIfNameIn(names) => ComponentView {
            sub_objects: select_components(c.sub_objects, names, false),
            ..c
        },
        ModificationView::ModifyComponentsIfNameIs(name, nested) => ComponentView {
            sub_objects: c.sub_objects.map_values(
                |child: ComponentView| modified_child(name, nested, child),
            ),
            ..c
        },
    }
}

/// A sub-component after `ModifyComponentsIfNameIs(name, nested)`: one of
/// that type has gone through `nested`, any other is as it was.
pub open spec fn modified_child(
    name: Seq<char>,
    nested: Seq<ModificationView>,
    child: ComponentView,
) -> ComponentView
    decreases nested, 2nat,
{
    if names_match(child.object_type, name) {
        modified_by_all(nested, child)
    } else {
        child
    }
}

/// The component that a list of modifications makes of `c`, each one
/// working on what the one before it made.
pub open spec fn modified_by_all(ms: Seq<ModificationView>, c: ComponentView) -> ComponentView
    decreases ms, 1nat,
{
    if ms.len() == 0 {
        c
    } else {
        modified_by_all(ms.drop_first(), modified(ms[0], c))
    }
}

/// The nested modifications of `ModifyComponentsIfNameIs`, seen as values,
/// are the values of the list that it holds.
pub proof fn lemma_nested_views(name: String, nested: Vec<ComponentModification>)
    ensures
        ComponentModification::ModifyComponentsIfNameIs(name, nested)@
            == ModificationView::ModifyComponentsIfNameIs(name@, modification_views(nested@)),
{
    let m = ComponentModification::ModifyComponentsIfNameIs(name, nested);
    assert(m@->ModifyComponentsIfNameIs_1 =~= modification_views(nested@));
}

/// The properties whose name is in `names` (`keep`) or is not (`!keep`).
fn filter_properties(properties: &Vec<Property>, names: &Vec<String>, keep: bool) -> (r: Vec<
    Property,
>)
    ensures
        property_views(r@) == select_properties(
            property_views(properties@),
            text_views(names@),
            keep,
        ),
{
    let mut out: Vec<Property> = Vec::new();
    let mut i: usize = 0;
    let ghost pred = |p: PropertyView| name_in(text_views(names@), p.name) == keep;
    proof {
        reveal(Seq::filter);
    }
    while i < properties.len()
        invariant
            i <= properties.len(),
            pred == |p: PropertyView| name_in(text_views(names@), p.name) == keep,
            property_views(out@) == property_views(properties@.take(i as int)).filter(pred),
        decreases properties.len() - i,
    {
        let ghost before = property_views(properties@.take(i as int));
        let property = &properties[i];
        proof {
            before.lemma_filter_push(property@, pred);
            assert(property_views(properties@.take(i + 1)) =~= before.push(property@));
        }
        if matches_any(names, property.name.as_str()) == keep {
            out.push(property.clone());
        }
        i += 1;
    }
    assert(properties@.take(properties.len() as int) =~= properties@);
    out
}

/// The components whose type is in `names` (`keep`) or is not (`!keep`).
fn filter_components(components: &Vec<Component>, names: &Vec<String>, keep: bool) -> (r: Vec<
    Component,
>)
    ensures
        component_views(r@) == select_components(
            component_views(components@),
            text_views(names@),
            keep,
        ),
{
    let mut out: Vec<Component> = Vec::new();
    let mut i: usize = 0;
    let ghost pred = |c: ComponentView| name_in(text_views(names@), c.object_type) == keep;
    proof {
        reveal(Seq::filter);
    }
    while i < components.len()
        invariant
            i <= components.len(),
            pred == |c: ComponentView| name_in(text_views(names@), c.object_type) == keep,
            component_views(out@) == component_views(components@.take(i as int)).filter(pred),
        decreases components.len() - i,
    {
        let ghost before = component_views(components@.take(i as int));
        let component = &components[i];
        proof {
            before.lemma_filter_push(component@, pred);
            assert(component_views(components@.take(i + 1)) =~= before.push(component@));
        }
        if matches_any(names, component.object_type.as_str()) == keep {
            out.push(component.clone());
        }
        i += 1;
    }
    assert(components@.take(components.len() as int) =~= components@);
    out
}

/// The properties with the value of each one named `name` replaced by what
/// `template` yields for it.
fn replace_values(properties: &Vec<Property>, name: &String, template: &String) -> (r: Vec<
    Property,
>)
    ensures
        property_views(r@) == property_views(properties@).map_values(
            |p: PropertyView| replaced(p, name@, template@),
        ),
{
    let mut out: Vec<Property> = Vec::new();
    let mut i: usize = 0;
    while i < properties.len()
        invariant
            i <= properties.len(),
            out.len() == i,
            forall|j: int| 0 <= j < i ==> out@[j]@ == replaced(properties@[j]@, name@, template@),
        decreases properties.len() - i,
    {
        let property = &properties[i];
        if eq_ignore_ascii_case(property.name.as_str(), name.as_str()) {
            let mut changed = property.clone();
            changed.value = render(template.as_str(), property.value.as_str());
            out.push(changed);
        } else {
            out.push(property.clone());
        }
        i += 1;
    }
    out
}

impl ComponentModification {
    /// Applies the modification to a component.
    ///
    /// The result is always `Ok`: no modification can fail.
    pub fn apply_component(&self, calendar: Component) -> (r: Result<Component, CompositionError>)
        ensures
            r matches Ok(c) && c@ == modified(self@, calendar@),
        decreases self, 0nat,
    {
        match self {
            ComponentModification::InsertProperty(property) => {
                proof {
                    lemma_component_view(calendar);
                }
                let mut properties = calendar.properties;
                properties.push(property.clone());
                let c = Component {
                    object_type: calendar.object_type,
                    properties,
                    sub_objects: calendar.sub_objects,
                };
                proof {
                    lemma_component_view(c);
                    assert(property_views(c.properties@) =~= property_views(
                        calendar.properties@,
                    ).push(property@));
                }
                Ok(c)
            },
            ComponentModification::KeepComponentsIfNameIn(names) => {
                proof {
                    lemma_component_view(calendar);
                }
                let sub_objects = filter_components(&calendar.sub_objects, names, true);
                let c = Component {
                    object_type: calendar.object_type,
                    properties: calendar.properties,
                    sub_objects,
                };
                proof {
                    lemma_component_view(c);
                }
                Ok(c)
            },
            ComponentModification::KeepPropertiesIfNameIn(names) => {
                proof {
                    lemma_component_view(calendar);
                }
                let properties = filter_properties(&calendar.properties, names, true);
                let c = Component {
                    object_type: calendar.object_type,
                    properties,
                    sub_objects: calendar.sub_objects,
                };
                proof {
                    lemma_component_view(c);
                }
                Ok(c)
            },
            ComponentModification::ModifyComponentsIfNameIs(name, modifications) => {
                proof {
                    lemma_nested_views(*name, *modifications);
                    lemma_component_view(calendar);
                }
                let mut new_sub_objects: Vec<Component> = Vec::new();
                let mut i: usize = 0;
                while i < calendar.sub_objects.len()
                    invariant
                        decreases_to!(self => modifications),
                        i <= calendar.sub_objects.len(),
                        new_sub_objects.len() == i,
                        forall|j: int|
                            0 <= j < i ==> new_sub_objects@[j]@ == modified_child(
                                name@,
                                modification_views(modifications@),
                                calendar.sub_objects@[j]@,
                            ),
                    decreases calendar.sub_objects.len() - i,
                {
                    let sub_object = calendar.sub_objects[i].clone();
                    if eq_ignore_ascii_case(sub_object.object_type.as_str(), name.as_str()) {
                        let changed = apply_all(modifications, sub_object)?;
                        new_sub_objects.push(changed);
                    } else {
                        new_sub_objects.push(sub_object);
                    }
                    i += 1;
                }
                let c = Component {
                    object_type: calendar.object_type,
                    properties: calendar.properties,
                    sub_objects: new_sub_objects,
                };
                proof {
                    lemma_component_view(c);
                    assert(component_views(c.sub_objects@) =~= modified(
                        self@,
                        calendar@,
                    ).sub_objects);
                }
                Ok(c)
            },
            ComponentModification::RemoveComponentsIfNameIn(names) => {
                proof {
                    lemma_component_view(calendar);
                }
                let sub_objects = filter_components(&calendar.sub_objects, names, false);
                let c = Component {
                    object_type: calendar.object_type,
                    properties: calendar.properties,
                    sub_objects,
                };
                proof {
                    lemma_component_view(c);
                }
                Ok(c)
            },
            ComponentModification::RemovePropertiesIfNameIn(names) => {
                proof {
                    lemma_component_view(calendar);
                }
                let properties = filter_properties(&calendar.properties, names, false);
                let c = Component {
                    object_type: calendar.object_type,
                    properties,
                    sub_objects: calendar.sub_objects,
                };
                proof {
                    lemma_component_view(c);
                }
                Ok(c)
            },
            ComponentModification::ReplacePropertiesValueIfNameIs(name, replacement) => {
                proof {
                    lemma_component_view(calendar);
                }
                let properties = replace_values(&calendar.properties, name, replacement);
                let c = Component {
                    object_type: calendar.object_type,
                    properties,
                    sub_objects: calendar.sub_objects,
                };
                proof {
                    lemma_component_view(c);
                }
                Ok(c)
            },
        }
    }

    /// Applies the modification to a calendar.
    pub fn apply(self, calendar: Calendar) -> (r: Result<Calendar, CompositionError>)
        ensures
            r matches Ok(c) && c@ == modified(self@, calendar@),
    {
        let calendar = calendar.0;
        let calendar = self.apply_component(calendar)?;
        Ok(Calendar(calendar))
    }
}

/// Applies the modifications in order, each to what the one before it made.
pub fn apply_all(modifications: &Vec<ComponentModification>, component: Component) -> (r: Result<
    Component,
    CompositionError,
>)
    ensures
        r matches Ok(c) && c@ == modified_by_all(modification_views(modifications@), component@),
    decreases modifications, 1nat,
{
    let mut current = component;
    let mut i: usize = 0;
    assert(modification_views(modifications@).skip(0) =~= modification_views(modifications@));
    while i < modifications.len()
        invariant
            i <= modifications.len(),
            modified_by_all(modification_views(modifications@), component@) == modified_by_all(
                modification_views(modifications@).skip(i as int),
                current@,
            ),
        decreases modifications.len() - i,
    {
        let ghost rest = modification_views(modifications@).skip(i as int);
        proof {
            assert(rest.drop_first() =~= modification_views(modifications@).skip(i + 1));
        }
        current = modifications[i].apply_component(current)?;
        i += 1;
    }
    Ok(current)
}

/// No modification changes the type of the component it is applied to.
pub proof fn law_modification_keeps_type(ms: Seq<ModificationView>, c: ComponentView)
    ensures
        modified_by_all(ms, c).object_type == c.object_type,
        ms.len() > 0 ==> modified(ms[0], c).object_type == c.object_type,
    decreases ms.len(),
{
    if ms.len() > 0 {
        law_modification_keeps_type(ms.drop_first(), modified(ms[0], c));
    }
}

/// Whether the places `at` lead from each element of `a` to an equal
/// element of `b`, a later element to a later place.
pub open spec fn embeds<A>(a: Seq<A>, b: Seq<A>, at: Seq<int>) -> bool {
    &&& at.len() == a.len()
    &&& forall|i: int| 0 <= i < a.len() ==> 0 <= #[trigger] at[i] < b.len() && a[i] == b[at[i]]
    &&& forall|i: int, j: int| 0 <= i < j < a.len() ==> #[trigger] at[i] < #[trigger] at[j]
}

/// Whether `a` is what is left of `b` when some of its elements are taken
/// out: nothing added, nothing moved.
pub open spec fn is_subsequence<A>(a: Seq<A>, b: Seq<A>) -> bool {
    exists|at: Seq<int>| embeds(a, b, at)
}

/// What a filter lets through is a subsequence of what went in.
pub proof fn lemma_filter_is_subsequence<A>(s: Seq<A>, pred: spec_fn(A) -> bool)
    ensures
        is_subsequence(s.filter(pred), s),
    decreases s.len(),
{
    reveal(Seq::filter);
    if s.len() == 0 {
        assert(embeds(s.filter(pred), s, Seq::<int>::empty()));
    } else {
        let front = s.drop_last();
        lemma_filter_is_subsequence(front, pred);
        let at = choose|at: Seq<int>| embeds(front.filter(pred), front, at);
        if pred(s.last()) {
            let longer = at.push(s.len() - 1);
            assert(embeds(s.filter(pred), s, longer));
        } else {
            assert(embeds(s.filter(pred), s, at));
        }
    }
}

/// A filter and its opposite share out the elements between them: each
/// element goes to exactly one side, as often as it occurs.
pub proof fn lemma_filter_partitions<A>(s: Seq<A>, yes: spec_fn(A) -> bool, no: spec_fn(A) -> bool)
    requires
        forall|x: A| #[trigger] yes(x) == !no(x),
    ensures
        s.filter(yes).to_multiset().add(s.filter(no).to_multiset()) == s.to_multiset(),
        s.filter(yes).len() + s.filter(no).len() == s.len(),
    decreases s.len(),
{
    broadcast use {vstd::seq_lib::to_multiset_build, vstd::multiset::group_multiset_axioms};

    if s.len() == 0 {
        reveal(Seq::filter);
        s.to_multiset_ensures();
    } else {
        let front = s.drop_last();
        let x = s.last();
        lemma_filter_partitions(front, yes, no);
        assert(s =~= front.push(x));
        front.lemma_filter_push(x, yes);
        front.lemma_filter_push(x, no);
    }
}

/// Keeping or removing by name never reorders and never adds: the
/// properties, or the sub-components, that come out are a subsequence of
/// those that went in, and nothing else of the component changes.
pub proof fn law_selection_yields_subsequence(c: ComponentView, names: Seq<Seq<char>>)
    ensures
        is_subsequence(
            modified(ModificationView::KeepPropertiesIfNameIn(names), c).properties,
            c.properties,
        ),
        is_subsequence(
            modified(ModificationView::RemovePropertiesIfNameIn(names), c).properties,
            c.properties,
        ),
        is_subsequence(
            modified(ModificationView::KeepComponentsIfNameIn(names), c).sub_objects,
            c.sub_objects,
        ),
        is_subsequence(
            modified(ModificationView::RemoveComponentsIfNameIn(names), c).sub_objects,
            c.sub_objects,
        ),
{
    lemma_filter_is_subsequence(
        c.properties,
        |p: PropertyView| name_in(names, p.name) == true,
    );
    lemma_filter_is_subsequence(
        c.properties,
        |p: PropertyView| name_in(names, p.name) == false,
    );
    lemma_filter_is_subsequence(
        c.sub_objects,
        |s: ComponentView| name_in(names, s.object_type) == true,
    );
    lemma_filter_is_subsequence(
        c.sub_objects,
        |s: ComponentView| name_in(names, s.object_type) == false,
    );
}

/// Keeping and removing by the same names share out a component's
/// properties: together they are the ones that went in, each as often as it
/// occurred, and no property is on both sides. The same holds of its
/// sub-components.
pub proof fn law_keep_and_remove_partition(c: ComponentView, names: Seq<Seq<char>>)
    ensures
        ({
            let kept = modified(ModificationView::KeepPropertiesIfNameIn(names), c).properties;
            let dropped = modified(ModificationView::RemovePropertiesIfNameIn(names), c).properties;
            &&& kept.to_multiset().add(dropped.to_multiset()) == c.properties.to_multiset()
            &&& kept.len() + dropped.len() == c.properties.len()
            &&& forall|p: PropertyView| !(kept.contains(p) && dropped.contains(p))
        }),
        ({
            let kept = modified(ModificationView::KeepComponentsIfNameIn(names), c).sub_objects;
            let dropped = modified(ModificationView::RemoveComponentsIfNameIn(names), c).sub_objects;
            &&& kept.to_multiset().add(dropped.to_multiset()) == c.sub_objects.to_multiset()
            &&& kept.len() + dropped.len() == c.sub_objects.len()
            &&& forall|s: ComponentView| !(kept.contains(s) && dropped.contains(s))
        }),
{
    broadcast use vstd::seq_lib::group_filter_ensures;

    let keep_p = |p: PropertyView| name_in(names, p.name) == true;
    let drop_p = |p: PropertyView| name_in(names, p.name) == false;
    lemma_filter_partitions(c.properties, keep_p, drop_p);
    let kept = c.properties.filter(keep_p);
    let dropped = c.properties.filter(drop_p);
    assert forall|p: PropertyView| !(kept.contains(p) && dropped.contains(p)) by {
        if kept.contains(p) && dropped.contains(p) {
            let i = choose|i: int| 0 <= i < kept.len() && kept[i] == p;
            let j = choose|j: int| 0 <= j < dropped.len() && dropped[j] == p;
        }
    }
    let keep_s = |s: ComponentView| name_in(names, s.object_type) == true;
    let drop_s = |s: ComponentView| name_in(names, s.object_type) == false;
    lemma_filter_partitions(c.sub_objects, keep_s, drop_s);
    let kept_s = c.sub_objects.filter(keep_s);
    let dropped_s = c.sub_objects.filter(drop_s);
    assert forall|s: ComponentView| !(kept_s.contains(s) && dropped_s.contains(s)) by {
        if kept_s.contains(s) && dropped_s.contains(s) {
            let i = choose|i: int| 0 <= i < kept_s.len() && kept_s[i] == s;
            let j = choose|j: int| 0 <= j < dropped_s.len() && dropped_s[j] == s;
        }
    }
}

/// After a removal by name no property of a removed name is left, and
/// after a keeping by name every property has a kept name.
pub proof fn law_selection_decides_by_name(c: ComponentView, names: Seq<Seq<char>>, i: int)
    ensures
        ({
            let left = modified(ModificationView::RemovePropertiesIfNameIn(names), c).properties;
            0 <= i < left.len() ==> !name_in(names, left[i].name)
        }),
        ({
            let left = modified(ModificationView::KeepPropertiesIfNameIn(names), c).properties;
            0 <= i < left.len() ==> name_in(names, left[i].name)
        }),
{
    broadcast use vstd::seq_lib::group_filter_ensures;

}

/// A value replacement leaves every property of another name as it was,
/// and with it the number and order of the properties, the component's
/// type and its sub-components.
pub proof fn law_replacement_spares_other_names(
    c: ComponentView,
    name: Seq<char>,
    template: Seq<char>,
)
    ensures
        ({
            let out = modified(ModificationView::ReplacePropertiesValueIfNameIs(name, template), c);
            &&& out.object_type == c.object_type
            &&& out.sub_objects == c.sub_objects
            &&& out.properties.len() == c.properties.len()
            &&& forall|i: int|
                0 <= i < c.properties.len() && !names_match(c.properties[i].name, name)
                    ==> #[trigger] out.properties[i] == c.properties[i]
            &&& forall|i: int|
                0 <= i < c.properties.len() && names_match(c.properties[i].name, name)
                    ==> #[trigger] out.properties[i] == (PropertyView {
                    value: rendered(template, c.properties[i].value),
                    ..c.properties[i]
                })
        }),
{
}

/// A modification of sub-components by type leaves every sub-component of
/// another type as it was, puts each one of that type through the nested
/// modifications, and changes nothing else of the component.
pub proof fn law_nested_modification_spares_other_types(
    c: ComponentView,
    name: Seq<char>,
    nested: Seq<ModificationView>,
)
    ensures
        ({
            let out = modified(ModificationView::ModifyComponentsIfNameIs(name, nested), c);
            &&& out.object_type == c.object_type
            &&& out.properties == c.properties
            &&& out.sub_objects.len() == c.sub_objects.len()
            &&& forall|i: int|
                0 <= i < c.sub_objects.len() && !names_match(c.sub_objects[i].object_type, name)
                    ==> #[trigger] out.sub_objects[i] == c.sub_objects[i]
            &&& forall|i: int|
                0 <= i < c.sub_objects.len() && names_match(c.sub_objects[i].object_type, name)
                    ==> #[trigger] out.sub_objects[i] == modified_by_all(nested, c.sub_objects[i])
        }),
{
}

/// Only a modification of sub-components reaches below the component it is
/// applied to: every other one hands the sub-components on, each as it was
/// or not at all.
pub proof fn law_only_nested_modification_descends(m: ModificationView, c: ComponentView)
    requires
        !(m is ModifyComponentsIfNameIs),
    ensures
        is_subsequence(modified(m, c).sub_objects, c.sub_objects),
{
    match m {
        ModificationView::KeepComponentsIfNameIn(names) => {
            law_selection_yields_subsequence(c, names);
        },
        ModificationView::RemoveComponentsIfNameIn(names) => {
            law_selection_yields_subsequence(c, names);
        },
        _ => {
            assert(embeds(
                c.sub_objects,
                c.sub_objects,
                Seq::new(c.sub_objects.len(), |i: int| i),
            ));
        },
    }
}

} // verus!
