//! Calendar documents: components, their properties, and the mathematical
//! values that contracts speak of.

use vstd::prelude::*;

verus! {

/// A property parameter as `elikoga_ical_rs` holds it. The library never
/// looks inside one: parameters travel with their property untouched.
#[verifier::external_type_specification]
#[verifier::external_body]
pub struct ExParam(elikoga_ical_rs::Param);

/// One `NAME;params:VALUE` entry of a component.
#[derive(Debug, PartialEq, Eq)]
pub struct Property {
    pub name: String,
    pub params: Vec<elikoga_ical_rs::Param>,
    pub value: String,
}

/// What a [`Property`] stands for in contracts.
pub struct PropertyView {
    pub name: Seq<char>,
    pub params: Seq<elikoga_ical_rs::Param>,
    pub value: Seq<char>,
}

impl View for Property {
    type V = PropertyView;

    open spec fn view(&self) -> PropertyView {
        PropertyView { name: self.name@, params: self.params@, value: self.value@ }
    }
}

/// A named block of properties and nested components.
#[derive(Debug, PartialEq, Eq)]
pub struct Component {
    pub object_type: String,
    pub properties: Vec<Property>,
    pub sub_objects: Vec<Component>,
}

/// What a [`Component`] stands for in contracts.
pub struct ComponentView {
    pub object_type: Seq<char>,
    pub properties: Seq<PropertyView>,
    pub sub_objects: Seq<ComponentView>,
}

impl View for Component {
    type V = ComponentView;

    open spec fn view(&self) -> ComponentView {
        component_view(*self)
    }
}

/// The value of a component: its own fields and, recursively, the values of
/// its nested components.
pub open spec fn component_view(c: Component) -> ComponentView
    decreases c,
{
    ComponentView {
        object_type: c.object_type@,
        properties: property_views(c.properties@),
        sub_objects: Seq::new(
            c.sub_objects@.len(),
            |i: int|
                if 0 <= i < c.sub_objects@.len() {
                    component_view(c.sub_objects@[i])
                } else {
                    arbitrary()
                },
        ),
    }
}

/// The values of a list of properties, in order.
pub open spec fn property_views(properties: Seq<Property>) -> Seq<PropertyView> {
    properties.map_values(|p: Property| p@)
}

/// The values of a list of components, in order.
pub open spec fn component_views(components: Seq<Component>) -> Seq<ComponentView> {
    components.map_values(|c: Component| c@)
}

/// The value of a component, field by field.
pub proof fn lemma_component_view(c: Component)
    ensures
        c@ == (ComponentView {
            object_type: c.object_type@,
            properties: property_views(c.properties@),
            sub_objects: component_views(c.sub_objects@),
        }),
{
    assert(c@.sub_objects =~= component_views(c.sub_objects@));
}

/// `Clone` of a parameter list of `elikoga_ical_rs`, whose derived impl
/// copies each parameter field by field: the copy equals what it was made
/// from.
#[verifier::external_body]
fn clone_params(params: &Vec<elikoga_ical_rs::Param>) -> (r: Vec<elikoga_ical_rs::Param>)
    ensures
        r@ == params@,
{
    params.clone()
}

impl Property {
    /// A property without parameters.
    pub fn new(name: String, value: String) -> (r: Property)
        ensures
            r@ == (PropertyView { name: name@, params: Seq::empty(), value: value@ }),
    {
        Property { name, params: Vec::new(), value }
    }
}

impl Clone for Property {
    fn clone(&self) -> (r: Property)
        ensures
            r@ == self@,
    {
        Property {
            name: self.name.clone(),
            params: clone_params(&self.params),
            value: self.value.clone(),
        }
    }
}

/// A copy of a list of properties.
fn clone_properties(properties: &Vec<Property>) -> (r: Vec<Property>)
    ensures
        property_views(r@) == property_views(properties@),
{
    let mut out: Vec<Property> = Vec::new();
    let mut i: usize = 0;
    while i < properties.len()
        invariant
            i <= properties.len(),
            out.len() == i,
            forall|j: int| 0 <= j < i ==> out@[j]@ == properties@[j]@,
        decreases properties.len() - i,
    {
        out.push(properties[i].clone());
        i += 1;
    }
    out
}

impl Clone for Component {
    fn clone(&self) -> (r: Component)
        ensures
            r@ == self@,
        decreases self,
    {
        let mut subs: Vec<Component> = Vec::new();
        let mut i: usize = 0;
        while i < self.sub_objects.len()
            invariant
                i <= self.sub_objects.len(),
                subs.len() == i,
                forall|j: int| 0 <= j < i ==> subs@[j]@ == self.sub_objects@[j]@,
            decreases self.sub_objects.len() - i,
        {
            subs.push(self.sub_objects[i].clone());
            i += 1;
        }
        let r = Component {
            object_type: self.object_type.clone(),
            properties: clone_properties(&self.properties),
            sub_objects: subs,
        };
        proof {
            lemma_component_view(r);
            lemma_component_view(*self);
            assert(component_views(r.sub_objects@) =~= component_views(self.sub_objects@));
        }
        r
    }
}

/// A calendar document: a component that stands at the top level.
#[derive(Debug, PartialEq, Eq)]
pub struct Calendar(pub Component);

impl View for Calendar {
    type V = ComponentView;

    open spec fn view(&self) -> ComponentView {
        self.0@
    }
}

impl Clone for Calendar {
    fn clone(&self) -> (r: Calendar)
        ensures
            r@ == self@,
    {
        Calendar(self.0.clone())
    }
}

} // verus!
