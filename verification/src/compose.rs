//! The composition engine: merging calendars and evaluating a
//! configuration tree over the documents that its sources returned.

use vstd::prelude::*;
use vstd::string::StringExecFns;
use crate::config::{
    config_views, leaf_count, leaf_count_all, lemma_merge_view, CalendarConfig, ConfigView,
};
use crate::document::{
    component_views, lemma_component_view, property_views, Calendar, Component, ComponentView,
    Property, PropertyView,
};
use crate::error::{CompositionError, ErrorView};
use crate::ical::{read, reading_view};
use crate::modification::{
    apply_all, law_modification_keeps_type, modification_views, modified_by_all,
    select_properties, ComponentModification, ModificationView,
};
use crate::names::{eq_ignore_ascii_case, names_match};

verus! {

/// The type of a calendar document.
pub open spec fn calendar_type() -> Seq<char> {
    "VCALENDAR"@
}

/// Whether a component is a calendar document.
pub open spec fn is_calendar(c: ComponentView) -> bool {
    names_match(c.object_type, calendar_type())
}

/// The properties that identify the producer of a document. A merge drops
/// them from every document it takes in.
pub open spec fn stripped_names() -> Seq<Seq<char>> {
    seq!["PRODID"@, "VERSION"@, "CALSCALE"@, "METHOD"@]
}

/// The properties of a document that a merge takes over.
pub open spec fn surviving_properties(c: ComponentView) -> Seq<PropertyView> {
    select_properties(c.properties, stripped_names(), false)
}

/// The properties that identify a merged document.
pub open spec fn identification() -> Seq<PropertyView> {
    seq![
        PropertyView { name: "PRODID"@, params: Seq::empty(), value: "ICal Merger"@ },
        PropertyView { name: "VERSION"@, params: Seq::empty(), value: "2.0"@ },
    ]
}

/// The surviving properties of all the documents, in the documents' order.
pub open spec fn merged_properties(cs: Seq<ComponentView>) -> Seq<PropertyView>
    decreases cs.len(),
{
    if cs.len() == 0 {
        Seq::empty()
    } else {
        merged_properties(cs.drop_last()) + surviving_properties(cs.last())
    }
}

/// The sub-components of all the documents, in the documents' order.
pub open spec fn merged_sub_objects(cs: Seq<ComponentView>) -> Seq<ComponentView>
    decreases cs.len(),
{
    if cs.len() == 0 {
        Seq::empty()
    } else {
        merged_sub_objects(cs.drop_last()) + cs.last().sub_objects
    }
}

/// Whether `i` is the place of the first document that is not a calendar.
pub open spec fn is_first_foreign(cs: Seq<ComponentView>, i: int) -> bool {
    &&& 0 <= i < cs.len()
    &&& !is_calendar(cs[i])
    &&& forall|j: int| 0 <= j < i ==> is_calendar(#[trigger] cs[j])
}

/// What a merge of the documents yields: the mismatch of the first one that
/// is not a calendar, or else one calendar with the surviving properties of
/// all, then the identification, and the sub-components of all.
pub open spec fn merged(cs: Seq<ComponentView>) -> Result<ComponentView, ErrorView> {
    if exists|i: int| is_first_foreign(cs, i) {
        let i = choose|i: int| is_first_foreign(cs, i);
        Err(ErrorView::TypeMismatch { expected: calendar_type(), actual: cs[i].object_type })
    } else {
        Ok(
            ComponentView {
                object_type: calendar_type(),
                properties: merged_properties(cs) + identification(),
                sub_objects: merged_sub_objects(cs),
            },
        )
    }
}

/// The values of a list of calendars, in order.
pub open spec fn calendar_views(cs: Seq<Calendar>) -> Seq<ComponentView> {
    cs.map_values(|c: Calendar| c@)
}

/// What the result of a composition stands for in contracts.
pub open spec fn outcome_view(r: Result<Calendar, CompositionError>) -> Result<
    ComponentView,
    ErrorView,
> {
    match r {
        Ok(c) => Ok(c@),
        Err(e) => Err(e@),
    }
}

/// The values of a list of results, in order.
pub open spec fn outcome_views(rs: Seq<Result<Calendar, CompositionError>>) -> Seq<
    Result<ComponentView, ErrorView>,
> {
    rs.map_values(|r: Result<Calendar, CompositionError>| outcome_view(r))
}

/// How far an evaluation has come.
pub enum Progress<T> {
    /// It is complete, with this value.
    Ready(T),
    /// It has failed, with this error.
    Failed(ErrorView),
    /// It needs the document of the source at this address.
    Fetch(Seq<char>),
}

/// The evaluation of a configuration tree over `leaves`, the results that
/// its sources gave, in the order in which the tree names them and starting
/// with the one at `from`; and the place of the first result not used.
///
/// A source yields its result, or a request where there is none yet. A
/// modification works on what its child yields. A merge evaluates all its
/// children first. Whatever is not a value ends the evaluation there.
pub open spec fn evaluated(
    config: ConfigView,
    leaves: Seq<Result<ComponentView, ErrorView>>,
    from: nat,
) -> (Progress<ComponentView>, nat)
    decreases config, 1nat,
{
    match config {
        ConfigView::FetchCalendar(url) => if from < leaves.len() {
            (
                match leaves[from as int] {
                    Ok(c) => Progress::Ready(c),
                    Err(e) => Progress::Failed(e),
                },
                from + 1,
            )
        } else {
            (Progress::Fetch(url), from)
        },
        ConfigView::ModifyCalendar(child, modifications) => {
            let (progress, next) = evaluated(*child, leaves, from);
            (
                match progress {
                    Progress::Ready(c) => Progress::Ready(modified_by_all(modifications, c)),
                    Progress::Failed(e) => Progress::Failed(e),
                    Progress::Fetch(url) => Progress::Fetch(url),
                },
                next,
            )
        },
        ConfigView::MergeCalendars(children) => {
            let (progress, next) = evaluated_all(children, leaves, from);
            (
                match progress {
                    Progress::Ready(cs) => match merged(cs) {
                        Ok(c) => Progress::Ready(c),
                        Err(e) => Progress::Failed(e),
                    },
                    Progress::Failed(e) => Progress::Failed(e),
                    Progress::Fetch(url) => Progress::Fetch(url),
                },
                next,
            )
        },
    }
}

/// The evaluation of a list of configuration trees, one after the other:
/// the documents of all, or what ended the first evaluation that did not
/// yield one.
pub open spec fn evaluated_all(
    configs: Seq<ConfigView>,
    leaves: Seq<Result<ComponentView, ErrorView>>,
    from: nat,
) -> (Progress<Seq<ComponentView>>, nat)
    decreases configs, 0nat,
{
    if configs.len() == 0 {
        (Progress::Ready(Seq::empty()), from)
    } else {
        let (earlier, middle) = evaluated_all(configs.drop_last(), leaves, from);
        match earlier {
            Progress::Ready(cs) => {
                let (progress, next) = evaluated(configs.last(), leaves, middle);
                (
                    match progress {
                        Progress::Ready(c) => Progress::Ready(cs.push(c)),
                        Progress::Failed(e) => Progress::Failed(e),
                        Progress::Fetch(url) => Progress::Fetch(url),
                    },
                    next,
                )
            },
            Progress::Failed(e) => (Progress::Failed(e), middle),
            Progress::Fetch(url) => (Progress::Fetch(url), middle),
        }
    }
}

/// What the answer of the source at `url` makes of a leaf: the document
/// that was read from what it sent, or else the failure to read it, or the
/// failure to retrieve it.
pub open spec fn leaf_outcome(
    url: Seq<char>,
    answer: Result<Result<ComponentView, Seq<char>>, Seq<char>>,
) -> Result<ComponentView, ErrorView> {
    match answer {
        Ok(Ok(c)) => Ok(c),
        Ok(Err(cause)) => Err(ErrorView::Parse { source: url, cause }),
        Err(cause) => Err(ErrorView::Fetch { url, cause }),
    }
}

/// What the answer of a source stands for in contracts.
pub open spec fn answer_view(answer: Result<Result<Calendar, String>, String>) -> Result<
    Result<ComponentView, Seq<char>>,
    Seq<char>,
> {
    match answer {
        Ok(read) => Ok(reading_view(read)),
        Err(cause) => Err(cause@),
    }
}

/// What the evaluation of a configuration tree has come to.
#[derive(Debug, PartialEq, Eq)]
pub enum Evaluation {
    /// The document of the source at this address is needed next.
    Fetch(String),
    /// The evaluation is over.
    Done(Result<Calendar, CompositionError>),
}

impl View for Evaluation {
    type V = Progress<ComponentView>;

    open spec fn view(&self) -> Progress<ComponentView> {
        match self {
            Evaluation::Fetch(url) => Progress::Fetch(url@),
            Evaluation::Done(Ok(c)) => Progress::Ready(c@),
            Evaluation::Done(Err(e)) => Progress::Failed(e@),
        }
    }
}

/// Evaluates `config` over the results from place `from` on.
fn evaluate(
    config: &CalendarConfig,
    fetched: &Vec<Result<Calendar, CompositionError>>,
    from: usize,
) -> (r: (Evaluation, usize))
    requires
        from <= fetched.len(),
    ensures
        (r.0@, r.1 as nat) == evaluated(config@, outcome_views(fetched@), from as nat),
        r.1 <= fetched.len(),
    decreases config,
{
    match config {
        CalendarConfig::FetchCalendar(url) => {
            if from < fetched.len() {
                match &fetched[from] {
                    Ok(calendar) => (Evaluation::Done(Ok(calendar.clone())), from + 1),
                    Err(error) => (Evaluation::Done(Err(error.clone())), from + 1),
                }
            } else {
                (Evaluation::Fetch(url.clone()), from)
            }
        },
        CalendarConfig::ModifyCalendar(child, modifications) => {
            let (evaluation, next) = evaluate(child, fetched, from);
            match evaluation {
                Evaluation::Done(Ok(calendar)) => {
                    let modified = apply_all(modifications, calendar.0);
                    match modified {
                        Ok(c) => (Evaluation::Done(Ok(Calendar(c))), next),
                        Err(e) => (Evaluation::Done(Err(e)), next),
                    }
                },
                other => (other, next),
            }
        },
        CalendarConfig::MergeCalendars(children) => {
            proof {
                lemma_merge_view(*children);
            }
            let ghost configs = config_views(children@);
            let ghost leaves = outcome_views(fetched@);
            let mut calendars: Vec<Calendar> = Vec::new();
            let mut at: usize = from;
            let mut i: usize = 0;
            proof {
                assert(calendar_views(calendars@) =~= Seq::<ComponentView>::empty());
            }
            while i < children.len()
                invariant
                    decreases_to!(config => children),
                    i <= children.len(),
                    at <= fetched.len(),
                    configs == config_views(children@),
                    config@ == ConfigView::MergeCalendars(configs),
                    leaves == outcome_views(fetched@),
                    evaluated_all(configs.take(i as int), leaves, from as nat) == (
                        Progress::Ready(calendar_views(calendars@)),
                        at as nat,
                    ),
                decreases children.len() - i,
            {
                let ghost earlier = calendar_views(calendars@);
                proof {
                    assert(configs.take(i + 1).drop_last() =~= configs.take(i as int));
                }
                let (evaluation, next) = evaluate(&children[i], fetched, at);
                match evaluation {
                    Evaluation::Done(Ok(calendar)) => {
                        calendars.push(calendar);
                        assert(calendar_views(calendars@) =~= earlier.push(calendar@));
                    },
                    other => {
                        proof {
                            law_evaluation_ends_at_first_failure(configs, leaves, from as nat, i + 1);
                        }
                        return (other, next);
                    },
                }
                at = next;
                i += 1;
            }
            proof {
                assert(configs.take(children.len() as int) =~= configs);
            }
            (Evaluation::Done(Calendar::merge_calendars(calendars)), at)
        },
    }
}

/// The names that a merge strips, as strings.
fn names_to_strip() -> (r: Vec<String>)
    ensures
        crate::names::text_views(r@) == stripped_names(),
{
    let mut names: Vec<String> = Vec::new();
    names.push(String::from_str("PRODID"));
    names.push(String::from_str("VERSION"));
    names.push(String::from_str("CALSCALE"));
    names.push(String::from_str("METHOD"));
    names
}

impl Calendar {
    /// Merges calendars into one.
    ///
    /// Fails with a type mismatch where one of them is not a calendar.
    pub fn merge_calendars(calendars: Vec<Calendar>) -> (r: Result<Calendar, CompositionError>)
        ensures
            outcome_view(r) == merged(calendar_views(calendars@)),
    {
        let strip = ComponentModification::RemovePropertiesIfNameIn(names_to_strip());
        let ghost cs = calendar_views(calendars@);
        let mut properties: Vec<Property> = Vec::new();
        let mut sub_objects: Vec<Component> = Vec::new();
        let mut i: usize = 0;
        while i < calendars.len()
            invariant
                i <= calendars.len(),
                cs == calendar_views(calendars@),
                strip@ == ModificationView::RemovePropertiesIfNameIn(stripped_names()),
                forall|j: int| 0 <= j < i ==> is_calendar(#[trigger] cs[j]),
                property_views(properties@) == merged_properties(cs.take(i as int)),
                component_views(sub_objects@) == merged_sub_objects(cs.take(i as int)),
            decreases calendars.len() - i,
        {
            let calendar = strip.apply_component(calendars[i].0.clone())?;
            if !eq_ignore_ascii_case(calendar.object_type.as_str(), "VCALENDAR") {
                proof {
                    assert(is_first_foreign(cs, i as int));
                }
                return Err(
                    CompositionError::TypeMismatch {
                        expected: String::from_str("VCALENDAR"),
                        actual: calendar.object_type,
                    },
                );
            }
            proof {
                lemma_component_view(calendar);
                assert(cs.take(i + 1).drop_last() =~= cs.take(i as int));
            }
            let mut own_properties = calendar.properties;
            let mut own_sub_objects = calendar.sub_objects;
            properties.append(&mut own_properties);
            sub_objects.append(&mut own_sub_objects);
            i += 1;
        }
        proof {
            assert(cs.take(calendars.len() as int) =~= cs);
        }
        let ghost merged_before = property_views(properties@);
        properties.push(Property::new(String::from_str("PRODID"), String::from_str("ICal Merger")));
        properties.push(Property::new(String::from_str("VERSION"), String::from_str("2.0")));
        let calendar = Component {
            object_type: String::from_str("VCALENDAR"),
            properties,
            sub_objects,
        };
        proof {
            lemma_component_view(calendar);
            assert(property_views(calendar.properties@) =~= merged_before + identification());
        }
        Ok(Calendar(calendar))
    }

    /// Evaluates a configuration tree over `fetched`, the results that its
    /// sources have given so far, in the order in which it asked.
    ///
    /// Where a result is missing the evaluation stops and names the source
    /// to retrieve; with that source's result appended to `fetched` the
    /// next call goes further.
    pub fn from_config(
        fetched: &Vec<Result<Calendar, CompositionError>>,
        config: &CalendarConfig,
    ) -> (r: Evaluation)
        ensures
            r@ == evaluated(config@, outcome_views(fetched@), 0).0,
    {
        evaluate(config, fetched, 0).0
    }

    /// What the answer of the source at `url` makes of a leaf of the
    /// tree: the document read from it, or the failure to retrieve it, or
    /// the failure to read it.
    pub fn from_answer(url: &str, answer: Result<Result<Calendar, String>, String>) -> (r: Result<
        Calendar,
        CompositionError,
    >)
        ensures
            outcome_view(r) == leaf_outcome(url@, answer_view(answer)),
    {
        match answer {
            Ok(Ok(calendar)) => Ok(calendar),
            Ok(Err(cause)) => Err(CompositionError::Parse { source: String::from_str(url), cause }),
            Err(cause) => Err(CompositionError::Fetch { url: String::from_str(url), cause }),
        }
    }

    /// What the response of the source at `url` makes of a leaf of the
    /// tree: the document read from the bytes it sent, or the failure to
    /// read them, or the failure to retrieve them.
    pub fn from_response(url: &str, response: Result<Vec<u8>, String>) -> (r: Result<
        Calendar,
        CompositionError,
    >)
        ensures
            outcome_view(r) == leaf_outcome(
                url@,
                match response {
                    Ok(bytes) => Ok(read(bytes@)),
                    Err(cause) => Err(cause@),
                },
            ),
    {
        match response {
            Ok(bytes) => Calendar::from_answer(url, Ok(Calendar::parse(bytes.as_slice()))),
            Err(cause) => Calendar::from_answer(url, Err(cause)),
        }
    }

    /// Applies the modifications to a copy of the calendar, in order.
    pub fn apply_modifications(&self, modifications: Vec<ComponentModification>) -> (r: Result<
        Calendar,
        CompositionError,
    >)
        ensures
            r matches Ok(c) && c@ == modified_by_all(modification_views(modifications@), self@),
    {
        let calendar = apply_all(&modifications, self.0.clone())?;
        Ok(Calendar(calendar))
    }
}

/// A merge fails fast: once the evaluation of the first `k` children has
/// ended without their documents, in an error or in a request, the
/// evaluation of all the children has ended there and in the same way.
pub proof fn law_evaluation_ends_at_first_failure(
    configs: Seq<ConfigView>,
    leaves: Seq<Result<ComponentView, ErrorView>>,
    from: nat,
    k: int,
)
    requires
        0 <= k <= configs.len(),
        !(evaluated_all(configs.take(k), leaves, from).0 is Ready),
    ensures
        evaluated_all(configs, leaves, from) == evaluated_all(configs.take(k), leaves, from),
    decreases configs.len() - k,
{
    if k == configs.len() {
        assert(configs.take(k) =~= configs);
    } else {
        assert(configs.take(k + 1).drop_last() =~= configs.take(k));
        law_evaluation_ends_at_first_failure(configs, leaves, from, k + 1);
    }
}

/// An evaluation uses the results in order and asks for no source while
/// results are left: it ends in a request only when it has used them all,
/// and with a result for every source that the tree names it ends without
/// one.
pub proof fn law_evaluation_completes(
    config: ConfigView,
    leaves: Seq<Result<ComponentView, ErrorView>>,
    from: nat,
)
    requires
        from <= leaves.len(),
    ensures
        ({
            let (progress, next) = evaluated(config, leaves, from);
            &&& from <= next <= leaves.len()
            &&& next <= from + leaf_count(config)
            &&& progress is Fetch ==> next == leaves.len()
            &&& from + leaf_count(config) <= leaves.len() ==> !(progress is Fetch)
        }),
    decreases config, 1nat,
{
    match config {
        ConfigView::FetchCalendar(url) => {},
        ConfigView::ModifyCalendar(child, modifications) => {
            law_evaluation_completes(*child, leaves, from);
        },
        ConfigView::MergeCalendars(children) => {
            lemma_evaluation_of_all_completes(children, leaves, from);
        },
    }
}

/// What [`law_evaluation_completes`] says, of a list of trees.
proof fn lemma_evaluation_of_all_completes(
    configs: Seq<ConfigView>,
    leaves: Seq<Result<ComponentView, ErrorView>>,
    from: nat,
)
    requires
        from <= leaves.len(),
    ensures
        ({
            let (progress, next) = evaluated_all(configs, leaves, from);
            &&& from <= next <= leaves.len()
            &&& next <= from + leaf_count_all(configs)
            &&& progress is Fetch ==> next == leaves.len()
            &&& from + leaf_count_all(configs) <= leaves.len() ==> !(progress is Fetch)
        }),
    decreases configs, 0nat,
{
    if configs.len() > 0 {
        lemma_evaluation_of_all_completes(configs.drop_last(), leaves, from);
        let (earlier, middle) = evaluated_all(configs.drop_last(), leaves, from);
        if earlier is Ready {
            law_evaluation_completes(configs.last(), leaves, middle);
        }
    }
}

/// An evaluation that has ended looks at no result beyond those it used:
/// with more results at the end of the list it ends in the same way. So
/// the order in which results come in is the order in which the tree names
/// its sources, and a result once given is never read differently.
pub proof fn law_later_results_change_nothing(
    config: ConfigView,
    leaves: Seq<Result<ComponentView, ErrorView>>,
    more: Seq<Result<ComponentView, ErrorView>>,
    from: nat,
)
    requires
        !(evaluated(config, leaves, from).0 is Fetch),
    ensures
        evaluated(config, leaves + more, from) == evaluated(config, leaves, from),
    decreases config, 1nat,
{
    match config {
        ConfigView::FetchCalendar(url) => {},
        ConfigView::ModifyCalendar(child, modifications) => {
            law_later_results_change_nothing(*child, leaves, more, from);
        },
        ConfigView::MergeCalendars(children) => {
            lemma_later_results_change_nothing_of_all(children, leaves, more, from);
        },
    }
}

/// What [`law_later_results_change_nothing`] says, of a list of trees.
proof fn lemma_later_results_change_nothing_of_all(
    configs: Seq<ConfigView>,
    leaves: Seq<Result<ComponentView, ErrorView>>,
    more: Seq<Result<ComponentView, ErrorView>>,
    from: nat,
)
    requires
        !(evaluated_all(configs, leaves, from).0 is Fetch),
    ensures
        evaluated_all(configs, leaves + more, from) == evaluated_all(configs, leaves, from),
    decreases configs, 0nat,
{
    if configs.len() > 0 {
        lemma_later_results_change_nothing_of_all(configs.drop_last(), leaves, more, from);
        let (earlier, middle) = evaluated_all(configs.drop_last(), leaves, from);
        if earlier is Ready {
            law_later_results_change_nothing(configs.last(), leaves, more, middle);
        }
    }
}

/// Whether every document among the results is a calendar.
pub open spec fn all_calendars(leaves: Seq<Result<ComponentView, ErrorView>>) -> bool {
    forall|i: int|
        0 <= i < leaves.len() ==> (#[trigger] leaves[i] matches Ok(c) ==> is_calendar(c))
}

/// What is composed from calendars is a calendar: where every source gave
/// one, the document that an evaluation ends with is of the calendar type.
pub proof fn law_composition_is_a_calendar(
    config: ConfigView,
    leaves: Seq<Result<ComponentView, ErrorView>>,
    from: nat,
)
    requires
        all_calendars(leaves),
    ensures
        evaluated(config, leaves, from).0 matches Progress::Ready(c) ==> is_calendar(c),
    decreases config,
{
    match config {
        ConfigView::FetchCalendar(url) => {},
        ConfigView::ModifyCalendar(child, modifications) => {
            law_composition_is_a_calendar(*child, leaves, from);
            if let Progress::Ready(c) = evaluated(*child, leaves, from).0 {
                law_modification_keeps_type(modifications, c);
            }
        },
        ConfigView::MergeCalendars(children) => {},
    }
}

/// Among documents of which one is not a calendar there is a first one
/// that is not.
proof fn lemma_first_foreign_exists(cs: Seq<ComponentView>, i: int)
    requires
        0 <= i < cs.len(),
        !is_calendar(cs[i]),
    ensures
        exists|k: int| is_first_foreign(cs, k),
    decreases i,
{
    if forall|j: int| 0 <= j < i ==> is_calendar(#[trigger] cs[j]) {
        assert(is_first_foreign(cs, i));
    } else {
        let j = choose|j: int| 0 <= j < i && !is_calendar(#[trigger] cs[j]);
        lemma_first_foreign_exists(cs, j);
    }
}

/// A merge fails with a type mismatch as soon as one of the documents is
/// not a calendar, and names the type of the first such document.
pub proof fn law_merge_rejects_other_types(cs: Seq<ComponentView>, i: int)
    requires
        0 <= i < cs.len(),
        !is_calendar(cs[i]),
    ensures
        merged(cs) matches Err(ErrorView::TypeMismatch { expected, actual }) && expected
            == calendar_type() && !names_match(actual, calendar_type()) && exists|k: int|
            0 <= k <= i && actual == cs[k].object_type,
{
    lemma_first_foreign_exists(cs, i);
}

/// A merge of calendars succeeds.
pub proof fn law_merge_accepts_calendars(cs: Seq<ComponentView>)
    requires
        forall|i: int| 0 <= i < cs.len() ==> is_calendar(#[trigger] cs[i]),
    ensures
        merged(cs) is Ok,
{
}

/// A calendar merged with itself gives a calendar with twice its
/// sub-components, and with twice its surviving properties and the two of
/// the identification.
pub proof fn law_merge_with_itself(a: ComponentView)
    requires
        is_calendar(a),
    ensures
        merged(seq![a, a]) matches Ok(m) && m.object_type == calendar_type() && m.sub_objects
            == a.sub_objects + a.sub_objects && m.properties == surviving_properties(a)
            + surviving_properties(a) + identification() && m.sub_objects.len() == 2
            * a.sub_objects.len() && m.properties.len() == 2 * surviving_properties(a).len() + 2,
{
    let both = seq![a, a];
    let one = both.drop_last();
    let none = one.drop_last();
    assert(merged_properties(none) =~= Seq::<PropertyView>::empty());
    assert(merged_sub_objects(none) =~= Seq::<ComponentView>::empty());
    assert(merged_properties(one) =~= surviving_properties(a));
    assert(merged_sub_objects(one) =~= a.sub_objects);
}

} // verus!
