//! The declarative configuration: for each published path a tree that says
//! how its calendar is built, and the refresh policy.

use vstd::prelude::*;
use crate::modification::{
    clone_modifications, modification_views, ComponentModification, ModificationView,
};

verus! {

/// The default of `fetch_on_demand`.
pub fn bool_true() -> (r: bool)
    ensures
        r,
{
    true
}

/// The default of `fetch_interval_seconds`.
pub fn sixty_seconds() -> (r: Option<u64>)
    ensures
        r == Some(60u64),
{
    Some(60)
}

/// How one calendar is built.
#[derive(Debug, PartialEq, Eq)]
pub enum CalendarConfig {
    /// The documents of the children, merged into one.
    MergeCalendars(Vec<CalendarConfig>),
    /// The document of the child after the modifications, applied in order.
    ModifyCalendar(Box<CalendarConfig>, Vec<ComponentModification>),
    /// The document that the source at this address returns.
    FetchCalendar(String),
}

/// What a [`CalendarConfig`] stands for in contracts.
pub enum ConfigView {
    MergeCalendars(Seq<ConfigView>),
    ModifyCalendar(Box<ConfigView>, Seq<ModificationView>),
    FetchCalendar(Seq<char>),
}

impl View for CalendarConfig {
    type V = ConfigView;

    open spec fn view(&self) -> ConfigView {
        config_view(*self)
    }
}

/// The value of a configuration tree.
pub open spec fn config_view(c: CalendarConfig) -> ConfigView
    decreases c,
{
    match c {
        CalendarConfig::MergeCalendars(children) => ConfigView::MergeCalendars(
            Seq::new(
                children@.len(),
                |i: int|
                    if 0 <= i < children@.len() {
                        config_view(children@[i])
                    } else {
                        arbitrary()
                    },
            ),
        ),
        CalendarConfig::ModifyCalendar(child, modifications) => ConfigView::ModifyCalendar(
            Box::new(config_view(*child)),
            modification_views(modifications@),
        ),
        CalendarConfig::FetchCalendar(url) => ConfigView::FetchCalendar(url@),
    }
}

/// The values of a list of configuration trees, in order.
pub open spec fn config_views(cs: Seq<CalendarConfig>) -> Seq<ConfigView> {
    cs.map_values(|c: CalendarConfig| c@)
}

/// The children of `MergeCalendars`, seen as values, are the values of the
/// list that it holds.
pub proof fn lemma_merge_view(children: Vec<CalendarConfig>)
    ensures
        CalendarConfig::MergeCalendars(children)@ == ConfigView::MergeCalendars(
            config_views(children@),
        ),
{
    let m = CalendarConfig::MergeCalendars(children);
    assert(m@->MergeCalendars_0 =~= config_views(children@));
}

impl Clone for CalendarConfig {
    fn clone(&self) -> (r: CalendarConfig)
        ensures
            r@ == self@,
        decreases self,
    {
        match self {
            CalendarConfig::MergeCalendars(children) => {
                let mut copies: Vec<CalendarConfig> = Vec::new();
                let mut i: usize = 0;
                while i < children.len()
                    invariant
                        decreases_to!(self => children),
                        i <= children.len(),
                        copies.len() == i,
                        forall|j: int| 0 <= j < i ==> copies@[j]@ == children@[j]@,
                    decreases children.len() - i,
                {
                    copies.push(children[i].clone());
                    i += 1;
                }
                proof {
                    lemma_merge_view(*children);
                    lemma_merge_view(copies);
                    assert(config_views(copies@) =~= config_views(children@));
                }
                CalendarConfig::MergeCalendars(copies)
            },
            CalendarConfig::ModifyCalendar(child, modifications) => {
                let copy: CalendarConfig = (**child).clone();
                CalendarConfig::ModifyCalendar(Box::new(copy), clone_modifications(modifications))
            },
            CalendarConfig::FetchCalendar(url) => CalendarConfig::FetchCalendar(url.clone()),
        }
    }
}

/// The number of sources that a configuration tree names, each counted as
/// often as it occurs.
pub open spec fn leaf_count(c: ConfigView) -> nat
    decreases c, 1nat,
{
    match c {
        ConfigView::MergeCalendars(children) => leaf_count_all(children),
        ConfigView::ModifyCalendar(child, _) => leaf_count(*child),
        ConfigView::FetchCalendar(_) => 1,
    }
}

/// The number of sources that a list of configuration trees names.
pub open spec fn leaf_count_all(cs: Seq<ConfigView>) -> nat
    decreases cs, 0nat,
{
    if cs.len() == 0 {
        0
    } else {
        leaf_count_all(cs.drop_last()) + leaf_count(cs.last())
    }
}

/// A published path and the tree that says how its calendar is built.
#[derive(Debug, Clone, PartialEq, Eq)]
pub struct PublishedCalendar {
    pub path: String,
    pub config: CalendarConfig,
}

/// The published calendars and the refresh policy.
#[derive(Debug, Clone, PartialEq, Eq)]
pub struct ApplicationConfig {
    /// The published calendars. No path stands twice: see
    /// [`ApplicationConfig::wf`].
    pub calendars: Vec<PublishedCalendar>,
    /// Whether a calendar is composed when it is asked for, not at fixed
    /// intervals.
    pub fetch_on_demand: bool,
    /// The seconds between two refreshes.
    pub fetch_interval_seconds: Option<u64>,
}

/// The tree of the first calendar published under `path`.
pub open spec fn published(calendars: Seq<PublishedCalendar>, path: Seq<char>) -> Option<
    CalendarConfig,
>
    decreases calendars.len(),
{
    if calendars.len() == 0 {
        None
    } else if calendars[0].path@ == path {
        Some(calendars[0].config)
    } else {
        published(calendars.drop_first(), path)
    }
}

/// A path without a published calendar has none at any place, and a path
/// with one has its first at some place.
pub proof fn lemma_published(calendars: Seq<PublishedCalendar>, path: Seq<char>)
    ensures
        published(calendars, path) is None <==> forall|i: int|
            0 <= i < calendars.len() ==> (#[trigger] calendars[i]).path@ != path,
        published(calendars, path) matches Some(config) ==> exists|i: int|
            0 <= i < calendars.len() && (#[trigger] calendars[i]).path@ == path && calendars[i].config
                == config && forall|j: int| 0 <= j < i ==> (#[trigger] calendars[j]).path@ != path,
    decreases calendars.len(),
{
    if calendars.len() > 0 {
        let rest = calendars.drop_first();
        lemma_published(rest, path);
        if calendars[0].path@ != path {
            if published(rest, path) is None {
                assert forall|i: int| 0 <= i < calendars.len() implies (
                #[trigger] calendars[i]).path@ != path by {
                    if i > 0 {
                        assert(rest[i - 1].path@ != path);
                    }
                }
            } else {
                let k = choose|k: int|
                    0 <= k < rest.len() && (#[trigger] rest[k]).path@ == path && rest[k].config
                        == published(rest, path)->0 && forall|j: int|
                        0 <= j < k ==> (#[trigger] rest[j]).path@ != path;
                assert forall|j: int| 0 <= j < k + 1 implies (#[trigger] calendars[j]).path@
                    != path by {
                    if j > 0 {
                        assert(rest[j - 1].path@ != path);
                    }
                }
            }
        }
    }
}

impl ApplicationConfig {
    /// Whether no path is published twice.
    pub open spec fn wf(&self) -> bool {
        forall|i: int, j: int|
            0 <= i < j < self.calendars@.len() ==> (#[trigger] self.calendars@[i]).path@ != (
            #[trigger] self.calendars@[j]).path@
    }

    /// A configuration with this refresh policy and no calendar yet.
    pub fn new(fetch_on_demand: bool, fetch_interval_seconds: Option<u64>) -> (r: ApplicationConfig)
        ensures
            r.wf(),
            r.calendars@.len() == 0,
            r.fetch_on_demand == fetch_on_demand,
            r.fetch_interval_seconds == fetch_interval_seconds,
    {
        ApplicationConfig { calendars: Vec::new(), fetch_on_demand, fetch_interval_seconds }
    }

    /// The place at which `path` is published.
    fn position(&self, path: &String) -> (r: Option<usize>)
        ensures
            match r {
                Some(i) => i < self.calendars@.len() && self.calendars@[i as int].path@ == path@
                    && forall|j: int| 0 <= j < i ==> (#[trigger] self.calendars@[j]).path@ != path@,
                None => forall|j: int|
                    0 <= j < self.calendars@.len() ==> (#[trigger] self.calendars@[j]).path@
                        != path@,
            },
    {
        let mut i: usize = 0;
        while i < self.calendars.len()
            invariant
                i <= self.calendars.len(),
                forall|j: int| 0 <= j < i ==> (#[trigger] self.calendars@[j]).path@ != path@,
            decreases self.calendars.len() - i,
        {
            if self.calendars[i].path == *path {
                return Some(i);
            }
            i += 1;
        }
        None
    }

    /// The tree of the calendar published under `path`.
    pub fn get(&self, path: &String) -> (r: Option<&CalendarConfig>)
        ensures
            match r {
                Some(config) => published(self.calendars@, path@) == Some(*config),
                None => published(self.calendars@, path@) is None,
            },
    {
        proof {
            lemma_published(self.calendars@, path@);
        }
        match self.position(path) {
            Some(i) => Some(&self.calendars[i].config),
            None => None,
        }
    }

    /// Publishes `config` under `path`, in place of what was published
    /// there before.
    pub fn insert(&mut self, path: String, config: CalendarConfig)
        ensures
            old(self).wf() ==> final(self).wf(),
            published(final(self).calendars@, path@) == Some(config),
            forall|other: Seq<char>|
                other != path@ ==> published(final(self).calendars@, other) == published(
                    old(self).calendars@,
                    other,
                ),
            final(self).fetch_on_demand == old(self).fetch_on_demand,
            final(self).fetch_interval_seconds == old(self).fetch_interval_seconds,
    {
        let ghost before = self.calendars@;
        let found = self.position(&path);
        let entry = PublishedCalendar { path, config };
        let ghost at: int = match found {
            Some(i) => i as int,
            None => before.len() as int,
        };
        match found {
            Some(i) => {
                self.calendars.set(i, entry);
            },
            None => {
                self.calendars.push(entry);
            },
        }
        proof {
            let after = self.calendars@;
            lemma_published(after, entry.path@);
            let k = choose|k: int|
                0 <= k < after.len() && (#[trigger] after[k]).path@ == entry.path@ && after[k].config
                    == published(after, entry.path@)->0 && forall|j: int|
                    0 <= j < k ==> (#[trigger] after[j]).path@ != entry.path@;
            assert(k == at) by {
                if at < k {
                    assert(after[at].path@ != entry.path@);
                }
            }
            assert forall|other: Seq<char>| other != entry.path@ implies published(after, other)
                == published(before, other) by {
                lemma_published(after, other);
                lemma_published(before, other);
                if published(before, other) is Some {
                    let k = choose|k: int|
                        0 <= k < before.len() && (#[trigger] before[k]).path@ == other && before[k].config
                            == published(before, other)->0 && forall|j: int|
                            0 <= j < k ==> (#[trigger] before[j]).path@ != other;
                    assert(forall|j: int| 0 <= j < k ==> after[j].path@ == before[j].path@);
                }
            }
        }
    }
}

} // verus!
