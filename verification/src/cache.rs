//! The cache of served documents: for each path the text of the calendar
//! that was last composed for it.

use vstd::prelude::*;
use crate::document::Calendar;
use crate::error::{CompositionError, ErrorView};
use crate::ical::ical_text;
use crate::refresh::LookupError;

verus! {

/// The concurrent map of `dashmap`.
#[verifier::external_type_specification]
#[verifier::external_body]
#[verifier::reject_recursive_types(K)]
#[verifier::reject_recursive_types(V)]
#[verifier::reject_recursive_types(S)]
pub struct ExDashMap<K, V, S>(dashmap::DashMap<K, V, S>);

/// The entries that a map of `dashmap` holds: each key with its value.
pub uninterp spec fn map_entries(map: dashmap::DashMap<String, String>) -> Map<
    Seq<char>,
    Seq<char>,
>;

/// `DashMap::new` of `dashmap`: a map without entries.
#[verifier::external_body]
fn new_map() -> (created: dashmap::DashMap<String, String>)
    ensures
        (map_entries(created) == Map::<Seq<char>, Seq<char>>::empty()),
{
    dashmap::DashMap::new()
}

/// `DashMap::insert` of `dashmap`, on a map that nobody else can reach
/// while the call runs: the key holds the value from then on, whether or
/// not it held one before, and every other entry is as it was.
#[verifier::external_body]
fn insert_entry(map: &mut dashmap::DashMap<String, String>, key: String, value: String)
    ensures
        map_entries(*final(map)) == map_entries(*old(map)).insert(key@, value@),
{
    map.insert(key, value);
}

/// `DashMap::get` of `dashmap`, and a copy of the value it refers to: the
/// value that the key holds, or `None` where it holds none.
#[verifier::external_body]
fn entry_of(map: &dashmap::DashMap<String, String>, key: &str) -> (value: Option<String>)
    ensures
        match value {
            Some(text) => map_entries(*map).contains_key(key@) && map_entries(*map)[key@] == text@,
            None => !map_entries(*map).contains_key(key@),
        },
{
    match map.get(key) {
        Some(entry) => Some(entry.value().clone()),
        None => None,
    }
}

/// The entries after the outcome of one composition for `path` has been
/// taken in: a text replaces what the path held, a failure changes nothing.
pub open spec fn recorded(
    entries: Map<Seq<char>, Seq<char>>,
    path: Seq<char>,
    outcome: Result<Seq<char>, ErrorView>,
) -> Map<Seq<char>, Seq<char>> {
    match outcome {
        Ok(text) => entries.insert(path, text),
        Err(_) => entries,
    }
}

/// The text of a composed calendar, or the failure of the composition.
pub open spec fn text_of(outcome: Result<Calendar, CompositionError>) -> Result<
    Seq<char>,
    ErrorView,
> {
    match outcome {
        Ok(calendar) => Ok(ical_text(calendar@)),
        Err(error) => Err(error@),
    }
}

/// For each path the text of the calendar last composed for it.
pub struct Cache {
    entries: dashmap::DashMap<String, String>,
}

impl View for Cache {
    type V = Map<Seq<char>, Seq<char>>;

    closed spec fn view(&self) -> Map<Seq<char>, Seq<char>> {
        map_entries(self.entries)
    }
}

impl Cache {
    /// A cache without entries.
    pub fn new() -> (cache: Cache)
        ensures
            (cache@ == Map::<Seq<char>, Seq<char>>::empty()),
    {
        Cache { entries: new_map() }
    }

    /// The text that the cache holds for `path`.
    pub fn get(&self, path: &str) -> (r: Option<String>)
        ensures
            match r {
                Some(text) => self@.contains_key(path@) && self@[path@] == text@,
                None => !self@.contains_key(path@),
            },
    {
        entry_of(&self.entries, path)
    }

    /// Takes in the text that a composition for `path` gave, or its
    /// failure, which is handed back for the log.
    pub fn store(&mut self, path: String, outcome: Result<String, CompositionError>) -> (r: Result<
        (),
        CompositionError,
    >)
        ensures
            final(self)@ == recorded(
                old(self)@,
                path@,
                match outcome {
                    Ok(text) => Ok(text@),
                    Err(error) => Err(error@),
                },
            ),
            match outcome {
                Ok(_) => r is Ok,
                Err(error) => r == Err::<(), CompositionError>(error),
            },
    {
        match outcome {
            Ok(text) => {
                insert_entry(&mut self.entries, path, text);
                Ok(())
            },
            Err(error) => Err(error),
        }
    }

    /// Takes in the outcome of a composition for `path`: the text of the
    /// calendar replaces what the cache held for the path, a failure leaves
    /// the cache as it was and is handed back for the log.
    pub fn record(&mut self, path: String, outcome: Result<Calendar, CompositionError>) -> (r:
        Result<(), CompositionError>)
        ensures
            final(self)@ == recorded(old(self)@, path@, text_of(outcome)),
            match outcome {
                Ok(_) => r is Ok,
                Err(error) => r == Err::<(), CompositionError>(error),
            },
    {
        match outcome {
            Ok(calendar) => {
                let text = calendar.to_text();
                self.store(path, Ok(text))
            },
            Err(error) => self.store(path, Err(error)),
        }
    }

    /// The answer to a lookup of `path`: the text that the cache holds for
    /// it, or that none is there.
    pub fn answer(&self, path: &str) -> (r: Result<String, LookupError>)
        ensures
            match r {
                Ok(text) => self@.contains_key(path@) && self@[path@] == text@,
                Err(error) => !self@.contains_key(path@) && error == LookupError::NoCalendarFound,
            },
    {
        match self.get(path) {
            Some(text) => Ok(text),
            None => Err(LookupError::NoCalendarFound),
        }
    }
}

/// A failed refresh keeps the last good text: where a path was given a text
/// and the next composition for it fails, the path still holds that text.
pub proof fn law_failure_retains_entry(
    entries: Map<Seq<char>, Seq<char>>,
    path: Seq<char>,
    text: Seq<char>,
    error: ErrorView,
)
    ensures
        recorded(recorded(entries, path, Ok(text)), path, Err(error))[path] == text,
        recorded(recorded(entries, path, Ok(text)), path, Err(error)).contains_key(path),
{
}

/// A lookup finds nothing for a path only where the cache held nothing for
/// it and the composition for it has failed as well.
pub proof fn law_lookup_fails_only_without_any_text(
    entries: Map<Seq<char>, Seq<char>>,
    path: Seq<char>,
    outcome: Result<Seq<char>, ErrorView>,
)
    ensures
        !recorded(entries, path, outcome).contains_key(path) <==> !entries.contains_key(path)
            && outcome is Err,
{
}

/// An entry never goes away, and the outcome for one path leaves the text
/// of every other path as it was.
pub proof fn law_entries_persist(
    entries: Map<Seq<char>, Seq<char>>,
    path: Seq<char>,
    outcome: Result<Seq<char>, ErrorView>,
    other: Seq<char>,
)
    requires
        entries.contains_key(other),
    ensures
        recorded(entries, path, outcome).contains_key(other),
        other != path ==> recorded(entries, path, outcome)[other] == entries[other],
        outcome is Err ==> recorded(entries, path, outcome) == entries,
        outcome matches Ok(text) ==> recorded(entries, path, outcome)[path] == text,
{
}

} // verus!
