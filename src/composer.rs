//! The shared route table: the current registry together with the schema composed
//! from its services, changed only by whole-table replacement and by refresh cycles.
use vstd::prelude::*;
use vstd::string::StringExecFns;
use crate::route_table::{ServiceRouteTable, TableModel};

verus! {

/// The introspection query that every backend service answers with its SDL.
pub open spec fn sdl_query_text() -> Seq<char> {
    "{ _service { sdl }}"@
}

/// The text of the SDL introspection query, sent to each service in a refresh cycle.
pub fn sdl_query() -> (r: String)
    ensures
        r@ == sdl_query_text(),
{
    String::from_str("{ _service { sdl }}")
}

/// One service's schema text, as gathered in a refresh cycle.
#[derive(Debug)]
pub struct ServiceSdl {
    pub service: String,
    pub sdl: String,
}

/// The schema documents gathered in one complete refresh cycle: for each service
/// of one route table, in table order, its name and its SDL text.
#[derive(Debug)]
pub struct ComposedSchema {
    documents: Vec<ServiceSdl>,
}

/// What a composed schema holds.
pub struct SchemaModel {
    pub services: Seq<Seq<char>>,
    pub sdls: Seq<Seq<char>>,
}

impl View for ComposedSchema {
    type V = SchemaModel;

    closed spec fn view(&self) -> SchemaModel {
        SchemaModel {
            services: self.documents@.map_values(|d: ServiceSdl| d.service@),
            sdls: self.documents@.map_values(|d: ServiceSdl| d.sdl@),
        }
    }
}

impl ComposedSchema {
    /// The SDL documents the schema was combined from.
    pub fn documents(&self) -> (r: &Vec<ServiceSdl>)
        ensures
            r@.map_values(|d: ServiceSdl| d.service@) == self@.services,
            r@.map_values(|d: ServiceSdl| d.sdl@) == self@.sdls,
    {
        &self.documents
    }
}

/// The state of the shared route table, as plain values.
pub struct ComposerModel {
    pub schema: Option<SchemaModel>,
    pub table: Option<TableModel>,
}

/// An event that the single owner of the state handles.
pub enum ComposerEvent {
    /// A registry replacement.
    Change(TableModel),
    /// The end of a refresh cycle: the services that were polled, and for each
    /// of them, in order, its SDL or `None` where fetching or parsing it failed.
    Refresh(Seq<Seq<char>>, Seq<Option<Seq<char>>>),
}

/// Whether a schema was composed from exactly the services of `t`.
pub open spec fn composed_for(sc: SchemaModel, t: TableModel) -> bool {
    sc.services == t.names && sc.sdls.len() == t.names.len()
}

/// Whether every service answered in a refresh cycle over `t`.
pub open spec fn refresh_complete(outcomes: Seq<Option<Seq<char>>>, t: TableModel) -> bool {
    outcomes.len() == t.names.len() && forall|i: int| 0 <= i < outcomes.len() ==> outcomes[i] is Some
}

/// The state before any event.
pub open spec fn initial() -> ComposerModel {
    ComposerModel { schema: None, table: None }
}

/// How one event changes the state.
pub open spec fn step(s: ComposerModel, e: ComposerEvent) -> ComposerModel {
    match e {
        ComposerEvent::Change(t) => ComposerModel { schema: None, table: Some(t) },
        ComposerEvent::Refresh(polled, outcomes) => match s.table {
            Some(t) => if polled == t.names && refresh_complete(outcomes, t) {
                ComposerModel {
                    schema: Some(
                        SchemaModel {
                            services: t.names,
                            sdls: outcomes.map_values(|o: Option<Seq<char>>| o.unwrap()),
                        },
                    ),
                    table: s.table,
                }
            } else {
                s
            },
            None => s,
        },
    }
}

/// The state after a sequence of events.
pub open spec fn run(s: ComposerModel, events: Seq<ComposerEvent>) -> ComposerModel
    decreases events.len(),
{
    if events.len() == 0 {
        s
    } else {
        step(run(s, events.drop_last()), events.last())
    }
}

/// What readers see: the pair, only where both halves are present.
pub open spec fn snapshot(s: ComposerModel) -> Option<(SchemaModel, TableModel)> {
    match (s.schema, s.table) {
        (Some(sc), Some(t)) => Some((sc, t)),
        _ => None,
    }
}

/// A schema is only ever held for the table it was composed against.
pub open spec fn consistent(s: ComposerModel) -> bool {
    s.schema is Some ==> (s.table is Some && composed_for(s.schema.unwrap(), s.table.unwrap()))
}

/// The table set by the last registry replacement among `events`, if any.
pub open spec fn last_change(events: Seq<ComposerEvent>) -> Option<TableModel>
    decreases events.len(),
{
    if events.len() == 0 {
        None
    } else {
        match events.last() {
            ComposerEvent::Change(t) => Some(t),
            _ => last_change(events.drop_last()),
        }
    }
}

/// The outcomes of a refresh cycle as plain values: the SDL text, or `None`.
pub open spec fn outcome_model(outcomes: Seq<Result<String, String>>) -> Seq<Option<Seq<char>>> {
    outcomes.map_values(
        |o: Result<String, String>|
            match o {
                Ok(sdl) => Some(sdl@),
                Err(_) => None,
            },
    )
}

/// Why a refresh cycle was discarded.
#[derive(Debug, PartialEq, Eq)]
pub enum UpdateError {
    /// The registry changed after the services were polled.
    TableChanged,
    /// The number of outcomes differs from the number of registered services.
    OutcomeCount,
    /// The service at this position of the table failed; the text says why.
    ServiceFailed { index: usize, message: String },
}

/// What wakes the background owner of the state.
#[derive(Debug)]
pub enum LoopEvent {
    /// The refresh timer fired.
    Tick,
    /// A registry replacement arrived.
    Command(ServiceRouteTable),
}

/// The current registry and the schema composed from it.
#[derive(Debug)]
pub struct SharedRouteTable {
    schema: Option<ComposedSchema>,
    route_table: Option<ServiceRouteTable>,
}

impl View for SharedRouteTable {
    type V = ComposerModel;

    closed spec fn view(&self) -> ComposerModel {
        ComposerModel {
            schema: match self.schema {
                Some(sc) => Some(sc@),
                None => None,
            },
            table: match self.route_table {
                Some(t) => Some(t@),
                None => None,
            },
        }
    }
}

impl Default for SharedRouteTable {
    fn default() -> (r: Self)
        ensures
            r.wf(),
            r@ == initial(),
    {
        SharedRouteTable::new()
    }
}

impl SharedRouteTable {
    pub closed spec fn wf(&self) -> bool {
        &&& consistent(self@)
        &&& (self.route_table matches Some(t) ==> t.wf())
    }

    /// A table with no registry and no schema.
    pub fn new() -> (r: Self)
        ensures
            r.wf(),
            r@ == initial(),
    {
        SharedRouteTable { schema: None, route_table: None }
    }

    /// Replaces the registry and clears the schema, which must be composed anew
    /// before the new registry is trusted.
    pub fn apply_route_table(&mut self, route_table: ServiceRouteTable)
        requires
            old(self).wf(),
            route_table.wf(),
        ensures
            final(self).wf(),
            final(self)@ == step(old(self)@, ComposerEvent::Change(route_table@)),
    {
        self.route_table = Some(route_table);
        self.schema = None;
    }

    /// The schema and the registry it was composed against, or `None` while
    /// either is missing.
    pub fn get_inner(&self) -> (r: Option<(&ComposedSchema, &ServiceRouteTable)>)
        requires
            self.wf(),
        ensures
            match r {
                Some((sc, t)) => snapshot(self@) == Some((sc@, t@)) && composed_for(sc@, t@)
                    && t.wf(),
                None => snapshot(self@) is None,
            },
    {
        match (&self.schema, &self.route_table) {
            (Some(sc), Some(t)) => Some((sc, t)),
            _ => None,
        }
    }

    /// Handles one wake-up of the background owner. A registry replacement is
    /// applied at once and asks for nothing more; a timer tick changes nothing
    /// and returns the services to poll for a refresh cycle, if a registry is set.
    pub fn on_event(&mut self, event: LoopEvent) -> (r: Option<Vec<String>>)
        requires
            old(self).wf(),
            event matches LoopEvent::Command(t) ==> t.wf(),
        ensures
            final(self).wf(),
            match event {
                LoopEvent::Tick => {
                    &&& final(self)@ == old(self)@
                    &&& match old(self)@.table {
                        Some(t) => r matches Some(v) && v@.map_values(|s: String| s@) == t.names,
                        None => r is None,
                    }
                },
                LoopEvent::Command(t) => {
                    &&& final(self)@ == step(old(self)@, ComposerEvent::Change(t@))
                    &&& r is None
                },
            },
    {
        match event {
            LoopEvent::Tick => self.services_to_poll(),
            LoopEvent::Command(t) => {
                self.apply_route_table(t);
                None
            },
        }
    }

    /// The registry currently set, with or without a schema.
    pub fn route_table(&self) -> (r: Option<&ServiceRouteTable>)
        requires
            self.wf(),
        ensures
            match r {
                Some(t) => self@.table == Some(t@) && t.wf(),
                None => self@.table is None,
            },
    {
        match &self.route_table {
            Some(t) => Some(t),
            None => None,
        }
    }

    /// The services a refresh cycle must ask for their SDL, in table order, or
    /// `None` while no registry is set.
    pub fn services_to_poll(&self) -> (r: Option<Vec<String>>)
        requires
            self.wf(),
        ensures
            match self@.table {
                Some(t) => r matches Some(v) && v@.map_values(|s: String| s@) == t.names,
                None => r is None,
            },
    {
        match &self.route_table {
            Some(t) => Some(t.keys()),
            None => None,
        }
    }

    /// Ends a refresh cycle. `polled` are the services that were asked, and
    /// `outcomes` holds, for each of them in order, its SDL text or why it could
    /// not be had. The schema is replaced only where the registry is still the
    /// one polled and every service answered; otherwise it stays as it was.
    /// Without a registry there is nothing to refresh.
    pub fn finish_update(&mut self, polled: &Vec<String>, outcomes: Vec<Result<String, String>>) -> (r: Result<
        (),
        UpdateError,
    >)
        requires
            old(self).wf(),
        ensures
            final(self).wf(),
            final(self)@ == step(
                old(self)@,
                ComposerEvent::Refresh(
                    polled@.map_values(|s: String| s@),
                    outcome_model(outcomes@),
                ),
            ),
            match old(self)@.table {
                None => r is Ok,
                Some(t) => if polled@.map_values(|s: String| s@) != t.names {
                    r == Err::<(), UpdateError>(UpdateError::TableChanged)
                } else if outcomes@.len() != t.names.len() {
                    r == Err::<(), UpdateError>(UpdateError::OutcomeCount)
                } else {
                    match r {
                        Ok(_) => forall|i: int| 0 <= i < outcomes@.len() ==> outcomes@[i] is Ok,
                        Err(UpdateError::ServiceFailed { index, message }) => {
                            &&& index < outcomes@.len()
                            &&& outcomes@[index as int] == Err::<String, String>(message)
                            &&& forall|j: int| 0 <= j < index ==> outcomes@[j] is Ok
                        },
                        Err(_) => false,
                    }
                },
            },
    {
        let names = match &self.route_table {
            Some(t) => {
                if !t.has_names(polled) {
                    return Err(UpdateError::TableChanged);
                }
                t.keys()
            },
            None => {
                return Ok(());
            },
        };
        let ghost t = self@.table.unwrap();
        let ghost om = outcome_model(outcomes@);
        if outcomes.len() != names.len() {
            proof {
                assert(!refresh_complete(om, t));
            }
            return Err(UpdateError::OutcomeCount);
        }
        let mut documents: Vec<ServiceSdl> = Vec::new();
        let mut i: usize = 0;
        while i < outcomes.len()
            invariant
                self.wf(),
                self@ == old(self)@,
                old(self)@.table == Some(t),
                polled@.map_values(|s: String| s@) == t.names,
                i <= outcomes@.len(),
                outcomes@.len() == names@.len(),
                names@.map_values(|s: String| s@) == t.names,
                om == outcome_model(outcomes@),
                documents@.len() == i,
                forall|j: int| 0 <= j < i ==> outcomes@[j] is Ok,
                forall|j: int| 0 <= j < i ==> documents@[j].service@ == t.names[j],
                forall|j: int| 0 <= j < i ==> om[j] == Some(documents@[j].sdl@),
            decreases outcomes@.len() - i,
        {
            match &outcomes[i] {
                Ok(sdl) => {
                    assert(names@[i as int]@ == t.names[i as int]);
                    assert(om[i as int] == Some(sdl@));
                    documents.push(ServiceSdl { service: names[i].clone(), sdl: sdl.clone() });
                },
                Err(message) => {
                    proof {
                        assert(om[i as int] is None);
                        assert(!refresh_complete(om, t));
                    }
                    let message = message.clone();
                    assert(outcomes@[i as int] == Err::<String, String>(message));
                    return Err(UpdateError::ServiceFailed { index: i, message });
                },
            }
            i = i + 1;
        }
        let ghost docs = documents@;
        let schema = ComposedSchema { documents };
        assert(schema.documents@ == docs);
        assert forall|j: int| 0 <= j < t.names.len() implies schema@.services[j] == t.names[j] by {
            assert(schema@.services[j] == docs[j].service@);
        }
        assert(schema@.services =~= t.names);
        assert forall|j: int| 0 <= j < om.len() implies schema@.sdls[j] == om[j].unwrap() by {
            assert(schema@.sdls[j] == docs[j].sdl@);
        }
        assert(schema@.sdls =~= om.map_values(|o: Option<Seq<char>>| o.unwrap()));
        self.schema = Some(schema);
        Ok(())
    }
}

/// A refresh cycle in which some registered service failed leaves the state,
/// and so the published schema, exactly as it was.
pub proof fn lemma_failed_refresh_keeps_schema(
    s: ComposerModel,
    polled: Seq<Seq<char>>,
    outcomes: Seq<Option<Seq<char>>>,
)
    requires
        s.table is Some,
        polled == s.table.unwrap().names,
        outcomes.len() == s.table.unwrap().names.len(),
        exists|i: int| 0 <= i < outcomes.len() && outcomes[i] is None,
    ensures
        step(s, ComposerEvent::Refresh(polled, outcomes)) == s,
        step(s, ComposerEvent::Refresh(polled, outcomes)).schema == s.schema,
{
}

/// Whatever the events, a schema is only ever paired with the table it was
/// composed against, and once a table has been set, the table readers see is
/// the last one set: never one that a later replacement displaced.
pub proof fn lemma_snapshot_follows_latest_table(s: ComposerModel, events: Seq<ComposerEvent>)
    requires
        consistent(s),
    ensures
        consistent(run(s, events)),
        last_change(events) matches Some(t) ==> run(s, events).table == Some(t),
        snapshot(run(s, events)) matches Some((sc, t)) ==> composed_for(sc, t),
        snapshot(run(s, events)) matches Some((sc, t)) ==> (last_change(events) matches Some(
            lt,
        ) ==> t == lt),
    decreases events.len(),
{
    if events.len() > 0 {
        lemma_snapshot_follows_latest_table(s, events.drop_last());
    }
}

/// Whether an event is a refresh cycle in which every service answered.
pub open spec fn is_full_refresh(e: ComposerEvent) -> bool {
    e matches ComposerEvent::Refresh(_, o) && forall|i: int| 0 <= i < o.len() ==> o[i] is Some
}

/// Whether an event is a registry replacement.
pub open spec fn is_change(e: ComposerEvent) -> bool {
    e is Change
}

/// Whether `events` hold a registry replacement followed, later, by a refresh
/// cycle in which every service answered.
pub open spec fn recomposed_after_change(events: Seq<ComposerEvent>) -> bool {
    exists|k: int, j: int|
        0 <= k < j < events.len() && #[trigger] is_change(events[k]) && #[trigger] is_full_refresh(
            events[j],
        )
}

/// From the initial state, readers see nothing until a full recomposition has
/// followed a registry replacement, and a schema never stands without a table.
pub proof fn lemma_not_ready_until_recomposed(events: Seq<ComposerEvent>)
    ensures
        run(initial(), events).schema is Some ==> run(initial(), events).table is Some,
        run(initial(), events).table is Some ==> exists|k: int|
            0 <= k < events.len() && #[trigger] is_change(events[k]),
        snapshot(run(initial(), events)) is Some ==> recomposed_after_change(events),
    decreases events.len(),
{
    if events.len() > 0 {
        let prefix = events.drop_last();
        lemma_not_ready_until_recomposed(prefix);
        let st = run(initial(), prefix);
        let n = events.len() - 1;
        assert(events[n] == events.last());
        if st.table is Some {
            let k = choose|k: int| 0 <= k < prefix.len() && #[trigger] is_change(prefix[k]);
            assert(events[k] == prefix[k]);
            assert(is_change(events[k]));
        }
        if snapshot(st) is Some {
            let (k, j) = choose|k: int, j: int|
                0 <= k < j < prefix.len() && #[trigger] is_change(prefix[k])
                    && #[trigger] is_full_refresh(prefix[j]);
            assert(events[k] == prefix[k]);
            assert(events[j] == prefix[j]);
            assert(is_change(events[k]) && is_full_refresh(events[j]));
        }
        match events.last() {
            ComposerEvent::Change(t) => {
                assert(is_change(events[n]));
            },
            ComposerEvent::Refresh(_, o) => {
                if snapshot(run(initial(), events)) is Some && snapshot(st) is None {
                    let k = choose|k: int| 0 <= k < prefix.len() && #[trigger] is_change(prefix[k]);
                    assert(events[k] == prefix[k]);
                    assert(is_change(events[k]));
                    assert(is_full_refresh(events[n]));
                }
            },
        }
    }
}

} // verus!
