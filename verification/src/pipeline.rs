//! The run as a state machine.
//!
//! The pipeline asks for one thing at a time (an [`Action`]) and is told
//! how it went (an [`Event`]). It prepares the collection, has each section
//! of the document embedded, numbers the points, has them stored in one
//! batch and reports the outcome. An event that does not answer the pending
//! action changes nothing.

use crate::config::RunConfig;
use crate::ident::IdAllocator;
use crate::point::{Point, PointView};
use crate::response::{html_response, message_of, Outcome, Response, ResponseView};
use crate::section::{document_sections, split_sections, Limits};
use crate::text::utf8_text;
use vstd::prelude::*;
use vstd::string::*;
use vstd::utf8::*;

verus! {

/// Where a run stands.
#[derive(Clone, Copy, Debug, PartialEq, Eq, Structural)]
pub enum Phase {
    /// The old collection is being deleted.
    Deleting,
    /// The new collection is being created.
    Creating,
    /// The collection is being asked for its number of points, to start
    /// the identifiers there.
    Counting,
    /// A section is being embedded.
    Embedding,
    /// The points are being stored.
    Upserting,
    /// The collection is being asked for its number of points, for the
    /// report.
    Recounting,
    /// The run is over and its outcome is reported.
    Done(Outcome),
    /// The run is over without a report: the document is not UTF-8.
    Aborted,
}

/// What the caller reports.
#[derive(Clone, Copy, Debug, PartialEq, Eq, Structural)]
pub enum Event {
    /// The deletion was tried. Whether it succeeded is of no consequence:
    /// the collection may not have existed.
    CollectionDeleted,
    /// The creation was tried.
    CollectionCreated { ok: bool },
    /// The collection was asked for its number of points.
    PointsCounted { count: Option<u64> },
    /// The section was handed to the embedding service, which returned
    /// this many vectors, or failed.
    SectionEmbedded { vectors: Option<usize> },
    /// The points were handed to the collection.
    PointsUpserted { ok: bool },
}

/// An action as a value of mathematics.
pub enum ActionView {
    DeleteCollection,
    CreateCollection { vector_size: u64 },
    CountPoints,
    EmbedSection { text: Seq<char> },
    UpsertPoints { points: Seq<PointView> },
    Respond { response: ResponseView },
    Abort,
}

/// What the pipeline asks of the caller.
#[derive(Clone, Debug, PartialEq, Eq)]
pub enum Action {
    /// Delete the collection.
    DeleteCollection,
    /// Create the collection for vectors of this length.
    CreateCollection { vector_size: u64 },
    /// Ask the collection for its number of points.
    CountPoints,
    /// Embed this section.
    EmbedSection { text: String },
    /// Store these points, each with the vector that it was made for: the
    /// points stand in the order in which the vectors were reported.
    UpsertPoints { points: Vec<Point> },
    /// Answer the request.
    Respond { response: Response },
    /// Give the request up without an answer.
    Abort,
}

impl View for Action {
    type V = ActionView;

    open spec fn view(&self) -> ActionView {
        match self {
            Action::DeleteCollection => ActionView::DeleteCollection,
            Action::CreateCollection { vector_size } => ActionView::CreateCollection {
                vector_size: *vector_size,
            },
            Action::CountPoints => ActionView::CountPoints,
            Action::EmbedSection { text } => ActionView::EmbedSection { text: text@ },
            Action::UpsertPoints { points } => ActionView::UpsertPoints {
                points: points.deep_view(),
            },
            Action::Respond { response } => ActionView::Respond { response: response@ },
            Action::Abort => ActionView::Abort,
        }
    }
}

/// The sections of a document that arrives as bytes, if the bytes are
/// UTF-8.
pub open spec fn sections_of_body(body: Seq<u8>, limits: Limits) -> Option<Seq<Seq<char>>> {
    if valid_utf8(body) {
        Some(document_sections(decode_utf8(body), limits))
    } else {
        None
    }
}

/// The phase in which the sections are worked off: embedding while a
/// section is left, storing after the last one. Without sections the run
/// is given up.
pub open spec fn settled_phase(sections: Option<Seq<Seq<char>>>, cursor: nat) -> Phase {
    match sections {
        None => Phase::Aborted,
        Some(all) => if cursor < all.len() {
            Phase::Embedding
        } else {
            Phase::Upserting
        },
    }
}

/// The state of a run as a value of mathematics.
pub struct PipelineView {
    /// The length of the vectors of the collection.
    pub vector_size: u64,
    pub phase: Phase,
    /// The sections of the document; `None` where it is not UTF-8.
    pub sections: Option<Seq<Seq<char>>>,
    /// How many sections have been worked off.
    pub cursor: nat,
    /// The identifier of the first point of the run.
    pub first_id: u64,
    /// The points made so far.
    pub points: Seq<PointView>,
}

impl PipelineView {
    /// The state in which a run starts.
    pub open spec fn initial(
        reset: bool,
        vector_size: u64,
        sections: Option<Seq<Seq<char>>>,
    ) -> PipelineView {
        PipelineView {
            vector_size,
            phase: if reset {
                Phase::Deleting
            } else {
                Phase::Counting
            },
            sections,
            cursor: 0,
            first_id: 0,
            points: Seq::empty(),
        }
    }

    /// The identifier that the next point gets.
    pub open spec fn next_id(self) -> int {
        self.first_id + self.points.len()
    }

    /// The section that is being embedded.
    pub open spec fn current_section(self) -> Seq<char>
        recommends
            self.phase is Embedding,
    {
        self.sections->0[self.cursor as int]
    }

    /// The points for `count` vectors of the current section: one for each,
    /// numbered from the next identifier on, all with the section's text.
    pub open spec fn embedded(self, count: nat) -> Seq<PointView> {
        Seq::new(
            count,
            |j: int| PointView { id: (self.next_id() + j) as u64, text: self.current_section() },
        )
    }

    /// This state with the phase that the cursor calls for.
    pub open spec fn settle(self) -> PipelineView {
        PipelineView { phase: settled_phase(self.sections, self.cursor), ..self }
    }

    /// This state at its end.
    pub open spec fn done(self, outcome: Outcome) -> PipelineView {
        PipelineView { phase: Phase::Done(outcome), ..self }
    }

    /// Whether the identifiers suffice for `event`: the vectors of an
    /// embedded section must not take the numbering past the largest
    /// identifier.
    pub open spec fn admits(self, event: Event) -> bool {
        self.phase is Embedding ==> (event matches Event::SectionEmbedded { vectors: Some(n) }
            ==> self.next_id() + n <= u64::MAX)
    }

    /// The state after `event`.
    pub open spec fn after(self, event: Event) -> PipelineView {
        match (self.phase, event) {
            (Phase::Deleting, Event::CollectionDeleted) => PipelineView {
                phase: Phase::Creating,
                ..self
            },
            (Phase::Creating, Event::CollectionCreated { ok }) => if ok {
                PipelineView { first_id: 0, ..self }.settle()
            } else {
                self.done(Outcome::CreateFailed)
            },
            (Phase::Counting, Event::PointsCounted { count }) => match count {
                Some(stored) => PipelineView { first_id: stored, ..self }.settle(),
                None => self.done(Outcome::QueryFailed),
            },
            (Phase::Embedding, Event::SectionEmbedded { vectors }) => match vectors {
                Some(n) => PipelineView {
                    points: self.points + self.embedded(n as nat),
                    cursor: self.cursor + 1,
                    ..self
                }.settle(),
                None => PipelineView { cursor: self.cursor + 1, ..self }.settle(),
            },
            (Phase::Upserting, Event::PointsUpserted { ok }) => if ok {
                PipelineView { phase: Phase::Recounting, ..self }
            } else {
                self.done(Outcome::UpsertFailed)
            },
            (Phase::Recounting, Event::PointsCounted { count }) => match count {
                Some(total) => self.done(
                    Outcome::Inserted { inserted: self.points.len() as usize, total },
                ),
                None => self.done(Outcome::UpsertFailed),
            },
            _ => self,
        }
    }

    /// The state after a run of events.
    pub open spec fn run(self, events: Seq<Event>) -> PipelineView
        decreases events.len(),
    {
        if events.len() == 0 {
            self
        } else {
            self.run(events.drop_last()).after(events.last())
        }
    }

    /// Whether the identifiers suffice for each of `events` in its turn.
    pub open spec fn admits_all(self, events: Seq<Event>) -> bool
        decreases events.len(),
    {
        events.len() > 0 ==> self.admits_all(events.drop_last()) && self.run(
            events.drop_last(),
        ).admits(events.last())
    }

    /// What the pipeline asks for in this state.
    pub open spec fn pending(self) -> ActionView {
        match self.phase {
            Phase::Deleting => ActionView::DeleteCollection,
            Phase::Creating => ActionView::CreateCollection { vector_size: self.vector_size },
            Phase::Counting => ActionView::CountPoints,
            Phase::Embedding => ActionView::EmbedSection { text: self.current_section() },
            Phase::Upserting => ActionView::UpsertPoints { points: self.points },
            Phase::Recounting => ActionView::CountPoints,
            Phase::Done(outcome) => ActionView::Respond {
                response: html_response(message_of(outcome)),
            },
            Phase::Aborted => ActionView::Abort,
        }
    }

    /// Whether `text` is among the sections that have been worked off.
    pub open spec fn worked_off(self, text: Seq<char>) -> bool {
        exists|j: int| 0 <= j < self.cursor && #[trigger] self.sections->0[j] == text
    }

    /// What holds of every state of a run.
    pub open spec fn wf(self) -> bool {
        &&& self.sections matches Some(all) ==> self.cursor <= all.len()
        &&& self.phase is Embedding ==> self.sections is Some && self.cursor
            < self.sections->0.len()
        &&& self.phase is Upserting || self.phase is Recounting ==> self.sections is Some
            && self.cursor == self.sections->0.len()
        &&& self.phase is Deleting || self.phase is Creating || self.phase is Counting
            ==> self.cursor == 0 && self.points.len() == 0
        &&& self.points.len() > 0 ==> self.sections is Some
        &&& self.next_id() <= u64::MAX
        &&& forall|i: int|
            0 <= i < self.points.len() ==> (#[trigger] self.points[i]).id == self.first_id + i
        &&& forall|i: int|
            0 <= i < self.points.len() ==> self.worked_off((#[trigger] self.points[i]).text)
    }
}

/// A run.
pub struct Pipeline {
    vector_size: u64,
    phase: Phase,
    sections: Option<Vec<String>>,
    cursor: usize,
    ids: IdAllocator,
    points: Vec<Point>,
}

impl View for Pipeline {
    type V = PipelineView;

    closed spec fn view(&self) -> PipelineView {
        PipelineView {
            vector_size: self.vector_size,
            phase: self.phase,
            sections: self.sections.deep_view(),
            cursor: self.cursor as nat,
            first_id: self.ids.first(),
            points: self.points.deep_view(),
        }
    }
}

fn phase_for(sections: &Option<Vec<String>>, cursor: usize) -> (phase: Phase)
    ensures
        phase == settled_phase(sections.deep_view(), cursor as nat),
{
    match sections {
        None => Phase::Aborted,
        Some(all) => if cursor < all.len() {
            Phase::Embedding
        } else {
            Phase::Upserting
        },
    }
}

fn copy_points(points: &Vec<Point>) -> (copy: Vec<Point>)
    ensures
        copy.deep_view() == points.deep_view(),
{
    let mut copy: Vec<Point> = Vec::new();
    for i in 0..points.len()
        invariant
            copy.len() == i,
            forall|j: int| 0 <= j < i ==> copy[j]@ == points[j]@,
    {
        copy.push(points[i].duplicate());
    }
    proof {
        assert(copy.deep_view() =~= points.deep_view());
    }
    copy
}

impl Pipeline {
    /// What construction establishes and every step keeps.
    pub closed spec fn wf(&self) -> bool {
        &&& self@.wf()
        &&& self.ids.next() == self.ids.first() + self.points.len()
    }

    /// Starts a run on the document `body`.
    pub fn start(config: &RunConfig, body: &[u8]) -> (pipeline: Pipeline)
        ensures
            pipeline.wf(),
            pipeline@.wf(),
            pipeline@ == PipelineView::initial(
                config.reset,
                config.vector_size,
                sections_of_body(body@, config.limits),
            ),
    {
        let sections = match utf8_text(body) {
            Some(text) => {
                proof {
                    broadcast use encode_utf8_decode_utf8;

                    assert(text@ == decode_utf8(body@));
                }
                Some(split_sections(text, config.limits))
            },
            None => None,
        };
        let pipeline = Pipeline {
            vector_size: config.vector_size,
            phase: if config.reset {
                Phase::Deleting
            } else {
                Phase::Counting
            },
            sections,
            cursor: 0,
            ids: IdAllocator::after_reset(),
            points: Vec::new(),
        };
        proof {
            assert(pipeline.points.deep_view() =~= Seq::<PointView>::empty());
        }
        pipeline
    }

    /// Where the run stands.
    pub fn phase(&self) -> (phase: Phase)
        ensures
            phase == self@.phase,
    {
        self.phase
    }

    /// The outcome, once the run is over with one.
    pub fn outcome(&self) -> (outcome: Option<Outcome>)
        ensures
            outcome == match self@.phase {
                Phase::Done(o) => Some(o),
                _ => None,
            },
    {
        match self.phase {
            Phase::Done(o) => Some(o),
            _ => None,
        }
    }

    /// The points made so far.
    pub fn points(&self) -> (points: &Vec<Point>)
        ensures
            points.deep_view() == self@.points,
    {
        &self.points
    }

    /// Whether the identifiers suffice for `event`.
    pub fn admits(&self, event: Event) -> (room: bool)
        requires
            self.wf(),
        ensures
            room == self@.admits(event),
    {
        match (self.phase, event) {
            (Phase::Embedding, Event::SectionEmbedded { vectors: Some(n) }) => self.ids.has_room(n),
            _ => true,
        }
    }

    /// What the pipeline asks for now.
    pub fn action(&self) -> (action: Action)
        requires
            self.wf(),
        ensures
            action@ == self@.pending(),
    {
        match self.phase {
            Phase::Deleting => Action::DeleteCollection,
            Phase::Creating => Action::CreateCollection { vector_size: self.vector_size },
            Phase::Counting => Action::CountPoints,
            Phase::Embedding => match &self.sections {
                Some(all) => Action::EmbedSection { text: all[self.cursor].clone() },
                None => Action::Abort,
            },
            Phase::Upserting => Action::UpsertPoints { points: copy_points(&self.points) },
            Phase::Recounting => Action::CountPoints,
            Phase::Done(outcome) => Action::Respond { response: outcome.response() },
            Phase::Aborted => Action::Abort,
        }
    }

    /// Makes the points for `count` vectors of the current section.
    fn add_points(&mut self, count: usize)
        requires
            old(self).wf(),
            old(self)@.phase is Embedding,
            old(self)@.next_id() + count <= u64::MAX,
        ensures
            final(self)@ == (PipelineView {
                points: old(self)@.points + old(self)@.embedded(count as nat),
                ..old(self)@
            }),
            final(self).ids.next() == final(self).ids.first() + final(self).points.len(),
    {
        let ghost before = self@;
        for made in 0..count
            invariant
                self@ == (PipelineView {
                    points: before.points + before.embedded(made as nat),
                    ..before
                }),
                self.ids.next() == self.ids.first() + self.points.len(),
                self.points.len() == before.points.len() + made,
                before.wf(),
                before.phase is Embedding,
                before.next_id() + count <= u64::MAX,
        {
            let ghost so_far = self.points.deep_view();
            let text = match &self.sections {
                Some(all) => all[self.cursor].clone(),
                None => String::new(),
            };
            let id = self.ids.allocate();
            let point = Point { id, text };
            let ghost added = point@;
            self.points.push(point);
            proof {
                assert(self.points.deep_view() =~= so_far.push(added));
                assert(before.embedded((made + 1) as nat) =~= before.embedded(made as nat).push(
                    added,
                ));
                assert(so_far.push(added) =~= before.points + before.embedded((made + 1) as nat));
            }
        }
    }

    /// Takes `event` in and says what to do next.
    pub fn step(&mut self, event: Event) -> (action: Action)
        requires
            old(self).wf(),
            old(self)@.admits(event),
        ensures
            final(self).wf(),
            final(self)@.wf(),
            final(self)@ == old(self)@.after(event),
            action@ == final(self)@.pending(),
    {
        proof {
            law_step_keeps_wf(self@, event);
        }
        match (self.phase, event) {
            (Phase::Deleting, Event::CollectionDeleted) => {
                self.phase = Phase::Creating;
            },
            (Phase::Creating, Event::CollectionCreated { ok }) => {
                if ok {
                    self.ids = IdAllocator::after_reset();
                    self.phase = phase_for(&self.sections, self.cursor);
                } else {
                    self.phase = Phase::Done(Outcome::CreateFailed);
                }
            },
            (Phase::Counting, Event::PointsCounted { count }) => {
                match count {
                    Some(stored) => {
                        self.ids = IdAllocator::continuing(stored);
                        self.phase = phase_for(&self.sections, self.cursor);
                    },
                    None => {
                        self.phase = Phase::Done(Outcome::QueryFailed);
                    },
                }
            },
            (Phase::Embedding, Event::SectionEmbedded { vectors }) => {
                match vectors {
                    Some(n) => {
                        self.add_points(n);
                    },
                    None => {},
                }
                let total = match &self.sections {
                    Some(all) => all.len(),
                    None => 0,
                };
                proof {
                    assert(self@.sections == old(self)@.sections);
                    assert(self@.cursor == old(self)@.cursor);
                    assert(self.sections->0.deep_view().len() == total);
                    assert(self.cursor < total);
                }
                self.cursor = self.cursor + 1;
                self.phase = phase_for(&self.sections, self.cursor);
            },
            (Phase::Upserting, Event::PointsUpserted { ok }) => {
                if ok {
                    self.phase = Phase::Recounting;
                } else {
                    self.phase = Phase::Done(Outcome::UpsertFailed);
                }
            },
            (Phase::Recounting, Event::PointsCounted { count }) => {
                match count {
                    Some(total) => {
                        self.phase = Phase::Done(
                            Outcome::Inserted { inserted: self.points.len(), total },
                        );
                    },
                    None => {
                        self.phase = Phase::Done(Outcome::UpsertFailed);
                    },
                }
            },
            _ => {},
        }
        self.action()
    }

    /// Takes `event` in if the identifiers suffice for it, and says what to
    /// do next; otherwise nothing changes and nothing is asked for.
    pub fn try_step(&mut self, event: Event) -> (action: Option<Action>)
        requires
            old(self).wf(),
        ensures
            final(self).wf(),
            final(self)@.wf(),
            match action {
                Some(next) => {
                    &&& old(self)@.admits(event)
                    &&& final(self)@ == old(self)@.after(event)
                    &&& next@ == final(self)@.pending()
                },
                None => !old(self)@.admits(event) && final(self)@ == old(self)@,
            },
    {
        if self.admits(event) {
            Some(self.step(event))
        } else {
            None
        }
    }
}

/// A step keeps what holds of every state.
pub proof fn law_step_keeps_wf(state: PipelineView, event: Event)
    requires
        state.wf(),
        state.admits(event),
    ensures
        state.after(event).wf(),
{
    let next = state.after(event);
    match (state.phase, event) {
        (Phase::Embedding, Event::SectionEmbedded { vectors }) => {
            assert forall|i: int| 0 <= i < next.points.len() implies next.worked_off(
                (#[trigger] next.points[i]).text,
            ) by {
                if i < state.points.len() {
                    assert(next.points[i] == state.points[i]);
                    assert(state.worked_off(state.points[i].text));
                    let j = choose|j: int|
                        0 <= j < state.cursor && #[trigger] state.sections->0[j]
                            == state.points[i].text;
                    assert(next.sections->0[j] == next.points[i].text);
                } else {
                    assert(next.sections->0[state.cursor as int] == next.points[i].text);
                }
            }
        },
        _ => {},
    }
}

/// A run of steps keeps what holds of every state.
pub proof fn law_run_keeps_wf(state: PipelineView, events: Seq<Event>)
    requires
        state.wf(),
        state.admits_all(events),
    ensures
        state.run(events).wf(),
    decreases events.len(),
{
    if events.len() > 0 {
        law_run_keeps_wf(state, events.drop_last());
        law_step_keeps_wf(state.run(events.drop_last()), events.last());
    }
}

/// A run starts in a state of which all that holds.
pub proof fn law_initial_wf(reset: bool, vector_size: u64, sections: Option<Seq<Seq<char>>>)
    ensures
        PipelineView::initial(reset, vector_size, sections).wf(),
{
}

/// Once points exist, the identifier of the first point stays what it is.
pub proof fn lemma_first_id_settled(state: PipelineView, event: Event)
    requires
        state.wf(),
        !(state.phase is Deleting),
        !(state.phase is Creating),
        !(state.phase is Counting),
    ensures
        state.after(event).first_id == state.first_id,
        !(state.after(event).phase is Deleting),
        !(state.after(event).phase is Creating),
        !(state.after(event).phase is Counting),
{
}

/// After a reset the first identifier of a run is zero, whatever the
/// events.
pub proof fn lemma_reset_starts_at_zero(
    vector_size: u64,
    sections: Option<Seq<Seq<char>>>,
    events: Seq<Event>,
)
    ensures
        PipelineView::initial(true, vector_size, sections).run(events).first_id == 0,
        !(PipelineView::initial(true, vector_size, sections).run(events).phase is Counting),
    decreases events.len(),
{
    if events.len() > 0 {
        lemma_reset_starts_at_zero(vector_size, sections, events.drop_last());
    }
}

/// Without a reset the first identifier of a run is the number of points
/// that the collection reported in answer to the first question.
pub proof fn lemma_continuation_starts_at_count(
    vector_size: u64,
    sections: Option<Seq<Seq<char>>>,
    events: Seq<Event>,
    stored: u64,
)
    requires
        events.len() > 0,
        events[0] == (Event::PointsCounted { count: Some(stored) }),
        PipelineView::initial(false, vector_size, sections).admits_all(events),
    ensures
        PipelineView::initial(false, vector_size, sections).run(events).first_id == stored,
        !(PipelineView::initial(false, vector_size, sections).run(events).phase is Deleting),
        !(PipelineView::initial(false, vector_size, sections).run(events).phase is Creating),
        !(PipelineView::initial(false, vector_size, sections).run(events).phase is Counting),
    decreases events.len(),
{
    let start = PipelineView::initial(false, vector_size, sections);
    let earlier = events.drop_last();
    if earlier.len() == 0 {
        assert(start.run(earlier) == start);
        assert(events.last() == events[0]);
    } else {
        assert(earlier[0] == events[0]);
        lemma_continuation_starts_at_count(vector_size, sections, earlier, stored);
        law_initial_wf(false, vector_size, sections);
        law_run_keeps_wf(start, earlier);
        lemma_first_id_settled(start.run(earlier), events.last());
    }
}

/// The identifiers of a run count up by one from its first identifier:
/// whatever the events, the point at position `i` has the identifier
/// `first_id + i`. After a reset the first identifier is zero; otherwise it
/// is the number of points that the collection reported when the run
/// began.
pub proof fn law_identifiers_count_up(
    reset: bool,
    vector_size: u64,
    sections: Option<Seq<Seq<char>>>,
    events: Seq<Event>,
)
    requires
        PipelineView::initial(reset, vector_size, sections).admits_all(events),
    ensures
        ({
            let end = PipelineView::initial(reset, vector_size, sections).run(events);
            &&& forall|i: int|
                0 <= i < end.points.len() ==> (#[trigger] end.points[i]).id == end.first_id + i
            &&& reset ==> end.first_id == 0
            &&& !reset && events.len() > 0 ==> (events[0] matches Event::PointsCounted {
                count: Some(stored),
            } ==> end.first_id == stored)
        }),
{
    let start = PipelineView::initial(reset, vector_size, sections);
    law_initial_wf(reset, vector_size, sections);
    law_run_keeps_wf(start, events);
    if reset {
        lemma_reset_starts_at_zero(vector_size, sections, events);
    } else if events.len() > 0 {
        match events[0] {
            Event::PointsCounted { count: Some(stored) } => {
                lemma_continuation_starts_at_count(vector_size, sections, events, stored);
            },
            _ => {},
        }
    }
}

/// A section that was embedded yields exactly one point for each vector
/// that came back: the points so far stay, and behind them stands one point
/// per vector, each with the text that was handed out for embedding, whole,
/// and each with the identifier that follows the one before.
pub proof fn law_one_point_per_vector(state: PipelineView, vectors: usize)
    requires
        state.wf(),
        state.phase is Embedding,
        state.admits(Event::SectionEmbedded { vectors: Some(vectors) }),
    ensures
        state.pending() == (ActionView::EmbedSection { text: state.current_section() }),
        ({
            let next = state.after(Event::SectionEmbedded { vectors: Some(vectors) });
            &&& next.points.len() == state.points.len() + vectors
            &&& next.points.take(state.points.len() as int) == state.points
            &&& forall|j: int|
                0 <= j < vectors ==> (#[trigger] next.points[state.points.len() + j]).text
                    == state.current_section()
            &&& forall|j: int|
                0 <= j < vectors ==> (#[trigger] next.points[state.points.len() + j]).id
                    == state.next_id() + j
            &&& next.cursor == state.cursor + 1
        }),
{
    let next = state.after(Event::SectionEmbedded { vectors: Some(vectors) });
    assert(next.points.take(state.points.len() as int) =~= state.points);
}

/// A section that could not be embedded yields no point, and the run goes
/// on: with the next section if there is one, with storing otherwise.
pub proof fn law_failed_section_is_skipped(state: PipelineView)
    requires
        state.wf(),
        state.phase is Embedding,
    ensures
        ({
            let next = state.after(Event::SectionEmbedded { vectors: None });
            &&& next.points == state.points
            &&& next.cursor == state.cursor + 1
            &&& next.phase is Embedding || next.phase is Upserting
        }),
{
}

/// Every point carries the text of a section of the document.
pub proof fn law_points_carry_sections(state: PipelineView, i: int)
    requires
        state.wf(),
        0 <= i < state.points.len(),
    ensures
        state.sections is Some,
        state.sections->0.contains(state.points[i].text),
{
    assert(state.worked_off(state.points[i].text));
    let j = choose|j: int|
        0 <= j < state.cursor && #[trigger] state.sections->0[j] == state.points[i].text;
    assert(state.sections->0[j] == state.points[i].text);
}

/// Every answer has the status 200, whatever the outcome.
pub proof fn law_answer_is_ok(state: PipelineView)
    ensures
        state.pending() matches ActionView::Respond { response } ==> response.status == 200,
{
}

/// An event that does not answer the pending action changes nothing.
pub proof fn law_stray_event_is_ignored(state: PipelineView, event: Event)
    requires
        match state.phase {
            Phase::Deleting => !(event is CollectionDeleted),
            Phase::Creating => !(event is CollectionCreated),
            Phase::Counting => !(event is PointsCounted),
            Phase::Embedding => !(event is SectionEmbedded),
            Phase::Upserting => !(event is PointsUpserted),
            Phase::Recounting => !(event is PointsCounted),
            Phase::Done(_) => true,
            Phase::Aborted => true,
        },
    ensures
        state.after(event) == state,
{
}

} // verus!
