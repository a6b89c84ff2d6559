//! The ordering gate and a stage's reaction to what the shared bus delivers.

use vstd::prelude::*;
use crate::event::{Event, EventData};

verus! {

/// A stage admits an event exactly when the stage right before it emitted it.
/// The source stage, with id 0, has no predecessor and admits nothing.
pub open spec fn gate_admits(task_id: int, emitted_by: Option<usize>) -> bool {
    emitted_by matches Some(p) && p + 1 == task_id
}

/// The ordering gate of the stage with id `task_id`.
pub fn admits(task_id: usize, event: &Event) -> (r: bool)
    ensures
        r == gate_admits(task_id as int, event.current_task_id),
{
    match event.current_task_id {
        Some(p) => task_id > 0 && p == task_id - 1,
        None => false,
    }
}

/// What a subscriber got from the bus.
#[derive(Clone, Debug)]
pub enum Delivery {
    Event(Event),
    /// The subscriber fell behind and this many events were dropped for it.
    Lagged(u64),
    /// Every publisher is gone.
    Closed,
}

/// What the stage does next.
#[derive(Clone, Debug)]
pub enum StageStep {
    /// Process this event.
    Handle(Event),
    /// The event was meant for another stage.
    Ignore,
    /// Go on with the next event that the bus holds.
    Resume,
    Stop,
}

/// The book-keeping of one consuming stage.
#[derive(Clone, Copy, Debug, PartialEq, Eq, Structural)]
pub struct StageState {
    pub task_id: usize,
    /// Events let in by the ordering gate.
    pub handled: u64,
    /// Events lost to lag, as reported by the bus.
    pub lost: u64,
    pub stopped: bool,
}

pub open spec fn saturating_sum(a: u64, b: u64) -> u64 {
    if a + b > u64::MAX {
        u64::MAX
    } else {
        (a + b) as u64
    }
}

impl StageState {
    pub fn new(task_id: usize) -> (r: StageState)
        ensures
            r == (StageState { task_id, handled: 0, lost: 0, stopped: false }),
    {
        StageState { task_id, handled: 0, lost: 0, stopped: false }
    }

    /// Reacts to one delivery. An admitted event is handed on; any other event
    /// leaves the stage as it was; a reported lag is counted and the stage
    /// resumes with the next event instead of stopping; a closed bus stops it,
    /// and a stopped stage stays stopped.
    pub fn on_delivery(&mut self, delivery: Delivery) -> (r: StageStep)
        ensures
            final(self).task_id == old(self).task_id,
            old(self).stopped ==> (r is Stop && *final(self) == *old(self)),
            !old(self).stopped ==> match delivery {
                Delivery::Event(e) => if gate_admits(old(self).task_id as int, e.current_task_id) {
                    &&& r == StageStep::Handle(e)
                    &&& *final(self) == (StageState {
                        handled: saturating_sum(old(self).handled, 1),
                        ..*old(self)
                    })
                } else {
                    r is Ignore && *final(self) == *old(self)
                },
                Delivery::Lagged(n) => {
                    &&& r is Resume
                    &&& *final(self) == (StageState {
                        lost: saturating_sum(old(self).lost, n),
                        ..*old(self)
                    })
                },
                Delivery::Closed => r is Stop && *final(self) == (StageState {
                    stopped: true,
                    ..*old(self)
                }),
            },
    {
        if self.stopped {
            return StageStep::Stop;
        }
        match delivery {
            Delivery::Event(e) => {
                if admits(self.task_id, &e) {
                    self.handled = if self.handled < u64::MAX {
                        self.handled + 1
                    } else {
                        u64::MAX
                    };
                    StageStep::Handle(e)
                } else {
                    StageStep::Ignore
                }
            },
            Delivery::Lagged(n) => {
                self.lost = if self.lost <= u64::MAX - n {
                    self.lost + n
                } else {
                    u64::MAX
                };
                StageStep::Resume
            },
            Delivery::Closed => {
                self.stopped = true;
                StageStep::Stop
            },
        }
    }
}

/// The event a stage emits: tagged with the stage's own id.
pub fn emit(task_id: usize, data: EventData, subject: String, id: Option<String>) -> (r: Event)
    ensures
        r.current_task_id == Some(task_id),
        r.data == data,
        r.subject == subject,
        r.id == id,
{
    Event { id, subject, data, current_task_id: Some(task_id) }
}

/// The loop of a stage that emits an event at every tick, for a number of
/// ticks or for ever.
#[derive(Clone, Copy, Debug, PartialEq, Eq, Structural)]
pub struct GeneratorState {
    /// Ticks so far.
    pub emitted: u64,
    /// Stop after this many ticks; `None` never stops.
    pub count: Option<u64>,
}

impl GeneratorState {
    pub fn new(count: Option<u64>) -> (r: GeneratorState)
        ensures
            r == (GeneratorState { emitted: 0, count }),
    {
        GeneratorState { emitted: 0, count }
    }

    /// Records one emitted event; says whether to go on.
    pub fn tick(&mut self) -> (go_on: bool)
        requires
            old(self).emitted < u64::MAX,
        ensures
            final(self).emitted == old(self).emitted + 1,
            final(self).count == old(self).count,
            go_on <==> !(old(self).count == Some((old(self).emitted + 1) as u64)),
    {
        self.emitted = self.emitted + 1;
        match self.count {
            Some(c) => c != self.emitted,
            None => true,
        }
    }
}

/// What a stage builder was missing.
#[derive(Clone, Copy, Debug, PartialEq, Eq, Structural)]
pub enum StageBuildError {
    MissingConfig,
    MissingSender,
    MissingReceiver,
}

/// A built stage: its configuration, its end of the bus, and its id.
#[derive(Debug)]
pub struct StageSetup<C, T> {
    pub config: C,
    pub channel: T,
    pub current_task_id: usize,
}

/// Collects what a source stage needs: its configuration and the sending end
/// of the bus. The id defaults to 0.
#[derive(Debug)]
pub struct SubscriberBuilder<C, S> {
    pub config: Option<C>,
    pub sender: Option<S>,
    pub current_task_id: usize,
}

impl<C, S> SubscriberBuilder<C, S> {
    pub fn new() -> (r: SubscriberBuilder<C, S>)
        ensures
            r.config is None,
            r.sender is None,
            r.current_task_id == 0,
    {
        SubscriberBuilder { config: None, sender: None, current_task_id: 0 }
    }

    pub fn config(self, config: C) -> (r: SubscriberBuilder<C, S>)
        ensures
            r == (SubscriberBuilder { config: Some(config), ..self }),
    {
        SubscriberBuilder { config: Some(config), ..self }
    }

    pub fn sender(self, sender: S) -> (r: SubscriberBuilder<C, S>)
        ensures
            r == (SubscriberBuilder { sender: Some(sender), ..self }),
    {
        SubscriberBuilder { sender: Some(sender), ..self }
    }

    pub fn current_task_id(self, current_task_id: usize) -> (r: SubscriberBuilder<C, S>)
        ensures
            r == (SubscriberBuilder { current_task_id, ..self }),
    {
        SubscriberBuilder { current_task_id, ..self }
    }

    /// Succeeds exactly when the configuration and the sender are set; a
    /// missing configuration is reported first.
    pub fn build(self) -> (r: Result<StageSetup<C, S>, StageBuildError>)
        ensures
            r is Ok <==> (self.config is Some && self.sender is Some),
            r matches Ok(st) ==> Some(st.config) == self.config && Some(st.channel)
                == self.sender && st.current_task_id == self.current_task_id,
            r matches Err(e) ==> e == if self.config is None {
                StageBuildError::MissingConfig
            } else {
                StageBuildError::MissingSender
            },
    {
        match self.config {
            None => Err(StageBuildError::MissingConfig),
            Some(config) => match self.sender {
                None => Err(StageBuildError::MissingSender),
                Some(channel) => Ok(
                    StageSetup { config, channel, current_task_id: self.current_task_id },
                ),
            },
        }
    }
}

/// Collects what a consuming stage needs: its configuration and the receiving
/// end of the bus. The id defaults to 0.
#[derive(Debug)]
pub struct WriterBuilder<C, R> {
    pub config: Option<C>,
    pub receiver: Option<R>,
    pub current_task_id: usize,
}

impl<C, R> WriterBuilder<C, R> {
    pub fn new() -> (r: WriterBuilder<C, R>)
        ensures
            r.config is None,
            r.receiver is None,
            r.current_task_id == 0,
    {
        WriterBuilder { config: None, receiver: None, current_task_id: 0 }
    }

    pub fn config(self, config: C) -> (r: WriterBuilder<C, R>)
        ensures
            r == (WriterBuilder { config: Some(config), ..self }),
    {
        WriterBuilder { config: Some(config), ..self }
    }

    pub fn receiver(self, receiver: R) -> (r: WriterBuilder<C, R>)
        ensures
            r == (WriterBuilder { receiver: Some(receiver), ..self }),
    {
        WriterBuilder { receiver: Some(receiver), ..self }
    }

    pub fn current_task_id(self, current_task_id: usize) -> (r: WriterBuilder<C, R>)
        ensures
            r == (WriterBuilder { current_task_id, ..self }),
    {
        WriterBuilder { current_task_id, ..self }
    }

    /// Succeeds exactly when the configuration and the receiver are set; a
    /// missing configuration is reported first.
    pub fn build(self) -> (r: Result<StageSetup<C, R>, StageBuildError>)
        ensures
            r is Ok <==> (self.config is Some && self.receiver is Some),
            r matches Ok(st) ==> Some(st.config) == self.config && Some(st.channel)
                == self.receiver && st.current_task_id == self.current_task_id,
            r matches Err(e) ==> e == if self.config is None {
                StageBuildError::MissingConfig
            } else {
                StageBuildError::MissingReceiver
            },
    {
        match self.config {
            None => Err(StageBuildError::MissingConfig),
            Some(config) => match self.receiver {
                None => Err(StageBuildError::MissingReceiver),
                Some(channel) => Ok(
                    StageSetup { config, channel, current_task_id: self.current_task_id },
                ),
            },
        }
    }
}

} // verus!
