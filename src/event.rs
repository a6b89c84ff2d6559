//! The unit that flows between stages, and the builder that is the only checked
//! way to make one.

use vstd::prelude::*;

verus! {

/// The type that the values of a column are read as.
#[derive(Clone, Copy, Debug, PartialEq, Eq, Structural)]
pub enum ColumnType {
    Utf8,
    Integer,
    Boolean,
}

/// One named, typed column; every value is carried as its text.
#[derive(Clone, Debug)]
pub struct Column {
    pub name: String,
    pub column_type: ColumnType,
    pub values: Vec<String>,
}

/// Named, typed columns of one common length.
#[derive(Clone, Debug)]
pub struct ColumnarBatch {
    pub columns: Vec<Column>,
    pub num_rows: usize,
}

impl ColumnarBatch {
    /// Every column holds exactly `num_rows` values.
    pub open spec fn wf(&self) -> bool {
        forall|i: int|
            0 <= i < self.columns@.len() ==> #[trigger] self.columns@[i].values@.len()
                == self.num_rows
    }

    /// Builds a batch from columns, which must all have the same length; a batch
    /// without columns has no rows.
    pub fn try_new(columns: Vec<Column>) -> (r: Result<ColumnarBatch, EventError>)
        ensures
            r is Ok <==> (forall|i: int, j: int|
                0 <= i < columns@.len() && 0 <= j < columns@.len()
                    ==> #[trigger] columns@[i].values@.len() == #[trigger] columns@[j].values@.len()),
            r matches Ok(b) ==> b.wf() && b.columns@ == columns@ && (columns@.len() == 0
                ==> b.num_rows == 0),
            r matches Err(e) ==> e == EventError::UnequalColumnLengths,
    {
        let mut num_rows: usize = 0;
        if columns.len() > 0 {
            num_rows = columns[0].values.len();
        }
        let mut i: usize = 0;
        while i < columns.len()
            invariant
                i <= columns@.len(),
                columns@.len() > 0 ==> num_rows == columns@[0].values@.len(),
                forall|k: int| 0 <= k < i ==> #[trigger] columns@[k].values@.len() == num_rows,
            decreases columns@.len() - i,
        {
            if columns[i].values.len() != num_rows {
                return Err(EventError::UnequalColumnLengths);
            }
            i = i + 1;
        }
        Ok(ColumnarBatch { columns, num_rows })
    }

    /// A batch of one row: each `(name, text)` pair becomes a text column holding
    /// that one value, in the order given. A row without columns is refused, as
    /// a batch without columns has no rows.
    pub fn from_text_row(pairs: Vec<(String, String)>) -> (r: Result<ColumnarBatch, EventError>)
        ensures
            r is Err <==> pairs@.len() == 0,
            r matches Err(e) ==> e == EventError::NoColumns,
            r matches Ok(b) ==> {
                &&& b.wf()
                &&& b.num_rows == 1
                &&& b.columns@.len() == pairs@.len()
                &&& forall|i: int|
                    0 <= i < pairs@.len() ==> {
                        &&& (#[trigger] b.columns@[i]).name@ == pairs@[i].0@
                        &&& b.columns@[i].column_type == ColumnType::Utf8
                        &&& b.columns@[i].values@.len() == 1
                        &&& b.columns@[i].values@[0]@ == pairs@[i].1@
                    }
            },
    {
        if pairs.len() == 0 {
            return Err(EventError::NoColumns);
        }
        let mut columns: Vec<Column> = Vec::new();
        let mut i: usize = 0;
        while i < pairs.len()
            invariant
                i <= pairs@.len(),
                columns@.len() == i,
                forall|k: int|
                    0 <= k < i ==> {
                        &&& (#[trigger] columns@[k]).name@ == pairs@[k].0@
                        &&& columns@[k].column_type == ColumnType::Utf8
                        &&& columns@[k].values@.len() == 1
                        &&& columns@[k].values@[0]@ == pairs@[k].1@
                    },
            decreases pairs@.len() - i,
        {
            let name = pairs[i].0.clone();
            let value = pairs[i].1.clone();
            let mut values: Vec<String> = Vec::new();
            values.push(value);
            columns.push(Column { name, column_type: ColumnType::Utf8, values });
            i = i + 1;
        }
        Ok(ColumnarBatch { columns, num_rows: 1 })
    }
}

/// A record in compact binary form, with the schema it was written against.
#[derive(Clone, Debug)]
pub struct AvroData {
    pub schema: String,
    pub raw_bytes: Vec<u8>,
}

/// The payload of an event: exactly one encoding, which consumers dispatch on.
#[derive(Clone, Debug)]
pub enum EventData {
    ColumnarBatch(ColumnarBatch),
    AvroRecord(AvroData),
    /// A structured value, held as its JSON text.
    Json(String),
}

/// The encoder a payload is written with.
#[derive(Clone, Copy, Debug, PartialEq, Eq, Structural)]
pub enum Encoding {
    ArrowStream,
    Bincode,
    JsonText,
}

pub open spec fn encoding_of(data: EventData) -> Encoding {
    match data {
        EventData::ColumnarBatch(_) => Encoding::ArrowStream,
        EventData::AvroRecord(_) => Encoding::Bincode,
        EventData::Json(_) => Encoding::JsonText,
    }
}

impl EventData {
    /// Chooses the encoder by the payload's tag.
    pub fn encoding(&self) -> (r: Encoding)
        ensures
            r == encoding_of(*self),
    {
        match self {
            EventData::ColumnarBatch(_) => Encoding::ArrowStream,
            EventData::AvroRecord(_) => Encoding::Bincode,
            EventData::Json(_) => Encoding::JsonText,
        }
    }
}

/// What can go wrong while making an event or its payload.
#[derive(Clone, Copy, Debug, PartialEq, Eq, Structural)]
pub enum EventError {
    MissingData,
    MissingSubject,
    UnequalColumnLengths,
    /// A row must have at least one column.
    NoColumns,
}

/// The message exchanged on the bus.
#[derive(Clone, Debug)]
pub struct Event {
    /// Identity chosen by the producer; downstream names files after it.
    pub id: Option<String>,
    /// Label for logging and downstream naming; the bus does not route on it.
    pub subject: String,
    pub data: EventData,
    /// Position of the task that emitted the event.
    pub current_task_id: Option<usize>,
}

/// Collects the parts of an event; `build` checks that the required ones are set.
#[derive(Clone, Debug)]
pub struct EventBuilder {
    pub id: Option<String>,
    pub subject: Option<String>,
    pub data: Option<EventData>,
    pub current_task_id: Option<usize>,
}

impl EventBuilder {
    pub fn new() -> (r: EventBuilder)
        ensures
            r.id is None,
            r.subject is None,
            r.data is None,
            r.current_task_id is None,
    {
        EventBuilder { id: None, subject: None, data: None, current_task_id: None }
    }

    pub fn data(self, data: EventData) -> (r: EventBuilder)
        ensures
            r == (EventBuilder { data: Some(data), ..self }),
    {
        EventBuilder { data: Some(data), ..self }
    }

    pub fn subject(self, subject: String) -> (r: EventBuilder)
        ensures
            r == (EventBuilder { subject: Some(subject), ..self }),
    {
        EventBuilder { subject: Some(subject), ..self }
    }

    pub fn id(self, id: String) -> (r: EventBuilder)
        ensures
            r == (EventBuilder { id: Some(id), ..self }),
    {
        EventBuilder { id: Some(id), ..self }
    }

    pub fn current_task_id(self, current_task_id: usize) -> (r: EventBuilder)
        ensures
            r == (EventBuilder { current_task_id: Some(current_task_id), ..self }),
    {
        EventBuilder { current_task_id: Some(current_task_id), ..self }
    }

    /// Succeeds exactly when both the data and the subject are set; every part is
    /// carried over unchanged. A missing data is reported before a missing subject.
    pub fn build(self) -> (r: Result<Event, EventError>)
        ensures
            r is Ok <==> (self.data is Some && self.subject is Some),
            r matches Ok(e) ==> {
                &&& Some(e.data) == self.data
                &&& Some(e.subject) == self.subject
                &&& e.id == self.id
                &&& e.current_task_id == self.current_task_id
            },
            r matches Err(err) ==> (if self.data is None {
                err == EventError::MissingData
            } else {
                err == EventError::MissingSubject
            }),
    {
        match self.data {
            None => Err(EventError::MissingData),
            Some(data) => match self.subject {
                None => Err(EventError::MissingSubject),
                Some(subject) => Ok(
                    Event { id: self.id, subject, data, current_task_id: self.current_task_id },
                ),
            },
        }
    }
}

} // verus!
