//! Where records go.

use crate::json::{json_text, to_json};
use crate::record::{Fields, Record};
use vstd::prelude::*;

verus! {

/// Reports data to some given backend.
///
/// A sink is one destination. What it does with a record once it has it,
/// whether it buffers, sends or drops it, is its own affair: a failure to
/// deliver stays inside the sink and never reaches the caller.
pub trait Sink {
    /// Whether the sink keeps account of what it is handed. One that does
    /// says in [`Sink::delivered`] what it has been handed so far.
    open spec fn keeps_account(&self) -> bool {
        false
    }

    /// The records that were handed to the sink, oldest first, where the
    /// sink keeps account of them.
    open spec fn delivered(&self) -> Seq<Fields> {
        Seq::empty()
    }

    /// Reports data to the backend.
    fn report_data(&mut self, data: Record)
        ensures
            old(self).keeps_account() ==> final(self).keeps_account() && final(self).delivered()
                == old(self).delivered().push(data@),
    ;
}

/// Sink that keeps every record in memory, in the order of arrival.
#[derive(Debug)]
pub struct MemorySink {
    records: Vec<Record>,
}

impl MemorySink {
    /// The sink that holds no record yet.
    pub fn new() -> (sink: MemorySink)
        ensures
            sink.delivered() == Seq::<Fields>::empty(),
    {
        let sink = MemorySink { records: Vec::new() };
        assert(sink.delivered() =~= Seq::<Fields>::empty());
        sink
    }

    /// How many records the sink holds.
    pub fn len(&self) -> (n: usize)
        ensures
            n == self.delivered().len(),
    {
        self.records.len()
    }

    /// The record that arrived as number `i`, counting from zero.
    pub fn get(&self, i: usize) -> (record: Option<&Record>)
        ensures
            match record {
                Some(r) => i < self.delivered().len() && r@ == self.delivered()[i as int],
                None => i >= self.delivered().len(),
            },
    {
        if i < self.records.len() {
            Some(&self.records[i])
        } else {
            None
        }
    }
}

impl Sink for MemorySink {
    open spec fn keeps_account(&self) -> bool {
        true
    }

    closed spec fn delivered(&self) -> Seq<Fields> {
        self.records@.map_values(|r: Record| r@)
    }

    fn report_data(&mut self, data: Record) {
        self.records.push(data);
        assert(self.delivered() =~= old(self).delivered().push(data@));
    }
}

/// Sink that lets every record go.
pub struct Blackhole {
    seen: Ghost<Seq<Fields>>,
}

impl Blackhole {
    /// The sink that has seen nothing yet.
    pub fn new() -> (sink: Blackhole)
        ensures
            sink.delivered() == Seq::<Fields>::empty(),
    {
        Blackhole { seen: Ghost(Seq::empty()) }
    }
}

impl Sink for Blackhole {
    open spec fn keeps_account(&self) -> bool {
        true
    }

    closed spec fn delivered(&self) -> Seq<Fields> {
        self.seen@
    }

    fn report_data(&mut self, data: Record) {
        self.seen = Ghost(self.seen@.push(data@));
    }
}

/// Sink that publishes events and spans to stdout, one line of JSON for each.
///
/// The sink says what is to be written; the writing is left to the caller.
#[derive(Debug, Clone, Copy)]
pub struct Stdout;

impl Stdout {
    /// What is written for an attempt to put a record into JSON: the text
    /// where there is one, and nothing where the attempt failed.
    pub fn output(rendered: Result<String, serde_json::Error>) -> (line: Option<String>)
        ensures
            line == match rendered {
                Ok(text) => Some(text),
                Err(_) => None,
            },
    {
        match rendered {
            Ok(text) => Some(text),
            Err(_) => None,
        }
    }

    /// The line that is written for the record: the JSON text of its
    /// fields, and nothing where there is no such text.
    pub fn line(&self, data: &Record) -> (line: Option<String>)
        ensures
            line matches Some(text) ==> json_text(data@) == Some(text@),
            line is None ==> json_text(data@) is None,
    {
        Stdout::output(to_json(data))
    }
}

} // verus!
