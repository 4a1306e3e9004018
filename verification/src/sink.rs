//! An in-memory pair of text sinks. The dispatcher writes usage and
//! diagnostic text to the error sink; the output sink is reserved for
//! command handlers. The embedding program decides where the accumulated
//! text finally goes.

use vstd::prelude::*;
use vstd::string::StringExecFns;

verus! {

/// The text accumulated on a pair of sinks, each as a sequence of
/// characters.
#[verifier::ext_equal]
pub struct SinkView {
    /// The text written to the ordinary output sink.
    pub output: Seq<char>,
    /// The text written to the diagnostic (error) sink.
    pub error: Seq<char>,
}

/// A pair of in-memory text sinks: one for ordinary output, one for
/// diagnostics.
pub struct Sink {
    output: String,
    error: String,
}

impl View for Sink {
    type V = SinkView;

    closed spec fn view(&self) -> SinkView {
        SinkView { output: self.output@, error: self.error@ }
    }
}

impl Sink {
    /// Creates a pair of empty sinks.
    pub fn new() -> (s: Sink)
        ensures
            s@.output == Seq::<char>::empty(),
            s@.error == Seq::<char>::empty(),
    {
        Sink { output: String::new(), error: String::new() }
    }

    /// Appends `s` to the output sink.
    pub fn write_output(&mut self, s: &str)
        ensures
            final(self)@.output == old(self)@.output + s@,
            final(self)@.error == old(self)@.error,
    {
        self.output.append(s);
    }

    /// Appends `s` to the error sink.
    pub fn write_error(&mut self, s: &str)
        ensures
            final(self)@.error == old(self)@.error + s@,
            final(self)@.output == old(self)@.output,
    {
        self.error.append(s);
    }

    /// The text written to the output sink so far.
    pub fn read_output(&self) -> (r: &str)
        ensures
            r@ == self@.output,
    {
        self.output.as_str()
    }

    /// The text written to the error sink so far.
    pub fn read_error(&self) -> (r: &str)
        ensures
            r@ == self@.error,
    {
        self.error.as_str()
    }
}

} // verus!
