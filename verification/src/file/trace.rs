use std::ops::Range;
use std::rc::Rc;
use vstd::prelude::*;
use vstd::std_specs::cmp::PartialEqSpecImpl;
use crate::file::source_file::{share, SourceFile, SourceFileView};

verus! {

/// A span of a source buffer: a shared handle to the buffer and a half-open range of byte
/// positions in its text.
#[derive(Debug)]
pub struct Trace {
    pub source: Rc<SourceFile>,
    pub range: Range<usize>,
}

/// The mathematical value of a `Trace`: the buffer's content and the two ends of the range.
pub struct TraceView {
    pub source: SourceFileView,
    pub start: int,
    pub end: int,
}

/// The smallest span of the buffer `source` that covers the ranges of `a` and `b`: from the
/// lesser of their starts to the greater of their ends.
pub open spec fn cover(source: SourceFileView, a: TraceView, b: TraceView) -> TraceView {
    TraceView {
        source,
        start: if a.start <= b.start {
            a.start
        } else {
            b.start
        },
        end: if a.end >= b.end {
            a.end
        } else {
            b.end
        },
    }
}

impl View for Trace {
    type V = TraceView;

    open spec fn view(&self) -> TraceView {
        TraceView {
            source: self.source@,
            start: self.range.start as int,
            end: self.range.end as int,
        }
    }
}

impl Clone for Trace {
    fn clone(&self) -> (r: Self)
        ensures
            r == *self,
    {
        Trace { source: share(&self.source), range: self.range.start..self.range.end }
    }
}

impl PartialEqSpecImpl for Trace {
    open spec fn obeys_eq_spec() -> bool {
        true
    }

    open spec fn eq_spec(&self, other: &Trace) -> bool {
        self@ == other@
    }
}

/// Two spans are equal when they cover the same range of buffers with the same content.
impl PartialEq for Trace {
    fn eq(&self, other: &Trace) -> (r: bool) {
        self.range.start == other.range.start && self.range.end == other.range.end
            && self.source.source == other.source.source
            && self.source.module_name.0 == other.source.module_name.0
    }
}

impl Eq for Trace {

}

} // verus!
