use std::ops::Range;
use std::rc::Rc;
use vstd::prelude::*;
use crate::file::identifier::Identifier;
use crate::file::trace::Trace;
use vstd::string::StrSliceExecFns;
use crate::lexer::text::collect_chars;

verus! {

/// A unit of source text under the name of the module that it defines.
#[derive(Debug, PartialEq)]
pub struct SourceFile {
    pub module_name: Identifier,
    pub source: String,
}

/// The mathematical value of a `SourceFile`: the characters of its name and of its text.
pub struct SourceFileView {
    pub module_name: Seq<char>,
    pub source: Seq<char>,
}

/// The characters of `<main>`, the module name of a buffer made from a string.
pub open spec fn anonymous_module_name() -> Seq<char> {
    seq!['<', 'm', 'a', 'i', 'n', '>']
}

/// The part of a file's name that names its module: the name up to its first `.`, or the
/// whole name where it holds none.
pub open spec fn stem(name: Seq<char>) -> Seq<char>
    decreases name.len(),
{
    if name.len() == 0 || name[0] == '.' {
        Seq::empty()
    } else {
        seq![name[0]] + stem(name.drop_first())
    }
}

/// `Rc::clone`: a second handle to the same shared value, which Verus sees as the value itself.
#[verifier::external_body]
pub(crate) fn share(file: &Rc<SourceFile>) -> (r: Rc<SourceFile>)
    ensures
        r == *file,
{
    Rc::clone(file)
}

impl View for SourceFile {
    type V = SourceFileView;

    open spec fn view(&self) -> SourceFileView {
        SourceFileView { module_name: self.module_name@, source: self.source@ }
    }
}

impl Clone for SourceFile {
    fn clone(&self) -> (r: Self)
        ensures
            r == *self,
    {
        SourceFile { module_name: self.module_name.clone(), source: self.source.clone() }
    }
}

impl SourceFile {
    /// A buffer that holds `source`, under the module name `<main>`.
    pub fn new(source: &str) -> (r: Self)
        ensures
            r@.source == source@,
            r@.module_name == anonymous_module_name(),
    {
        let name = "<main>";
        proof {
            reveal_strlit("<main>");
            assert(name@ =~= anonymous_module_name());
        }
        SourceFile { module_name: Identifier::from(name), source: source.to_owned() }
    }

    /// A buffer that holds `contents`, the text of the file named `file_name`, under the
    /// module name that the file's name gives: the name up to its first `.`.
    pub fn from_contents(file_name: &str, contents: String) -> (r: Self)
        ensures
            r@.source == contents@,
            r@.module_name == stem(file_name@),
    {
        let chars = collect_chars(file_name);
        let ghost name = chars@;
        let mut end: usize = 0;
        assert(name.skip(0) =~= name);
        while end < chars.len() && chars[end] != '.'
            invariant
                end <= chars@.len(),
                name == chars@,
                stem(name) == name.take(end as int) + stem(name.skip(end as int)),
            decreases chars@.len() - end,
        {
            proof {
                let rest = name.skip(end as int);
                assert(rest.drop_first() =~= name.skip(end + 1));
                assert(name.take(end as int) + (seq![rest[0]] + stem(rest.drop_first()))
                    =~= name.take(end + 1) + stem(name.skip(end + 1)));
            }
            end += 1;
        }
        proof {
            let rest = name.skip(end as int);
            assert(stem(rest) =~= Seq::<char>::empty());
            assert(name.take(end as int) + Seq::<char>::empty() =~= name.subrange(0, end as int));
        }
        SourceFile {
            module_name: Identifier(file_name.substring_char(0, end).to_owned()),
            source: contents,
        }
    }

    /// A span over `range` of this buffer. The range is taken as given.
    pub fn trace(self: &Rc<Self>, range: Range<usize>) -> (r: Trace)
        ensures
            r.source == *self,
            r.range == range,
    {
        Trace { source: share(self), range }
    }

    /// This buffer behind a shared handle, from which spans are made.
    pub fn rc(self) -> (r: Rc<Self>)
        ensures
            *r == self,
    {
        Rc::new(self)
    }
}

} // verus!
