use vstd::prelude::*;
use vstd::string::StringExecFns;

verus! {

/// A name, as written in the source. Its view is the sequence of its characters.
#[derive(Debug, PartialEq, Eq, Hash)]
pub struct Identifier(pub String);

/// A module path, root segment first. Its view is the sequence of the segments' views.
#[derive(Debug, PartialEq, Eq, Hash)]
pub struct Namespace {
    pub chain: Vec<Identifier>,
}

/// A fully qualified symbol: the module that holds it and its local name.
#[derive(Debug, PartialEq, Eq, Hash)]
pub struct GlobalIdentifier(pub Namespace, pub Identifier);

/// The mathematical value of a `GlobalIdentifier`.
pub struct GlobalIdentifierView {
    pub namespace: Seq<Seq<char>>,
    pub name: Seq<char>,
}

/// The characters of `main`, the root module's name.
pub open spec fn main_name() -> Seq<char> {
    seq!['m', 'a', 'i', 'n']
}

/// The segments of `chain`, in order, with a `.` between each two.
pub open spec fn joined(chain: Seq<Seq<char>>) -> Seq<char>
    decreases chain.len(),
{
    if chain.len() == 0 {
        Seq::empty()
    } else if chain.len() == 1 {
        chain[0]
    } else {
        joined(chain.drop_last()) + seq!['.'] + chain.last()
    }
}

/// How a module path is written: `<global>` for the empty path, and otherwise the segments
/// with a `.` between each two.
pub open spec fn namespace_text(chain: Seq<Seq<char>>) -> Seq<char> {
    if chain.len() == 0 {
        "<global>"@
    } else {
        joined(chain)
    }
}

/// The views of a sequence of identifiers, in order.
pub open spec fn identifier_views(idents: Seq<Identifier>) -> Seq<Seq<char>> {
    Seq::new(idents.len(), |i: int| idents[i]@)
}

impl View for Identifier {
    type V = Seq<char>;

    open spec fn view(&self) -> Seq<char> {
        self.0@
    }
}

impl Identifier {
    /// The name as text.
    pub fn to_text(&self) -> (r: String)
        ensures
            r@ == self@,
    {
        self.0.clone()
    }
}

impl std::ops::Deref for Identifier {
    type Target = String;

    fn deref(&self) -> (r: &String)
        ensures
            *r == self.0,
    {
        &self.0
    }
}

impl Clone for Identifier {
    fn clone(&self) -> (r: Self)
        ensures
            r == *self,
    {
        Identifier(self.0.clone())
    }
}

impl vstd::std_specs::convert::FromSpecImpl<&str> for Identifier {
    open spec fn obeys_from_spec() -> bool {
        false
    }

    open spec fn from_spec(v: &str) -> Self {
        arbitrary()
    }
}

impl From<&str> for Identifier {
    fn from(value: &str) -> (r: Self)
        ensures
            r@ == value@,
    {
        Identifier(value.to_owned())
    }
}

impl View for Namespace {
    type V = Seq<Seq<char>>;

    open spec fn view(&self) -> Seq<Seq<char>> {
        identifier_views(self.chain@)
    }
}

impl Clone for Namespace {
    fn clone(&self) -> (r: Self)
        ensures
            r@ == self@,
    {
        let mut chain: Vec<Identifier> = Vec::new();
        let mut i: usize = 0;
        while i < self.chain.len()
            invariant
                i <= self.chain.len(),
                chain@ == self.chain@.take(i as int),
            decreases self.chain.len() - i,
        {
            chain.push(self.chain[i].clone());
            i += 1;
            assert(chain@ =~= self.chain@.take(i as int));
        }
        assert(chain@ =~= self.chain@);
        Namespace { chain }
    }
}

impl Namespace {
    /// Whether two paths hold the same segments in the same order.
    pub fn same_as(&self, other: &Namespace) -> (r: bool)
        ensures
            r == (self@ == other@),
    {
        if self.chain.len() != other.chain.len() {
            assert(self@.len() != other@.len());
            return false;
        }
        let mut i: usize = 0;
        while i < self.chain.len()
            invariant
                i <= self.chain@.len(),
                self.chain@.len() == other.chain@.len(),
                forall|k: int| 0 <= k < i ==> self.chain@[k]@ == other.chain@[k]@,
            decreases self.chain@.len() - i,
        {
            if self.chain[i].0 != other.chain[i].0 {
                assert(self@[i as int] != other@[i as int]);
                return false;
            }
            i += 1;
        }
        assert(self@ =~= other@);
        true
    }

    /// The path as text: `<global>` for the empty path, and otherwise the segments with a `.`
    /// between each two.
    pub fn to_text(&self) -> (r: String)
        ensures
            r@ == namespace_text(self@),
    {
        if self.chain.len() == 0 {
            return "<global>".to_owned();
        }
        let ghost all = self@;
        let mut text = self.chain[0].0.clone();
        let mut i: usize = 1;
        assert(all.take(1) =~= seq![all[0]]);
        while i < self.chain.len()
            invariant
                1 <= i <= self.chain@.len(),
                all == self@,
                text@ == joined(all.take(i as int)),
            decreases self.chain@.len() - i,
        {
            proof {
                reveal_strlit(".");
                assert("."@ =~= seq!['.']);
                assert(all.take(i + 1).drop_last() =~= all.take(i as int));
                assert(all.take(i + 1).last() == self.chain@[i as int]@);
            }
            text.append(".");
            text.append(self.chain[i].0.as_str());
            i += 1;
        }
        assert(all.take(i as int) =~= all);
        text
    }

    /// The root namespace: the single segment `main`.
    pub fn global() -> (r: Self)
        ensures
            r@ == seq![main_name()],
    {
        let mut chain: Vec<Identifier> = Vec::new();
        let root = "main";
        proof {
            reveal_strlit("main");
            assert(root@ =~= main_name());
        }
        chain.push(Identifier::from(root));
        assert(identifier_views(chain@) =~= seq![main_name()]);
        Namespace { chain }
    }

    /// This path with `prefix` put in front of it: the segments of `prefix`, then its own.
    pub fn prefix(&self, prefix: Namespace) -> (r: Self)
        ensures
            r@ == prefix@ + self@,
    {
        let mut chain: Vec<Identifier> = prefix.chain;
        let ghost head = chain@;
        let mut i: usize = 0;
        while i < self.chain.len()
            invariant
                i <= self.chain.len(),
                chain@ == head + self.chain@.take(i as int),
            decreases self.chain.len() - i,
        {
            chain.push(self.chain[i].clone());
            i += 1;
            assert(chain@ =~= head + self.chain@.take(i as int));
        }
        assert(self.chain@.take(i as int) =~= self.chain@);
        assert(identifier_views(chain@) =~= identifier_views(head) + identifier_views(self.chain@));
        Namespace { chain }
    }

    /// The path of the module `ident` inside this one: this path with `ident` at its end.
    pub fn module(&self, ident: Identifier) -> (r: Self)
        ensures
            r@ == self@.push(ident@),
    {
        let mut namespace = self.clone();
        namespace.chain.push(ident);
        assert(identifier_views(namespace.chain@) =~= self@.push(ident@));
        namespace
    }
}

impl View for GlobalIdentifier {
    type V = GlobalIdentifierView;

    open spec fn view(&self) -> GlobalIdentifierView {
        GlobalIdentifierView { namespace: self.0@, name: self.1@ }
    }
}

impl Clone for GlobalIdentifier {
    fn clone(&self) -> (r: Self)
        ensures
            r@ == self@,
    {
        GlobalIdentifier(self.0.clone(), self.1.clone())
    }
}

impl GlobalIdentifier {
    /// The qualified name as text: the module path, `:` and the name.
    pub fn to_text(&self) -> (r: String)
        ensures
            r@ == namespace_text(self@.namespace) + seq![':'] + self@.name,
    {
        let mut text = self.0.to_text();
        proof {
            reveal_strlit(":");
            assert(":"@ =~= seq![':']);
        }
        text.append(":");
        text.append(self.1.0.as_str());
        text
    }

    /// Whether two qualified names are the same.
    pub fn same_as(&self, other: &GlobalIdentifier) -> (r: bool)
        ensures
            r == (self@ == other@),
    {
        self.0.same_as(&other.0) && self.1.0 == other.1.0
    }

    /// The same name inside a module path that has `namespace` put in front of it.
    pub fn prefix(&self, namespace: Namespace) -> (r: Self)
        ensures
            r@.namespace == namespace@ + self@.namespace,
            r@.name == self@.name,
    {
        GlobalIdentifier(self.0.prefix(namespace), self.1.clone())
    }
}

} // verus!
