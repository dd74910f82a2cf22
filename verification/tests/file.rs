use std::rc::Rc;

use front_end::file::identifier::{GlobalIdentifier, Identifier, Namespace};
use front_end::file::source_file::SourceFile;

fn namespace(segments: &[&str]) -> Namespace {
    Namespace { chain: segments.iter().map(|s| Identifier::from(*s)).collect() }
}

#[test]
fn prefixing_puts_the_prefix_in_front() {
    let inner = namespace(&["c", "d"]);
    let outer = namespace(&["a", "b"]);
    assert_eq!(inner.prefix(outer.clone()), namespace(&["a", "b", "c", "d"]));
    assert_eq!(outer.prefix(inner.clone()), namespace(&["c", "d", "a", "b"]));
    assert_eq!(inner.prefix(namespace(&[])), inner);
    assert_eq!(namespace(&[]).prefix(outer.clone()), outer);
}

#[test]
fn the_root_namespace_is_main() {
    assert_eq!(Namespace::global(), namespace(&["main"]));
    assert_eq!(Namespace::global().module("io".into()), namespace(&["main", "io"]));
    assert!(Namespace::global().same_as(&namespace(&["main"])));
    assert!(!Namespace::global().same_as(&namespace(&["main", "io"])));
    assert!(!Namespace::global().same_as(&namespace(&["mainly"])));
}

#[test]
fn qualified_names_take_prefixes_too() {
    let name = GlobalIdentifier(namespace(&["io"]), "print".into());
    let moved = name.prefix(namespace(&["std"]));
    assert_eq!(moved, GlobalIdentifier(namespace(&["std", "io"]), "print".into()));
    assert!(moved.same_as(&moved.clone()));
    assert!(!moved.same_as(&name));
}

#[test]
fn names_as_text() {
    assert_eq!(namespace(&[]).to_text(), "<global>");
    assert_eq!(namespace(&["a"]).to_text(), "a");
    assert_eq!(namespace(&["a", "b", "c"]).to_text(), "a.b.c");
    assert_eq!(Identifier::from("x").to_text(), "x");
    assert_eq!(GlobalIdentifier(namespace(&["a", "b"]), "f".into()).to_text(), "a.b:f");
    assert_eq!(GlobalIdentifier(namespace(&[]), "f".into()).to_text(), "<global>:f");
}

#[test]
fn buffers_and_their_names() {
    let file = SourceFile::new("text");
    assert_eq!(file.module_name, Identifier::from("<main>"));
    assert_eq!(file.source, "text");
    assert_eq!(file.clone(), file);
    let named = SourceFile::from_contents("parser.test.src", String::from("a b"));
    assert_eq!(named.module_name, Identifier::from("parser"));
    assert_eq!(named.source, "a b");
    assert_eq!(SourceFile::from_contents("plain", String::new()).module_name, "plain".into());
    assert_eq!(SourceFile::from_contents(".hidden", String::new()).module_name, "".into());
    assert_eq!(SourceFile::from_contents("", String::new()).module_name, "".into());
    assert_eq!(SourceFile::from_contents("\u{e9}t\u{e9}.x", String::new()).module_name, "\u{e9}t\u{e9}".into());
}

#[test]
fn spans_are_equal_by_content_and_range() {
    let a = SourceFile::new("one two").rc();
    let b = SourceFile::new("one two").rc();
    let c = SourceFile::new("one 2").rc();
    let d = Rc::new(SourceFile { module_name: "other".into(), source: "one two".into() });
    assert_eq!(a.trace(0..3), a.trace(0..3));
    assert_eq!(a.trace(0..3), b.trace(0..3));
    assert_eq!(a.trace(0..3).clone(), a.trace(0..3));
    assert_ne!(a.trace(0..3), a.trace(0..2));
    assert_ne!(a.trace(0..3), a.trace(1..3));
    assert_ne!(a.trace(0..3), c.trace(0..3));
    assert_ne!(a.trace(0..3), d.trace(0..3));
    let trace = a.trace(4..7);
    assert_eq!(trace.range, 4..7);
    assert!(Rc::ptr_eq(&trace.source, &a));
}
