use vstd::prelude::*;
use vstd::utf8::{encode_utf8, valid_utf8};
use string_builder::Builder;

verus! {

#[verifier::external_type_specification]
#[verifier::external_body]
pub struct ExBuilder(string_builder::Builder);

/// The bytes that a `string_builder::Builder` holds, in the order in which they were appended.
pub uninterp spec fn builder_bytes(b: string_builder::Builder) -> Seq<u8>;

/// `Builder::default`: a builder that holds no bytes.
#[verifier::external_body]
pub(crate) fn builder_start() -> (b: Builder)
    ensures
        builder_bytes(b) == Seq::<u8>::empty(),
{
    Builder::default()
}

/// `Builder::append` with a `char`: the builder's bytes are followed by the UTF-8 encoding of
/// the character, and nothing else changes.
#[verifier::external_body]
pub(crate) fn builder_append(b: &mut Builder, c: char)
    ensures
        builder_bytes(*final(b)) == builder_bytes(*old(b)) + encode_utf8(seq![c]),
{
    b.append(c)
}

/// `Builder::string`: the string whose UTF-8 encoding is the builder's bytes, which exists
/// exactly when the bytes are valid UTF-8. The error carries nothing that is used here.
#[verifier::external_body]
pub(crate) fn builder_finish(b: Builder) -> (r: Option<String>)
    ensures
        r is Some <==> valid_utf8(builder_bytes(b)),
        r matches Some(s) ==> encode_utf8(s@) == builder_bytes(b),
{
    b.string().ok()
}

} // verus!
