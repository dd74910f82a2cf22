use vstd::prelude::*;
use crate::ir::visibility::Visibility;
use crate::lexer::keyword::Keyword;
use crate::lexer::token::Operator;
use crate::parser::ast::data::{TypeView, UnvalidatedType, UnvalidatedVariableInfo, VariableInfoView};
use crate::parser::ast::function::{
    FunctionExpressionView, FunctionPrototypeView, UnvalidatedFunctionExpression,
    UnvalidatedFunctionPrototype,
};
use crate::parser::ast::structs::{
    EnumDataView, EnumVariantView, PropertyView, StructPropertyView, StructPrototypeView,
    UnvalidatedEnumData, UnvalidatedEnumVariant, UnvalidatedProperty, UnvalidatedStructProperty,
    UnvalidatedStructPrototype,
};
use crate::parser::ast::top_level::{TopLevelView, UnvalidatedTopLevel};
use crate::parser::ast::views;
use crate::parser::cursor::{
    agrees, agrees_list, agrees_optional, closed_by, done, fail, parsed_identifier,
    parsed_symbol, parsed_type, Parsed, ParserView,
};
use crate::parser::error::{ParserError, ParserErrorView, ParserResult};
use crate::parser::modules::expression_parser::{parsed_expression, ExpressionParser};
use crate::parser::modules::statement_parser::parsed_block;
use crate::parser::parser::Parser;

verus! {

/// The parser of the items that stand at the top level of a file.
pub struct TopLevelParser;

/// The number of tokens that an optional reserved word takes: one where `word` is read
/// next, none otherwise.
pub open spec fn optional(p: ParserView, word: Keyword) -> nat {
    if p.has_keyword(word) {
        1
    } else {
        0
    }
}

/// The visibility that an optional `pub` gives.
pub open spec fn visibility_at(p: ParserView) -> Visibility {
    if p.has_keyword(Keyword::Public) {
        Visibility::Public
    } else {
        Visibility::Private
    }
}

/// The rule of a typed name: a name, `:` and a type.
pub open spec fn parsed_property(p: ParserView) -> Parsed<PropertyView> {
    match parsed_identifier(p).value {
        Ok(name) => if !p.forward(1).has_operator(Operator::Colon) {
            fail(
                1,
                ParserErrorView::ExpectedOperator(Operator::Colon, p.forward(1).current().trace),
            )
        } else {
            let ty = parsed_type(p.forward(2));
            match ty.value {
                Ok(t) => done(2 + ty.consumed, PropertyView { name, ty: t }),
                Err(e) => fail(2 + ty.consumed, e),
            }
        },
        Err(e) => fail(0, e),
    }
}

/// The rule of a parameter: `mut` or not, and a typed name.
pub open spec fn parsed_parameter(p: ParserView) -> Parsed<VariableInfoView> {
    let property = parsed_property(p.forward(optional(p, Keyword::Mut)));
    match property.value {
        Ok(named) => done(
            optional(p, Keyword::Mut) + property.consumed,
            VariableInfoView {
                ident: named.name,
                ty: named.ty,
                mutable: p.has_keyword(Keyword::Mut),
            },
        ),
        Err(e) => fail(optional(p, Keyword::Mut) + property.consumed, e),
    }
}

/// The parameters that follow `list`, separated by commas, up to the closing `)`, which is
/// not taken.
#[verifier::opaque]
pub open spec fn parsed_parameters(p: ParserView, list: Seq<VariableInfoView>) -> Parsed<
    Seq<VariableInfoView>,
>
    decreases p.rest(),
    when p.well_formed()
{
    if !p.has_operator(Operator::ParenClose) && !p.is_eof() {
        let first = parsed_parameter(p);
        match first.value {
            Ok(parameter) => {
                if p.forward(first.consumed).has_operator(Operator::Comma) {
                    parsed_parameters(p.forward(first.consumed + 1), list.push(parameter)).after(
                        first.consumed + 1,
                    )
                } else {
                    done(first.consumed, list.push(parameter))
                }
            },
            Err(e) => fail(first.consumed, e),
        }
    } else {
        done(0, list)
    }
}

/// The type that a function returns: the type behind `:`, or the unit type where no `:` is
/// read next.
pub open spec fn parsed_return_type(p: ParserView) -> Parsed<TypeView> {
    if p.has_operator(Operator::Colon) {
        parsed_type(p.forward(1)).after(1)
    } else {
        done(0, TypeView::Unit)
    }
}

/// The rule of a parameter list with what follows it: `(`, the parameters, `)` and the type
/// that the function returns.
#[verifier::opaque]
pub open spec fn parsed_signature(p: ParserView) -> Parsed<(Seq<VariableInfoView>, TypeView)> {
    if !p.has_operator(Operator::ParenOpen) {
        fail(0, ParserErrorView::ExpectedOperator(Operator::ParenOpen, p.current().trace))
    } else {
        let parameters = parsed_parameters(p.forward(1), Seq::empty());
        match parameters.value {
            Ok(list) => {
                let close = p.forward(1 + parameters.consumed);
                if !close.has_operator(Operator::ParenClose) {
                    fail(
                        1 + parameters.consumed,
                        ParserErrorView::ExpectedOperator(
                            Operator::ParenClose,
                            close.current().trace,
                        ),
                    )
                } else {
                    let output = parsed_return_type(close.forward(1));
                    match output.value {
                        Ok(ty) => done(2 + parameters.consumed + output.consumed, (list, ty)),
                        Err(e) => fail(2 + parameters.consumed + output.consumed, e),
                    }
                }
            },
            Err(e) => fail(1 + parameters.consumed, e),
        }
    }
}

/// The rule of a function's head behind its visibility: `fun`, a name and a signature.
pub open spec fn parsed_named_function(p: ParserView, visibility: Visibility) -> Parsed<
    FunctionPrototypeView,
> {
    if !p.has_keyword(Keyword::Fun) {
        fail(0, ParserErrorView::ExpectedKeyword(Keyword::Fun, p.current().trace))
    } else {
        match parsed_identifier(p.forward(1)).value {
            Ok(name) => {
                let signature = parsed_signature(p.forward(2));
                match signature.value {
                    Ok(s) => done(
                        2 + signature.consumed,
                        FunctionPrototypeView { name, arguments: s.0, returns: s.1, visibility },
                    ),
                    Err(e) => fail(2 + signature.consumed, e),
                }
            },
            Err(e) => fail(1, e),
        }
    }
}

/// The rule of a function's head: `pub` or not, `fun`, a name and a signature.
#[verifier::opaque]
pub open spec fn parsed_function_prototype(p: ParserView) -> Parsed<FunctionPrototypeView> {
    parsed_named_function(p.forward(optional(p, Keyword::Public)), visibility_at(p)).after(
        optional(p, Keyword::Public),
    )
}

/// The body of a function with the head `proto` that began at the token `start`: an
/// expression behind `=>`, or a block. The body is owed: where neither stands there, the rule
/// fails with the span from `start` to the token that is read next.
#[verifier::opaque]
pub open spec fn parsed_function_body(
    p: ParserView,
    start: int,
    proto: FunctionPrototypeView,
) -> Parsed<Option<TopLevelView>> {
    if p.has_operator(Operator::ThickRightArrow) {
        let body = parsed_expression(p.forward(1));
        match body.value {
            Ok(e) => done(
                1 + body.consumed,
                Some(
                    TopLevelView::FunctionDefinition {
                        proto,
                        body: FunctionExpressionView::Expression(e),
                        trace: p.forward(1 + body.consumed).trace_over(start),
                    },
                ),
            ),
            Err(e) => fail(1 + body.consumed, e),
        }
    } else {
        let block = parsed_block(p);
        match block.value {
            Ok(Some(b)) => done(
                block.consumed,
                Some(
                    TopLevelView::FunctionDefinition {
                        proto,
                        body: FunctionExpressionView::Expression(b),
                        trace: p.forward(block.consumed).trace_over(start),
                    },
                ),
            ),
            Ok(None) => fail(0, ParserErrorView::ExpectedFunctionBody(p.trace_from(start))),
            Err(e) => fail(block.consumed, e),
        }
    }
}

/// The rule of a function definition: a head and a body. It applies where `fun` is read
/// next, with `pub` in front of it or without.
pub open spec fn parsed_function(p: ParserView) -> Parsed<Option<TopLevelView>> {
    if !p.forward(optional(p, Keyword::Public)).has_keyword(Keyword::Fun) {
        done(0, None)
    } else {
        let proto = parsed_function_prototype(p);
        match proto.value {
            Ok(head) => parsed_function_body(p.forward(proto.consumed), p.position, head).after(
                proto.consumed,
            ),
            Err(e) => fail(proto.consumed, e),
        }
    }
}

/// The rule of an import: the word `import` and a symbol. The word is no reserved word: it
/// is an identifier that has this meaning at the start of an item.
pub open spec fn parsed_import(p: ParserView) -> Parsed<Option<TopLevelView>> {
    if !p.has_name("import"@) {
        done(0, None)
    } else {
        let symbol = parsed_symbol(p.forward(1));
        match symbol.value {
            Ok(namespace) => done(
                1 + symbol.consumed,
                Some(
                    TopLevelView::Import {
                        namespace,
                        star: false,
                        trace: p.forward(1 + symbol.consumed).trace_over(p.position),
                    },
                ),
            ),
            Err(e) => fail(1 + symbol.consumed, e),
        }
    }
}

/// The rule of a struct's field: `pub` or not, and a typed name.
pub open spec fn parsed_field(p: ParserView) -> Parsed<StructPropertyView> {
    let property = parsed_property(p.forward(optional(p, Keyword::Public)));
    match property.value {
        Ok(named) => done(
            optional(p, Keyword::Public) + property.consumed,
            StructPropertyView { property: named, visibility: visibility_at(p) },
        ),
        Err(e) => fail(optional(p, Keyword::Public) + property.consumed, e),
    }
}

/// The fields that follow `list`, one behind the other with nothing between them, up to the
/// closing `}` or the end of the input, which are not taken.
#[verifier::opaque]
pub open spec fn parsed_fields(p: ParserView, list: Seq<StructPropertyView>) -> Parsed<
    Seq<StructPropertyView>,
>
    decreases p.rest(),
    when p.well_formed()
{
    if !p.is_eof() && !p.has_operator(Operator::CurlyClose) {
        let first = parsed_field(p);
        match first.value {
            Ok(field) => parsed_fields(p.forward(first.consumed), list.push(field)).after(first.consumed),
            Err(e) => fail(first.consumed, e),
        }
    } else {
        done(0, list)
    }
}

/// The rule of a list in curly brackets: `{`, the outcome `body` of what stands between the
/// brackets, and `}`.
pub open spec fn in_curly<T>(p: ParserView, body: Parsed<T>) -> Parsed<T> {
    if !p.has_operator(Operator::CurlyOpen) {
        fail(0, ParserErrorView::ExpectedOperator(Operator::CurlyOpen, p.current().trace))
    } else {
        match body.value {
            Ok(value) => closed_by(
                p.forward(1 + body.consumed),
                Operator::CurlyClose,
                1 + body.consumed,
                value,
            ),
            Err(e) => fail(1 + body.consumed, e),
        }
    }
}

/// The rest of a struct definition that began at the token `start`, from behind the word
/// `struct`: a name, and the fields in curly brackets.
#[verifier::opaque]
pub open spec fn parsed_struct_body(p: ParserView, start: int, visibility: Visibility) -> Parsed<
    Option<TopLevelView>,
> {
    match parsed_identifier(p).value {
        Ok(identifier) => {
            let fields = in_curly(p.forward(1), parsed_fields(p.forward(2), Seq::empty()));
            match fields.value {
                Ok(properties) => done(
                    1 + fields.consumed,
                    Some(
                        TopLevelView::StructDefinition {
                            proto: StructPrototypeView { identifier, properties, visibility },
                            trace: p.forward(1 + fields.consumed).trace_over(start),
                        },
                    ),
                ),
                Err(e) => fail(1 + fields.consumed, e),
            }
        },
        Err(e) => fail(0, e),
    }
}

/// The rule of a struct definition: `pub` or not, `struct`, a name, and the fields in curly
/// brackets. It applies where `struct` is read next, with `pub` in front of it or without.
pub open spec fn parsed_struct(p: ParserView) -> Parsed<Option<TopLevelView>> {
    let head = optional(p, Keyword::Public);
    if !p.forward(head).has_keyword(Keyword::Struct) {
        done(0, None)
    } else {
        parsed_struct_body(p.forward(head + 1), p.position, visibility_at(p)).after(head + 1)
    }
}

/// The types that a variant carries by position and that follow `list`, separated by commas,
/// up to the closing `)`, which is not taken.
#[verifier::opaque]
pub open spec fn parsed_positional(p: ParserView, list: Seq<TypeView>) -> Parsed<Seq<TypeView>>
    decreases p.rest(),
    when p.well_formed()
{
    if !p.is_eof() && !p.has_operator(Operator::ParenClose) {
        let first = parsed_type(p);
        match first.value {
            Ok(ty) => {
                if p.forward(first.consumed).has_operator(Operator::Comma) {
                    parsed_positional(p.forward(first.consumed + 1), list.push(ty)).after(
                        first.consumed + 1,
                    )
                } else {
                    done(first.consumed, list.push(ty))
                }
            },
            Err(e) => fail(first.consumed, e),
        }
    } else {
        done(0, list)
    }
}

/// The named members that a variant carries and that follow `list`, separated by commas, up
/// to the closing `}`, which is not taken.
#[verifier::opaque]
pub open spec fn parsed_members(p: ParserView, list: Seq<PropertyView>) -> Parsed<
    Seq<PropertyView>,
>
    decreases p.rest(),
    when p.well_formed()
{
    if !p.is_eof() && !p.has_operator(Operator::CurlyClose) {
        let first = parsed_property(p);
        match first.value {
            Ok(member) => {
                if p.forward(first.consumed).has_operator(Operator::Comma) {
                    parsed_members(p.forward(first.consumed + 1), list.push(member)).after(
                        first.consumed + 1,
                    )
                } else {
                    done(first.consumed, list.push(member))
                }
            },
            Err(e) => fail(first.consumed, e),
        }
    } else {
        done(0, list)
    }
}

/// What a variant carries: types in parentheses, named members in curly brackets, or
/// nothing where neither bracket is read next.
#[verifier::opaque]
pub open spec fn parsed_payload(p: ParserView) -> Parsed<Option<EnumDataView>> {
    if p.has_operator(Operator::ParenOpen) {
        let types = parsed_positional(p.forward(1), Seq::empty());
        match types.value {
            Ok(list) => closed_by(
                p.forward(1 + types.consumed),
                Operator::ParenClose,
                1 + types.consumed,
                Some(EnumDataView::Positional(list)),
            ),
            Err(e) => fail(1 + types.consumed, e),
        }
    } else if p.has_operator(Operator::CurlyOpen) {
        let members = parsed_members(p.forward(1), Seq::empty());
        match members.value {
            Ok(list) => closed_by(
                p.forward(1 + members.consumed),
                Operator::CurlyClose,
                1 + members.consumed,
                Some(EnumDataView::StructLike(list)),
            ),
            Err(e) => fail(1 + members.consumed, e),
        }
    } else {
        done(0, None)
    }
}

/// The rule of an enum's variant: a name and what it carries.
pub open spec fn parsed_variant(p: ParserView) -> Parsed<EnumVariantView> {
    match parsed_identifier(p).value {
        Ok(name) => {
            let payload = parsed_payload(p.forward(1));
            match payload.value {
                Ok(data) => done(1 + payload.consumed, EnumVariantView { name, data }),
                Err(e) => fail(1 + payload.consumed, e),
            }
        },
        Err(e) => fail(0, e),
    }
}

/// The variants that follow `list`, one behind the other, up to the closing `}` or the end of
/// the input, which are not taken.
#[verifier::opaque]
pub open spec fn parsed_variants(p: ParserView, list: Seq<EnumVariantView>) -> Parsed<
    Seq<EnumVariantView>,
>
    decreases p.rest(),
    when p.well_formed()
{
    if !p.is_eof() && !p.has_operator(Operator::CurlyClose) {
        let first = parsed_variant(p);
        match first.value {
            Ok(variant) => parsed_variants(p.forward(first.consumed), list.push(variant)).after(
                first.consumed,
            ),
            Err(e) => fail(first.consumed, e),
        }
    } else {
        done(0, list)
    }
}

/// The rest of an enum definition that began at the token `start`, from behind the word
/// `enum`: the variants in curly brackets.
#[verifier::opaque]
pub open spec fn parsed_enum_body(p: ParserView, start: int) -> Parsed<Option<TopLevelView>> {
    let body = in_curly(p, parsed_variants(p.forward(1), Seq::empty()));
    match body.value {
        Ok(variants) => done(
            body.consumed,
            Some(
                TopLevelView::EnumDefinition {
                    variants,
                    trace: p.forward(body.consumed).trace_over(start),
                },
            ),
        ),
        Err(e) => fail(body.consumed, e),
    }
}

/// The rule of an enum definition: `pub` or not, the word `enum`, and the variants in curly
/// brackets. The word is no reserved word: it is an identifier that has this meaning at the
/// start of an item. The definition carries no name and no visibility.
pub open spec fn parsed_enum(p: ParserView) -> Parsed<Option<TopLevelView>> {
    let head = optional(p, Keyword::Public);
    if !p.forward(head).has_name("enum"@) {
        done(0, None)
    } else {
        parsed_enum_body(p.forward(head + 1), p.position).after(head + 1)
    }
}

/// The first of two rules that applies.
pub open spec fn first_of<T>(first: Parsed<Option<T>>, second: Parsed<Option<T>>) -> Parsed<
    Option<T>,
> {
    match first.value {
        Ok(None) => second,
        _ => first,
    }
}

/// The rule of a top-level item: the first of function, import, struct and enum that applies.
#[verifier::opaque]
pub open spec fn parsed_top_level(p: ParserView) -> Parsed<Option<TopLevelView>> {
    first_of(
        parsed_function(p),
        first_of(parsed_import(p), first_of(parsed_struct(p), parsed_enum(p))),
    )
}

/// The items of a file that follow `list`, up to the end of the input. A token that starts
/// no item fails the whole file.
pub open spec fn parsed_program(p: ParserView, list: Seq<TopLevelView>) -> Parsed<
    Seq<TopLevelView>,
>
    decreases p.rest(),
    when p.well_formed()
{
    if p.is_eof() {
        done(0, list)
    } else {
        let first = parsed_top_level(p);
        match first.value {
            Ok(Some(item)) => if first.consumed == 0 {
                // An item holds at least one token (`lemma_item_moves`), so this is never the
                // case.
                done(0, list.push(item))
            } else {
                parsed_program(p.forward(first.consumed), list.push(item)).after(first.consumed)
            },
            Ok(None) => fail(first.consumed, ParserErrorView::UnexpectedToken(p.current())),
            Err(e) => fail(first.consumed, e),
        }
    }
}

/// The items of a whole token sequence.
pub open spec fn parsed_file(p: ParserView) -> Parsed<Seq<TopLevelView>> {
    parsed_program(p, Seq::empty())
}

/// An item holds at least one token, and a rule that does not apply takes none.
pub proof fn lemma_item_moves(p: ParserView)
    requires
        p.well_formed(),
    ensures
        parsed_top_level(p).value matches Ok(Some(_)) ==> parsed_top_level(p).consumed >= 1,
        parsed_top_level(p).value matches Ok(None) ==> parsed_top_level(p).consumed == 0,
{
    reveal(parsed_top_level);
    lemma_function_moves(p);
    lemma_struct_moves(p);
    lemma_enum_moves(p);
}

proof fn lemma_function_moves(p: ParserView)
    requires
        p.well_formed(),
    ensures
        parsed_function(p).value matches Ok(Some(_)) ==> parsed_function(p).consumed >= 1,
        parsed_function(p).value matches Ok(None) ==> parsed_function(p).consumed == 0,
{
    reveal(parsed_function_prototype);
    reveal(parsed_function_body);
    let proto = parsed_function_prototype(p);
    if p.forward(optional(p, Keyword::Public)).has_keyword(Keyword::Fun) && proto.value is Ok {
        let named = parsed_named_function(
            p.forward(optional(p, Keyword::Public)),
            visibility_at(p),
        );
        assert(named.consumed >= 2);
        assert(proto.consumed >= 2);
        let body = parsed_function_body(p.forward(proto.consumed), p.position, proto.value->Ok_0);
        assert(!(body.value matches Ok(None)));
    }
}

proof fn lemma_struct_moves(p: ParserView)
    requires
        p.well_formed(),
    ensures
        parsed_struct(p).value matches Ok(Some(_)) ==> parsed_struct(p).consumed >= 1,
        parsed_struct(p).value matches Ok(None) ==> parsed_struct(p).consumed == 0,
{
    reveal(parsed_struct_body);
}

proof fn lemma_enum_moves(p: ParserView)
    requires
        p.well_formed(),
    ensures
        parsed_enum(p).value matches Ok(Some(_)) ==> parsed_enum(p).consumed >= 1,
        parsed_enum(p).value matches Ok(None) ==> parsed_enum(p).consumed == 0,
{
    reveal(parsed_enum_body);
}

fn visibility_of(public: bool) -> (r: Visibility)
    ensures
        r == (if public {
            Visibility::Public
        } else {
            Visibility::Private
        }),
{
    if public {
        Visibility::Public
    } else {
        Visibility::Private
    }
}

impl TopLevelParser {
    /// Takes a top-level item, where one is read next.
    pub fn parse_top_level(p: &mut Parser) -> (r: ParserResult<Option<UnvalidatedTopLevel>>)
        ensures
            agrees_optional(old(p)@, final(p)@, r, parsed_top_level(old(p)@)),
            r matches Ok(None) ==> final(p)@ == old(p)@,
    {
        proof {
            reveal(parsed_top_level);
        }
        if let Some(item) = Self::parse_function(p)? {
            return Ok(Some(item));
        }
        if let Some(item) = Self::parse_import(p)? {
            return Ok(Some(item));
        }
        if let Some(item) = Self::parse_struct(p)? {
            return Ok(Some(item));
        }
        Self::parse_enum(p)
    }

    fn parse_import(p: &mut Parser) -> (r: ParserResult<Option<UnvalidatedTopLevel>>)
        ensures
            agrees_optional(old(p)@, final(p)@, r, parsed_import(old(p)@)),
            r matches Ok(None) ==> final(p)@ == old(p)@,
    {
        if !p.has_name("import") {
            return Ok(None);
        }
        let start: usize = p.position();
        p.advance();
        let namespace = p.consume_symbol()?;
        Ok(
            Some(
                UnvalidatedTopLevel::Import { namespace, star: false, trace: p.trace_over(start) },
            ),
        )
    }

    fn consume_property(p: &mut Parser) -> (r: ParserResult<UnvalidatedProperty>)
        ensures
            agrees(old(p)@, final(p)@, r, parsed_property(old(p)@)),
    {
        let name = p.consume_identifier()?;
        p.expect_operator(Operator::Colon)?;
        let ty = p.consume_type()?;
        Ok(UnvalidatedProperty { name, ty })
    }

    fn consume_field(p: &mut Parser) -> (r: ParserResult<UnvalidatedStructProperty>)
        ensures
            agrees(old(p)@, final(p)@, r, parsed_field(old(p)@)),
    {
        let public = p.has_keyword(Keyword::Public);
        if public {
            p.advance();
        }
        let property = Self::consume_property(p)?;
        Ok(UnvalidatedStructProperty { property, visibility: visibility_of(public) })
    }

    fn consume_fields(p: &mut Parser) -> (r: ParserResult<Vec<UnvalidatedStructProperty>>)
        requires
            old(p)@.well_formed(),
        ensures
            agrees_list(old(p)@, final(p)@, r, parsed_fields(old(p)@, Seq::empty())),
    {
        proof {
            reveal(parsed_fields);
        }
        let ghost start = p@;
        let mut properties: Vec<UnvalidatedStructProperty> = Vec::new();
        let ghost mut moved: nat = 0;
        proof {
            assert(views(properties@) =~= Seq::<StructPropertyView>::empty());
        }
        while !p.is_eof() && !p.has_operator(Operator::CurlyClose)
            invariant
                start == old(p)@,
                p@ == start.forward(moved),
                parsed_fields(start, Seq::empty()) == parsed_fields(p@, views(properties@)).after(
                    moved,
                ),
            decreases p@.rest(),
        {
            proof {
                reveal(parsed_fields);
            }
            let ghost before = views(properties@);
            let ghost here = p@;
            match Self::consume_field(p) {
                Ok(field) => {
                    properties.push(field);
                    proof {
                        assert(views(properties@) =~= before.push(field@));
                        moved = moved + parsed_field(here).consumed;
                    }
                },
                Err(e) => {
                    return Err(e);
                },
            }
        }
        Ok(properties)
    }

    fn parse_struct(p: &mut Parser) -> (r: ParserResult<Option<UnvalidatedTopLevel>>)
        ensures
            agrees_optional(old(p)@, final(p)@, r, parsed_struct(old(p)@)),
            r matches Ok(None) ==> final(p)@ == old(p)@,
    {
        let start: usize = p.position();
        let public = if p.has_keyword(Keyword::Public) {
            p.advance();
            true
        } else {
            false
        };
        if !p.has_keyword(Keyword::Struct) {
            if public {
                p.rollback();
            }
            return Ok(None);
        }
        p.advance();
        Self::consume_struct_body(p, start, visibility_of(public))
    }

    fn consume_struct_body(p: &mut Parser, start: usize, visibility: Visibility) -> (r: ParserResult<
        Option<UnvalidatedTopLevel>,
    >)
        ensures
            agrees_optional(
                old(p)@,
                final(p)@,
                r,
                parsed_struct_body(old(p)@, start as int, visibility),
            ),
            !(r matches Ok(None)),
    {
        proof {
            reveal(parsed_struct_body);
        }
        let identifier = p.consume_identifier()?;
        p.expect_operator(Operator::CurlyOpen)?;
        let properties = Self::consume_fields(p)?;
        p.expect_operator(Operator::CurlyClose)?;
        Ok(
            Some(
                UnvalidatedTopLevel::StructDefinition {
                    proto: UnvalidatedStructPrototype { identifier, properties, visibility },
                    trace: p.trace_over(start),
                },
            ),
        )
    }

    fn consume_positional(p: &mut Parser) -> (r: ParserResult<Vec<UnvalidatedType>>)
        requires
            old(p)@.well_formed(),
        ensures
            agrees_list(old(p)@, final(p)@, r, parsed_positional(old(p)@, Seq::empty())),
    {
        proof {
            reveal(parsed_positional);
        }
        let ghost start = p@;
        let mut types: Vec<UnvalidatedType> = Vec::new();
        let ghost mut moved: nat = 0;
        let mut more: bool = true;
        proof {
            assert(views(types@) =~= Seq::<TypeView>::empty());
        }
        while more && !p.is_eof() && !p.has_operator(Operator::ParenClose)
            invariant
                start == old(p)@,
                p@ == start.forward(moved),
                parsed_positional(start, Seq::empty()) == (if more {
                    parsed_positional(p@, views(types@)).after(moved)
                } else {
                    done(moved, views(types@))
                }),
            decreases p@.rest() + (if more { 1int } else { 0int }),
        {
            proof {
                reveal(parsed_positional);
            }
            let ghost before = views(types@);
            let ghost here = p@;
            match p.consume_type() {
                Ok(ty) => {
                    types.push(ty);
                    proof {
                        assert(views(types@) =~= before.push(ty@));
                        moved = moved + parsed_type(here).consumed;
                    }
                },
                Err(e) => {
                    return Err(e);
                },
            }
            if p.has_operator(Operator::Comma) {
                p.advance();
                proof {
                    moved = moved + 1;
                }
            } else {
                more = false;
            }
        }
        Ok(types)
    }

    fn consume_members(p: &mut Parser) -> (r: ParserResult<Vec<UnvalidatedProperty>>)
        requires
            old(p)@.well_formed(),
        ensures
            agrees_list(old(p)@, final(p)@, r, parsed_members(old(p)@, Seq::empty())),
    {
        proof {
            reveal(parsed_members);
        }
        let ghost start = p@;
        let mut members: Vec<UnvalidatedProperty> = Vec::new();
        let ghost mut moved: nat = 0;
        let mut more: bool = true;
        proof {
            assert(views(members@) =~= Seq::<PropertyView>::empty());
        }
        while more && !p.is_eof() && !p.has_operator(Operator::CurlyClose)
            invariant
                start == old(p)@,
                p@ == start.forward(moved),
                parsed_members(start, Seq::empty()) == (if more {
                    parsed_members(p@, views(members@)).after(moved)
                } else {
                    done(moved, views(members@))
                }),
            decreases p@.rest() + (if more { 1int } else { 0int }),
        {
            proof {
                reveal(parsed_members);
            }
            let ghost before = views(members@);
            let ghost here = p@;
            match Self::consume_property(p) {
                Ok(member) => {
                    members.push(member);
                    proof {
                        assert(views(members@) =~= before.push(member@));
                        moved = moved + parsed_property(here).consumed;
                    }
                },
                Err(e) => {
                    return Err(e);
                },
            }
            if p.has_operator(Operator::Comma) {
                p.advance();
                proof {
                    moved = moved + 1;
                }
            } else {
                more = false;
            }
        }
        Ok(members)
    }

    fn consume_payload(p: &mut Parser) -> (r: ParserResult<Option<UnvalidatedEnumData>>)
        ensures
            agrees_optional(old(p)@, final(p)@, r, parsed_payload(old(p)@)),
    {
        proof {
            reveal(parsed_payload);
        }
        if p.has_operator(Operator::ParenOpen) {
            p.advance();
            let position = Self::consume_positional(p)?;
            p.expect_operator(Operator::ParenClose)?;
            Ok(Some(UnvalidatedEnumData::Positional(position)))
        } else if p.has_operator(Operator::CurlyOpen) {
            p.advance();
            let properties = Self::consume_members(p)?;
            p.expect_operator(Operator::CurlyClose)?;
            Ok(Some(UnvalidatedEnumData::StructLike(properties)))
        } else {
            Ok(None)
        }
    }

    fn consume_variant(p: &mut Parser) -> (r: ParserResult<UnvalidatedEnumVariant>)
        ensures
            agrees(old(p)@, final(p)@, r, parsed_variant(old(p)@)),
    {
        let name = p.consume_identifier()?;
        let data = Self::consume_payload(p)?;
        Ok(UnvalidatedEnumVariant { name, data })
    }

    fn consume_variants(p: &mut Parser) -> (r: ParserResult<Vec<UnvalidatedEnumVariant>>)
        requires
            old(p)@.well_formed(),
        ensures
            agrees_list(old(p)@, final(p)@, r, parsed_variants(old(p)@, Seq::empty())),
    {
        proof {
            reveal(parsed_variants);
        }
        let ghost start = p@;
        let mut variants: Vec<UnvalidatedEnumVariant> = Vec::new();
        let ghost mut moved: nat = 0;
        proof {
            assert(views(variants@) =~= Seq::<EnumVariantView>::empty());
        }
        while !p.is_eof() && !p.has_operator(Operator::CurlyClose)
            invariant
                start == old(p)@,
                p@ == start.forward(moved),
                parsed_variants(start, Seq::empty()) == parsed_variants(p@, views(variants@)).after(
                    moved,
                ),
            decreases p@.rest(),
        {
            proof {
                reveal(parsed_variants);
            }
            let ghost before = views(variants@);
            let ghost here = p@;
            match Self::consume_variant(p) {
                Ok(variant) => {
                    variants.push(variant);
                    proof {
                        assert(views(variants@) =~= before.push(variant@));
                        moved = moved + parsed_variant(here).consumed;
                    }
                },
                Err(e) => {
                    return Err(e);
                },
            }
        }
        Ok(variants)
    }

    fn parse_enum(p: &mut Parser) -> (r: ParserResult<Option<UnvalidatedTopLevel>>)
        ensures
            agrees_optional(old(p)@, final(p)@, r, parsed_enum(old(p)@)),
            r matches Ok(None) ==> final(p)@ == old(p)@,
    {
        let start: usize = p.position();
        let public = if p.has_keyword(Keyword::Public) {
            p.advance();
            true
        } else {
            false
        };
        if !p.has_name("enum") {
            if public {
                p.rollback();
            }
            return Ok(None);
        }
        p.advance();
        Self::consume_enum_body(p, start)
    }

    fn consume_enum_body(p: &mut Parser, start: usize) -> (r: ParserResult<
        Option<UnvalidatedTopLevel>,
    >)
        ensures
            agrees_optional(old(p)@, final(p)@, r, parsed_enum_body(old(p)@, start as int)),
            !(r matches Ok(None)),
    {
        proof {
            reveal(parsed_enum_body);
        }
        p.expect_operator(Operator::CurlyOpen)?;
        let variants = Self::consume_variants(p)?;
        p.expect_operator(Operator::CurlyClose)?;
        Ok(Some(UnvalidatedTopLevel::EnumDefinition { variants, trace: p.trace_over(start) }))
    }

    fn parse_function(p: &mut Parser) -> (r: ParserResult<Option<UnvalidatedTopLevel>>)
        ensures
            agrees_optional(old(p)@, final(p)@, r, parsed_function(old(p)@)),
            r matches Ok(None) ==> final(p)@ == old(p)@,
    {
        let start: usize = p.position();
        let stepped = if p.has_keyword(Keyword::Public) {
            p.advance();
            true
        } else {
            false
        };
        if !p.has_keyword(Keyword::Fun) {
            if stepped {
                p.rollback();
            }
            return Ok(None);
        }
        if stepped {
            p.rollback();
        }
        let proto = Self::consume_function_prototype(p)?;
        Self::consume_function_body(p, start, proto)
    }

    fn consume_function_body(
        p: &mut Parser,
        start: usize,
        proto: UnvalidatedFunctionPrototype,
    ) -> (r: ParserResult<Option<UnvalidatedTopLevel>>)
        ensures
            agrees_optional(
                old(p)@,
                final(p)@,
                r,
                parsed_function_body(old(p)@, start as int, proto@),
            ),
            !(r matches Ok(None)),
    {
        proof {
            reveal(parsed_function_body);
        }
        let body = if p.has_operator(Operator::ThickRightArrow) {
            p.advance();
            UnvalidatedFunctionExpression::Expression(ExpressionParser::consume_expression(p)?)
        } else {
            match ExpressionParser::parse_block(p)? {
                Some(block) => UnvalidatedFunctionExpression::Expression(block),
                None => {
                    return Err(ParserError::ExpectedFunctionBody(p.trace_from(start)));
                },
            }
        };
        Ok(Some(UnvalidatedTopLevel::FunctionDefinition { proto, body, trace: p.trace_over(start) }))
    }

    fn consume_parameter(p: &mut Parser) -> (r: ParserResult<UnvalidatedVariableInfo>)
        ensures
            agrees(old(p)@, final(p)@, r, parsed_parameter(old(p)@)),
    {
        let mutable = p.has_keyword(Keyword::Mut);
        if mutable {
            p.advance();
        }
        let property = Self::consume_property(p)?;
        Ok(UnvalidatedVariableInfo { ident: property.name, ty: property.ty, mutable })
    }

    fn consume_parameters(p: &mut Parser) -> (r: ParserResult<Vec<UnvalidatedVariableInfo>>)
        requires
            old(p)@.well_formed(),
        ensures
            agrees_list(old(p)@, final(p)@, r, parsed_parameters(old(p)@, Seq::empty())),
    {
        proof {
            reveal(parsed_parameters);
        }
        let ghost start = p@;
        let mut arguments: Vec<UnvalidatedVariableInfo> = Vec::new();
        let ghost mut moved: nat = 0;
        let mut more: bool = true;
        proof {
            assert(views(arguments@) =~= Seq::<VariableInfoView>::empty());
        }
        while more && !p.has_operator(Operator::ParenClose) && !p.is_eof()
            invariant
                start == old(p)@,
                p@ == start.forward(moved),
                parsed_parameters(start, Seq::empty()) == (if more {
                    parsed_parameters(p@, views(arguments@)).after(moved)
                } else {
                    done(moved, views(arguments@))
                }),
            decreases p@.rest() + (if more { 1int } else { 0int }),
        {
            proof {
                reveal(parsed_parameters);
            }
            let ghost before = views(arguments@);
            let ghost here = p@;
            match Self::consume_parameter(p) {
                Ok(argument) => {
                    arguments.push(argument);
                    proof {
                        assert(views(arguments@) =~= before.push(argument@));
                        moved = moved + parsed_parameter(here).consumed;
                    }
                },
                Err(e) => {
                    return Err(e);
                },
            }
            if p.has_operator(Operator::Comma) {
                p.advance();
                proof {
                    moved = moved + 1;
                }
            } else {
                more = false;
            }
        }
        Ok(arguments)
    }

    fn consume_return_type(p: &mut Parser) -> (r: ParserResult<UnvalidatedType>)
        ensures
            agrees(old(p)@, final(p)@, r, parsed_return_type(old(p)@)),
    {
        if p.has_operator(Operator::Colon) {
            p.advance();
            p.consume_type()
        } else {
            Ok(UnvalidatedType::Unit)
        }
    }

    fn consume_signature(p: &mut Parser) -> (r: ParserResult<
        (Vec<UnvalidatedVariableInfo>, UnvalidatedType),
    >)
        ensures
            final(p)@ == old(p)@.forward(parsed_signature(old(p)@).consumed),
            match r {
                Ok(s) => parsed_signature(old(p)@).value == Ok::<
                    (Seq<VariableInfoView>, TypeView),
                    ParserErrorView,
                >((views(s.0@), s.1@)),
                Err(e) => parsed_signature(old(p)@).value == Err::<
                    (Seq<VariableInfoView>, TypeView),
                    ParserErrorView,
                >(e@),
            },
    {
        proof {
            reveal(parsed_signature);
        }
        p.expect_operator(Operator::ParenOpen)?;
        let arguments = Self::consume_parameters(p)?;
        p.expect_operator(Operator::ParenClose)?;
        let output = Self::consume_return_type(p)?;
        Ok((arguments, output))
    }

    fn consume_named_function(p: &mut Parser, visibility: Visibility) -> (r: ParserResult<
        UnvalidatedFunctionPrototype,
    >)
        ensures
            agrees(old(p)@, final(p)@, r, parsed_named_function(old(p)@, visibility)),
    {
        p.expect_keyword(Keyword::Fun)?;
        let name = p.consume_identifier()?;
        let (arguments, output) = Self::consume_signature(p)?;
        Ok(UnvalidatedFunctionPrototype { name, arguments, returns: output, visibility })
    }

    fn consume_function_prototype(p: &mut Parser) -> (r: ParserResult<
        UnvalidatedFunctionPrototype,
    >)
        ensures
            agrees(old(p)@, final(p)@, r, parsed_function_prototype(old(p)@)),
    {
        proof {
            reveal(parsed_function_prototype);
        }
        let public = p.has_keyword(Keyword::Public);
        if public {
            p.advance();
        }
        Self::consume_named_function(p, visibility_of(public))
    }
}

} // verus!
