//! The declaration that wraps a caller's block:
//! `const NAME: fn() -> () = || { BLOCK };`.
use vstd::prelude::*;
use crate::ident::{
    const_name, is_identifier, lemma_site_name_injective, lemma_site_name_is_identifier, name_for,
    site_name, Naming,
};

verus! {

/// Whether a punctuation character is joined to the one that follows it.
#[derive(Clone, Copy, Debug, PartialEq, Eq, Structural)]
pub enum Spacing {
    Alone,
    Joint,
}

/// The brackets around a group of tokens.
#[derive(Clone, Copy, Debug, PartialEq, Eq, Structural)]
pub enum Delimiter {
    Parenthesis,
    Brace,
}

/// One token of an expansion. `B` is the caller's token sequence, which is
/// carried through untouched and never looked into.
pub enum Token<B> {
    /// An identifier or keyword, by its characters.
    Ident(Vec<char>),
    /// A punctuation character.
    Punct(char, Spacing),
    /// A pair of brackets with nothing inside.
    Empty(Delimiter),
    /// A pair of brackets around the caller's tokens.
    Group(Delimiter, B),
}

/// What a token is, with an identifier as its sequence of characters.
pub enum TokenView<B> {
    Ident(Seq<char>),
    Punct(char, Spacing),
    Empty(Delimiter),
    Group(Delimiter, B),
}

impl<B> View for Token<B> {
    type V = TokenView<B>;

    open spec fn view(&self) -> TokenView<B> {
        match self {
            Token::Ident(s) => TokenView::Ident(s@),
            Token::Punct(c, sp) => TokenView::Punct(*c, *sp),
            Token::Empty(d) => TokenView::Empty(*d),
            Token::Group(d, b) => TokenView::Group(*d, *b),
        }
    }
}

/// The tokens of a sequence, each by its view.
pub open spec fn tokens_view<B>(ts: Seq<Token<B>>) -> Seq<TokenView<B>> {
    ts.map_values(|t: Token<B>| t@)
}

/// `const name: fn() -> () = || { body };`, token by token.
pub open spec fn declaration<B>(name: Seq<char>, body: B) -> Seq<TokenView<B>> {
    seq![
        TokenView::Ident(seq!['c', 'o', 'n', 's', 't']),
        TokenView::Ident(name),
        TokenView::Punct(':', Spacing::Alone),
        TokenView::Ident(seq!['f', 'n']),
        TokenView::Empty(Delimiter::Parenthesis),
        TokenView::Punct('-', Spacing::Joint),
        TokenView::Punct('>', Spacing::Joint),
        TokenView::Empty(Delimiter::Parenthesis),
        TokenView::Punct('=', Spacing::Alone),
        TokenView::Punct('|', Spacing::Joint),
        TokenView::Punct('|', Spacing::Joint),
        TokenView::Group(Delimiter::Brace, body),
        TokenView::Punct(';', Spacing::Alone),
    ]
}

/// The expansion for the call site whose metadata reads `site`, around the
/// caller's tokens `input`.
pub open spec fn expansion<B>(naming: Naming, site: Seq<u8>, input: B) -> Seq<TokenView<B>> {
    declaration(const_name(naming, site), input)
}

/// Builds `const name: fn() -> () = || { body };`.
pub fn wrap<B>(name: Vec<char>, body: B) -> (r: Vec<Token<B>>)
    ensures
        tokens_view(r@) == declaration(name@, body),
{
    let kw_const: Vec<char> = vec!['c', 'o', 'n', 's', 't'];
    let kw_fn: Vec<char> = vec!['f', 'n'];
    let ghost name_v = name@;
    let ghost const_v = kw_const@;
    let ghost fn_v = kw_fn@;
    assert(const_v =~= seq!['c', 'o', 'n', 's', 't']);
    assert(fn_v =~= seq!['f', 'n']);
    let r: Vec<Token<B>> = vec![
        Token::Ident(kw_const),
        Token::Ident(name),
        Token::Punct(':', Spacing::Alone),
        Token::Ident(kw_fn),
        Token::Empty(Delimiter::Parenthesis),
        Token::Punct('-', Spacing::Joint),
        Token::Punct('>', Spacing::Joint),
        Token::Empty(Delimiter::Parenthesis),
        Token::Punct('=', Spacing::Alone),
        Token::Punct('|', Spacing::Joint),
        Token::Punct('|', Spacing::Joint),
        Token::Group(Delimiter::Brace, body),
        Token::Punct(';', Spacing::Alone),
    ];
    assert(tokens_view(r@) =~= declaration(name_v, body));
    r
}

/// Wraps the caller's tokens `input` in a declaration of a never-called
/// closure, named for the call site whose metadata reads `site`.
pub fn exclusive<B>(naming: Naming, site: &[u8], input: B) -> (r: Vec<Token<B>>)
    ensures
        tokens_view(r@) == expansion(naming, site@, input),
{
    let name = name_for(naming, site);
    wrap(name, input)
}

/// The name an expansion declares depends on the call site alone: expanding
/// at one call site gives the same name whatever the caller's tokens are.
pub proof fn lemma_name_fixed_by_site<B>(naming: Naming, site: Seq<u8>, a: B, b: B)
    ensures
        expansion(naming, site, a)[1] == TokenView::<B>::Ident(const_name(naming, site)),
        expansion(naming, site, a)[1] == expansion(naming, site, b)[1],
{
}

/// Two call sites with different metadata declare different names, each a
/// well-formed identifier, so their expansions can share one scope.
pub proof fn lemma_distinct_sites_distinct_names<B>(a: Seq<u8>, b: Seq<u8>, x: B, y: B)
    requires
        a != b,
    ensures
        expansion(Naming::Hashed, a, x)[1] != expansion(Naming::Hashed, b, y)[1],
        is_identifier(const_name(Naming::Hashed, a)),
        is_identifier(const_name(Naming::Hashed, b)),
{
    lemma_site_name_injective(a, b);
    lemma_site_name_is_identifier(a);
    lemma_site_name_is_identifier(b);
    let (ea, eb) = (expansion(Naming::Hashed, a, x), expansion(Naming::Hashed, b, y));
    assert(ea[1] == TokenView::<B>::Ident(site_name(a)));
    assert(eb[1] == TokenView::<B>::Ident(site_name(b)));
}

/// The caller's tokens are never run by the expansion: they stand in one
/// place only, as the body of a closure that a `const` binds, and the
/// declaration ends right after that body, with no call of it.
pub proof fn lemma_input_only_in_closure_body<B>(naming: Naming, site: Seq<u8>, input: B)
    ensures
        expansion(naming, site, input).len() == 13,
        expansion(naming, site, input)[0] == TokenView::<B>::Ident(seq!['c', 'o', 'n', 's', 't']),
        expansion(naming, site, input)[9] == TokenView::<B>::Punct('|', Spacing::Joint),
        expansion(naming, site, input)[10] == TokenView::<B>::Punct('|', Spacing::Joint),
        expansion(naming, site, input)[11] == TokenView::Group(Delimiter::Brace, input),
        expansion(naming, site, input)[12] == TokenView::<B>::Punct(';', Spacing::Alone),
        forall|i: int|
            0 <= i < 13 && i != 11 ==> !(#[trigger] expansion(naming, site, input)[i] is Group),
{
}

/// The caller's tokens are carried into the closure body whole and in
/// order, and everything around them is the same for every input.
pub proof fn lemma_body_passes_through<B>(naming: Naming, site: Seq<u8>, a: B, b: B)
    ensures
        expansion(naming, site, a)[11] == TokenView::Group(Delimiter::Brace, a),
        expansion(naming, site, a).len() == expansion(naming, site, b).len(),
        forall|i: int|
            0 <= i < 13 && i != 11 ==> #[trigger] expansion(naming, site, a)[i] == expansion(
                naming,
                site,
                b,
            )[i],
{
}

} // verus!
