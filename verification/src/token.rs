//! The lexical token model.
//!
//! A token is the atomic unit of the rewriter's input and output: an
//! identifier, a literal, a punctuation mark, or a delimited group holding a
//! nested token sequence. Tokens carry no type information, only their
//! lexical text and, for groups, the nested sequence. The text of a group is
//! its full source text, delimiters included, as the tokenizer produced it.

use vstd::prelude::*;

verus! {

/// The delimiter of a token group.
#[derive(Clone, Copy, PartialEq, Eq, Structural)]
pub enum Delim {
    Paren,
    Brace,
    Bracket,
    /// An invisible delimiter, as tokenizers produce around expanded
    /// fragments; the rewriter treats such a group like any other token.
    Invisible,
}

/// What kind of token a [`Token`] is.
#[derive(Clone, Copy, PartialEq, Eq, Structural)]
pub enum TokenKind {
    Ident,
    Literal,
    Punct,
    Group(Delim),
}

/// One lexical token: its kind, its source text, and (for a group) the
/// nested token sequence. For a group, `text` is the full text between and
/// including the delimiters; for every other kind, `inner` is empty.
pub struct Token {
    pub kind: TokenKind,
    pub text: String,
    pub inner: Vec<Token>,
}

/// The mathematical value of a token as the rewriter's contracts see it:
/// its kind and the character sequence of its text. The nested sequence of
/// a group is examined separately, where a contract needs it.
pub ghost struct TokView {
    pub kind: TokenKind,
    pub text: Seq<char>,
}

impl View for Token {
    type V = TokView;

    open spec fn view(&self) -> TokView {
        TokView { kind: self.kind, text: self.text@ }
    }
}

/// The views of a token sequence.
pub open spec fn views(s: Seq<Token>) -> Seq<TokView> {
    s.map_values(|t: Token| t@)
}

/// Whether a token view is an identifier with the given text.
pub open spec fn is_ident_with(t: TokView, s: Seq<char>) -> bool {
    t.kind == TokenKind::Ident && t.text == s
}

/// The space-joined rendering of a sequence of token texts.
pub open spec fn render_texts(s: Seq<TokView>) -> Seq<char>
    decreases s.len(),
{
    if s.len() == 0 {
        Seq::empty()
    } else if s.len() == 1 {
        s[0].text
    } else {
        s[0].text + " "@ + render_texts(s.drop_first())
    }
}

/// Appending one more text to a space-joined rendering.
pub proof fn lemma_render_push(s: Seq<TokView>, t: TokView)
    ensures
        render_texts(s.push(t)) == if s.len() == 0 {
            t.text
        } else {
            (render_texts(s) + " "@ + t.text)
        },
    decreases s.len(),
{
    if s.len() == 0 {
        assert(s.push(t) =~= seq![t]);
    } else {
        assert(s.push(t)[0] == s[0]);
        assert(s.push(t).drop_first() =~= s.drop_first().push(t));
        if s.len() == 1 {
            assert(s.drop_first().push(t) =~= seq![t]);
            assert(render_texts(seq![t]) == t.text);
            assert(render_texts(s.push(t)) == s[0].text + " "@ + t.text);
            assert(render_texts(s) == s[0].text);
        } else {
            lemma_render_push(s.drop_first(), t);
            assert(render_texts(s.push(t)) == s[0].text + " "@ + (render_texts(s.drop_first())
                + " "@ + t.text));
            assert(render_texts(s) == s[0].text + " "@ + render_texts(s.drop_first()));
            assert(render_texts(s.push(t)) =~= render_texts(s) + " "@ + t.text);
        }
    }
}

impl Token {
    /// Builds an identifier token.
    pub fn ident(text: String) -> (r: Token)
        ensures
            r@ == (TokView { kind: TokenKind::Ident, text: text@ }),
            r.inner@.len() == 0,
    {
        Token { kind: TokenKind::Ident, text, inner: Vec::new() }
    }

    /// Builds a literal token.
    pub fn literal(text: String) -> (r: Token)
        ensures
            r@ == (TokView { kind: TokenKind::Literal, text: text@ }),
            r.inner@.len() == 0,
    {
        Token { kind: TokenKind::Literal, text, inner: Vec::new() }
    }

    /// Builds a punctuation token.
    pub fn punct(text: String) -> (r: Token)
        ensures
            r@ == (TokView { kind: TokenKind::Punct, text: text@ }),
            r.inner@.len() == 0,
    {
        Token { kind: TokenKind::Punct, text, inner: Vec::new() }
    }

    /// Builds a group token from its delimiter, its full source text
    /// (delimiters included) and its nested token sequence.
    pub fn group(delim: Delim, text: String, inner: Vec<Token>) -> (r: Token)
        ensures
            r@ == (TokView { kind: TokenKind::Group(delim), text: text@ }),
            r.inner == inner,
    {
        Token { kind: TokenKind::Group(delim), text, inner }
    }
}

/// Renders a token sequence as source text: the tokens' texts joined by
/// single spaces.
pub fn render(tokens: &Vec<Token>) -> (r: String)
    ensures
        r@ == render_texts(views(tokens@)),
{
    let mut out = String::new();
    let mut i: usize = 0;
    while i < tokens.len()
        invariant
            i <= tokens.len(),
            out@ == render_texts(views(tokens@.subrange(0, i as int))),
        decreases tokens.len() - i,
    {
        proof {
            lemma_render_push(views(tokens@.subrange(0, i as int)), tokens@[i as int]@);
            assert(views(tokens@.subrange(0, i + 1)) =~= views(tokens@.subrange(0, i as int)).push(
                tokens@[i as int]@,
            ));
            assert(views(tokens@.subrange(0, i as int)).len() == i);
        }
        if i > 0 {
            out.append(" ");
        }
        out.append(tokens[i].text.as_str());
        i = i + 1;
    }
    proof {
        assert(tokens@.subrange(0, tokens@.len() as int) =~= tokens@);
    }
    out
}

} // verus!
