//! The visibility elevator: scans a token sequence and, when no visibility
//! keyword precedes the function keyword, inserts one immediately before
//! it. A sequence without a function keyword, or with a visibility keyword
//! already in front, passes through unchanged. The elevator is idempotent.

use vstd::prelude::*;
use crate::text::str_eq;
use crate::token::{views, Token, TokenKind, TokView};

verus! {

/// The view of an inserted visibility keyword token.
pub open spec fn pub_view() -> TokView {
    TokView { kind: TokenKind::Ident, text: "pub"@ }
}

/// Whether a token view is the function keyword.
pub open spec fn is_fn_kw(t: TokView) -> bool {
    t.kind == TokenKind::Ident && t.text == "fn"@
}

/// Whether a token view is the visibility keyword.
pub open spec fn is_pub_kw(t: TokView) -> bool {
    t.kind == TokenKind::Ident && t.text == "pub"@
}

/// The index of the first function keyword, or the length if there is none.
pub open spec fn first_fn(s: Seq<TokView>) -> int
    decreases s.len(),
{
    if s.len() == 0 {
        0
    } else if is_fn_kw(s[0]) {
        0
    } else {
        1 + first_fn(s.drop_first())
    }
}

/// What `first_fn` returns: the position of the first function keyword, or
/// the length when there is none.
pub proof fn lemma_first_fn(s: Seq<TokView>)
    ensures
        0 <= first_fn(s) <= s.len(),
        first_fn(s) < s.len() ==> is_fn_kw(s[first_fn(s)]),
        forall|j: int| 0 <= j < first_fn(s) ==> !is_fn_kw(s[j]),
    decreases s.len(),
{
    if s.len() > 0 && !is_fn_kw(s[0]) {
        lemma_first_fn(s.drop_first());
        assert forall|j: int| 0 <= j < first_fn(s) implies !is_fn_kw(s[j]) by {
            if j > 0 {
                assert(!is_fn_kw(s.drop_first()[j - 1]));
            }
        }
    }
}

/// If the first function keyword of `s` is at `k`, then `first_fn` returns
/// `k`; if there is none, it returns the length.
pub proof fn lemma_first_fn_at(s: Seq<TokView>, k: int)
    requires
        0 <= k <= s.len(),
        forall|j: int| 0 <= j < k ==> !is_fn_kw(s[j]),
        k < s.len() ==> is_fn_kw(s[k]),
    ensures
        first_fn(s) == k,
    decreases s.len(),
{
    if s.len() > 0 && !is_fn_kw(s[0]) {
        assert(forall|j: int| 0 <= j < k - 1 ==> !is_fn_kw(s.drop_first()[j]));
        lemma_first_fn_at(s.drop_first(), k - 1);
    }
}

/// Whether elevation must insert a visibility keyword: a function keyword
/// occurs and no visibility keyword stands before it.
pub open spec fn needs_pub(s: Seq<TokView>) -> bool {
    first_fn(s) < s.len() && (forall|j: int| 0 <= j < first_fn(s) ==> !is_pub_kw(s[j]))
}

/// The elevation of a token-view sequence: unchanged unless it needs the
/// visibility keyword, which is then inserted before the function keyword.
pub open spec fn elevate_views(s: Seq<TokView>) -> Seq<TokView> {
    if needs_pub(s) {
        let k = first_fn(s);
        s.subrange(0, k) + seq![pub_view()] + s.subrange(k, s.len() as int)
    } else {
        s
    }
}

/// How the elevator's output tokens relate to its input tokens: every input
/// token is kept, in order, and exactly when the input needs the visibility
/// keyword a fresh one stands before the function keyword.
pub open spec fn is_elevation_of(inp: Seq<Token>, out: Seq<Token>) -> bool {
    if needs_pub(views(inp)) {
        let k = first_fn(views(inp));
        &&& out.len() == inp.len() + 1
        &&& forall|j: int| 0 <= j < k ==> out[j] == inp[j]
        &&& out[k]@ == pub_view()
        &&& out[k].inner@.len() == 0
        &&& forall|j: int| k < j < out.len() ==> out[j] == inp[j - 1]
    } else {
        out == inp
    }
}

/// The elevator's effect on the token views: exactly `elevate_views`.
pub proof fn lemma_elevation_views(inp: Seq<Token>, out: Seq<Token>)
    requires
        is_elevation_of(inp, out),
    ensures
        views(out) == elevate_views(views(inp)),
{
    if needs_pub(views(inp)) {
        let k = first_fn(views(inp));
        lemma_first_fn(views(inp));
        assert(views(out) =~= views(inp).subrange(0, k) + seq![pub_view()] + views(inp).subrange(
            k,
            views(inp).len() as int,
        ));
    }
}

/// The output of one elevation never needs another: its function keyword,
/// if any, has a visibility keyword in front.
pub proof fn lemma_elevation_settled(inp: Seq<Token>, out: Seq<Token>)
    requires
        is_elevation_of(inp, out),
    ensures
        !needs_pub(views(out)),
{
    lemma_first_fn(views(inp));
    if needs_pub(views(inp)) {
        let k = first_fn(views(inp));
        reveal_strlit("pub");
        reveal_strlit("fn");
        assert("pub"@.len() == 3);
        assert("fn"@.len() == 2);
        assert(!is_fn_kw(pub_view()));
        assert(forall|j: int| 0 <= j < k ==> views(out)[j] == views(inp)[j]);
        assert(is_fn_kw(views(out)[k + 1]));
        lemma_first_fn_at(views(out), k + 1);
        assert(is_pub_kw(views(out)[k]));
    } else {
        assert(views(out) =~= views(inp));
        if first_fn(views(inp)) < views(inp).len() {
            let k = first_fn(views(inp));
            assert(exists|j: int| 0 <= j < k && is_pub_kw(views(inp)[j]));
        }
    }
}

/// Elevating twice is elevating once: the second pass finds the visibility
/// keyword the first pass ensured and changes nothing.
pub proof fn lemma_elevation_idempotent(a: Seq<Token>, b: Seq<Token>, c: Seq<Token>)
    requires
        is_elevation_of(a, b),
        is_elevation_of(b, c),
    ensures
        c == b,
{
    lemma_elevation_settled(a, b);
}

/// Scans the token sequence; when the function keyword comes before any
/// visibility keyword, a visibility keyword is inserted in front of it.
pub fn make_public(input: Vec<Token>) -> (r: Vec<Token>)
    ensures
        is_elevation_of(input@, r@),
{
    let ghost s = views(input@);
    let n = input.len();
    let mut k: usize = 0;
    let mut is_public = false;
    let mut found = false;
    proof {
        assert(s.len() == n);
    }
    while k < n && !found
        invariant
            0 <= k <= n,
            n == input@.len(),
            s == views(input@),
            s.len() == n,
            forall|j: int| 0 <= j < k ==> !is_fn_kw(s[j]),
            is_public <==> exists|j: int| 0 <= j < k && is_pub_kw(s[j]),
            found ==> k < n && is_fn_kw(s[k as int]),
        decreases n - k + if found {
            0int
        } else {
            1int
        },
    {
        proof {
            assert(s[k as int] == input@[k as int]@);
        }
        let t = &input[k];
        let is_ident = t.kind == TokenKind::Ident;
        if is_ident && str_eq(t.text.as_str(), "fn") {
            found = true;
        } else {
            if is_ident && str_eq(t.text.as_str(), "pub") {
                proof {
                    assert(is_pub_kw(s[k as int]));
                }
                is_public = true;
            }
            k = k + 1;
        }
    }
    proof {
        if found {
            lemma_first_fn_at(s, k as int);
        } else {
            lemma_first_fn_at(s, n as int);
        }
    }
    if !found || is_public {
        proof {
            assert(!needs_pub(s));
        }
        input
    } else {
        proof {
            assert(needs_pub(s));
        }
        let ghost before = input@;
        let mut result = input;
        result.insert(k, Token::ident("pub".to_owned()));
        proof {
            reveal_strlit("pub");
            assert(result@.len() == before.len() + 1);
            assert(forall|j: int| 0 <= j < k ==> result@[j] == before[j]);
            assert(forall|j: int| k < j < result@.len() ==> result@[j] == before[j - 1]);
            assert(result@[k as int]@ == pub_view());
        }
        result
    }
}

} // verus!
