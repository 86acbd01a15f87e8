//! The function-argument list parser: reduces the token sequence between
//! the parentheses of a function signature to its call-site argument-list
//! string. The sequence is split on top-level commas; each parameter chunk
//! becomes either the receiver keyword (when its last token is `self`) or
//! its first token's text (the parameter name); the reduced chunks are
//! joined with `", "`.

use vstd::prelude::*;
use crate::text::str_eq;
use crate::token::{Token, TokenKind};

verus! {

/// Whether a token is a top-level comma.
pub open spec fn is_comma(t: Token) -> bool {
    t.kind == TokenKind::Punct && t.text@ == ","@
}

/// The index of the first comma in `s`, or `s.len()` if there is none.
pub open spec fn find_comma(s: Seq<Token>) -> int
    decreases s.len(),
{
    if s.len() == 0 {
        0
    } else if is_comma(s[0]) {
        0
    } else {
        1 + find_comma(s.drop_first())
    }
}

/// What `find_comma` returns: the position of the first comma, or the
/// length when no comma occurs.
pub proof fn lemma_find_comma(s: Seq<Token>)
    ensures
        0 <= find_comma(s) <= s.len(),
        find_comma(s) < s.len() ==> is_comma(s[find_comma(s)]),
        forall|j: int| 0 <= j < find_comma(s) ==> !is_comma(s[j]),
    decreases s.len(),
{
    if s.len() > 0 && !is_comma(s[0]) {
        lemma_find_comma(s.drop_first());
        assert forall|j: int| 0 <= j < find_comma(s) implies !is_comma(s[j]) by {
            if j > 0 {
                assert(!is_comma(s.drop_first()[j - 1]));
            }
        }
    }
}

/// If the first comma of `s` is at `k`, then `find_comma` returns `k`; if
/// there is none, it returns the length.
pub proof fn lemma_find_comma_at(s: Seq<Token>, k: int)
    requires
        0 <= k <= s.len(),
        forall|j: int| 0 <= j < k ==> !is_comma(s[j]),
        k < s.len() ==> is_comma(s[k]),
    ensures
        find_comma(s) == k,
    decreases s.len(),
{
    if s.len() > 0 && !is_comma(s[0]) {
        assert(forall|j: int| 0 <= j < k - 1 ==> !is_comma(s.drop_first()[j]));
        lemma_find_comma_at(s.drop_first(), k - 1);
    }
}

/// The call-site form of one parameter chunk: the receiver keyword when the
/// chunk's last token reads `self`, else the first token's text.
pub open spec fn one_arg(s: Seq<Token>) -> Seq<char> {
    if s.last().text@ == "self"@ {
        "self"@
    } else {
        s[0].text@
    }
}

/// Whether a parameter-list token sequence has no empty chunk before its
/// end: no leading comma and no two adjacent commas. A trailing comma is
/// fine.
pub open spec fn wf_args(s: Seq<Token>) -> bool
    decreases s.len(),
{
    if s.len() == 0 {
        true
    } else {
        let f = find_comma(s);
        if f == 0 {
            false
        } else if 0 <= f < s.len() {
            wf_args(s.subrange(f + 1, s.len() as int))
        } else {
            true
        }
    }
}

/// The argument-list string of a parameter-list token sequence: the reduced
/// chunks joined with `", "`. An empty sequence yields the empty string; a
/// trailing comma yields no empty chunk.
pub open spec fn args_text(s: Seq<Token>) -> Seq<char>
    decreases s.len(),
{
    if s.len() == 0 {
        Seq::empty()
    } else {
        let f = find_comma(s);
        if 0 <= f < s.len() - 1 {
            one_arg(s.subrange(0, f)) + ", "@ + args_text(s.subrange(f + 1, s.len() as int))
        } else if f == s.len() - 1 {
            one_arg(s.subrange(0, f))
        } else {
            one_arg(s)
        }
    }
}

/// An empty parameter list reconstructs as the empty argument-list string.
pub proof fn lemma_empty_args()
    ensures
        args_text(Seq::<Token>::empty()) == Seq::<char>::empty(),
{
}

/// A parameter list whose first chunk reduces to the receiver keyword
/// reconstructs as exactly `self`, or as `self` followed by `", "` and the
/// remaining chunks.
pub proof fn lemma_receiver_first(s: Seq<Token>)
    requires
        s.len() > 0,
        wf_args(s),
        ({
            let f = find_comma(s);
            if f < s.len() {
                s.subrange(0, f).last().text@ == "self"@
            } else {
                s.last().text@ == "self"@
            }
        }),
    ensures
        ({
            let f = find_comma(s);
            if f >= s.len() - 1 {
                args_text(s) == "self"@
            } else {
                args_text(s) == "self"@ + ", "@ + args_text(s.subrange(f + 1, s.len() as int))
            }
        }),
{
    lemma_find_comma(s);
}

/// The call-site form of the parameter chunk `tokens[lo..hi]`.
pub fn parse_one_arg(tokens: &Vec<Token>, lo: usize, hi: usize) -> (r: String)
    requires
        lo < hi <= tokens@.len(),
    ensures
        r@ == one_arg(tokens@.subrange(lo as int, hi as int)),
{
    proof {
        assert(tokens@.subrange(lo as int, hi as int).last() == tokens@[hi - 1]);
        assert(tokens@.subrange(lo as int, hi as int)[0] == tokens@[lo as int]);
    }
    if str_eq(tokens[hi - 1].text.as_str(), "self") {
        "self".to_owned()
    } else {
        tokens[lo].text.clone()
    }
}

/// The argument-list string of the whole parameter-list token sequence.
pub fn parse_args(tokens: &Vec<Token>) -> (r: String)
    requires
        wf_args(tokens@),
    ensures
        r@ == args_text(tokens@),
{
    let ghost s = tokens@;
    let mut out = String::new();
    let mut start: usize = 0;
    let mut any: bool = false;
    let mut i: usize = 0;
    proof {
        assert(s.subrange(0, s.len() as int) =~= s);
    }
    while i < tokens.len()
        invariant
            0 <= start <= i <= s.len(),
            s == tokens@,
            wf_args(s.subrange(start as int, s.len() as int)),
            forall|j: int| start <= j < i ==> !is_comma(s[j]),
            any <==> start > 0,
            !any ==> out@ == Seq::<char>::empty(),
            if !any {
                args_text(s) == args_text(s.subrange(start as int, s.len() as int))
            } else if start == s.len() {
                args_text(s) == out@
            } else {
                args_text(s) == out@ + ", "@ + args_text(s.subrange(start as int, s.len() as int))
            },
        decreases s.len() - i,
    {
        let is_sep = tokens[i].kind == TokenKind::Punct && str_eq(tokens[i].text.as_str(), ",");
        if is_sep {
            let ghost rem = s.subrange(start as int, s.len() as int);
            proof {
                assert(is_comma(s[i as int]));
                assert(rem[i - start] == s[i as int]);
                assert(forall|j: int| 0 <= j < i - start ==> !is_comma(rem[j]));
                lemma_find_comma_at(rem, i - start);
                assert(find_comma(rem) == i - start);
                assert(i - start > 0) by {
                    assert(wf_args(rem));
                }
                assert(rem.subrange(0, i - start) =~= s.subrange(start as int, i as int));
                assert(rem.subrange(i - start + 1, rem.len() as int) =~= s.subrange(
                    i + 1,
                    s.len() as int,
                ));
            }
            let arg = parse_one_arg(tokens, start, i);
            if any {
                out.append(", ");
                out.append(arg.as_str());
            } else {
                out = arg;
                any = true;
            }
            proof {
                if i - start < rem.len() - 1 {
                    assert(args_text(rem) == one_arg(rem.subrange(0, i - start)) + ", "@
                        + args_text(rem.subrange(i - start + 1, rem.len() as int)));
                    assert(args_text(s) =~= out@ + ", "@ + args_text(s.subrange(
                        i + 1,
                        s.len() as int,
                    )));
                } else {
                    assert(args_text(rem) == one_arg(rem.subrange(0, i - start)));
                    assert(args_text(s) =~= out@);
                }
            }
            start = i + 1;
        }
        i = i + 1;
    }
    if start < tokens.len() {
        let ghost rem = s.subrange(start as int, s.len() as int);
        proof {
            lemma_find_comma_at(rem, rem.len() as int);
            assert(rem.subrange(0, rem.len() as int) =~= rem);
            assert(args_text(rem) == one_arg(rem));
        }
        let arg = parse_one_arg(tokens, start, tokens.len());
        if any {
            out.append(", ");
            out.append(arg.as_str());
        } else {
            out = arg;
        }
        proof {
            assert(args_text(s) =~= out@);
        }
    } else {
        proof {
            if !any {
                assert(args_text(s) == args_text(s.subrange(start as int, s.len() as int)));
                assert(s.subrange(start as int, s.len() as int).len() == 0);
            }
        }
    }
    out
}

} // verus!
