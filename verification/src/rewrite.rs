//! The dispatcher rewriter: scans a function item's token sequence with a
//! small state machine, splits it into a signature part and an
//! original-body part, and emits source text holding the renamed original
//! (made public) and a dispatcher with the original's signature that calls
//! the mock under the test-build condition and the renamed original
//! otherwise. Also the companion marker that gates a function to
//! development builds.

use vstd::prelude::*;
use vstd::string::StrSliceExecFns;
use vstd::string::StringExecFns;
use crate::args::{args_text, find_comma, lemma_receiver_first, parse_args, wf_args};
use crate::params::{
    has_scope_impl, last_scope_impl, lemma_scope_views, opt_pairs, params_error, parse_params,
    ref_text, RewriteError,
};
use crate::text::str_eq;
use crate::token::{render, render_texts, views, Delim, Token, TokenKind, TokView};
use crate::visibility::{elevate_views, is_elevation_of, lemma_elevation_views, make_public};

verus! {

/// The build mode the invoking toolchain reports: whether this is a debug
/// build and whether tests are being compiled.
#[derive(Clone, Copy, PartialEq, Eq, Structural)]
pub struct BuildMode {
    pub debug: bool,
    pub test: bool,
}

/// Whether the rewriting machinery is active: only in debug or test builds.
pub open spec fn is_dev(m: BuildMode) -> bool {
    m.debug || m.test
}

/// The prefix prepended to the original function's name.
#[derive(Clone, Copy, PartialEq, Eq, Structural, Debug)]
pub enum Prefix {
    Underscore,
    DoubleUnderscore,
    Orig,
}

/// The text of a prefix choice.
pub open spec fn prefix_text(p: Prefix) -> Seq<char> {
    match p {
        Prefix::Underscore => "_"@,
        Prefix::DoubleUnderscore => "__"@,
        Prefix::Orig => "_orig_"@,
    }
}

/// The text of a prefix choice, as a string slice.
pub fn prefix_str(p: Prefix) -> (r: &'static str)
    ensures
        r@ == prefix_text(p),
{
    match p {
        Prefix::Underscore => "_",
        Prefix::DoubleUnderscore => "__",
        Prefix::Orig => "_orig_",
    }
}

/// Resolves the build-time prefix selection: the plain underscore unless
/// one of the two alternative selections is active; selecting both at once
/// is a configuration error.
pub fn choose_prefix(double_underscore: bool, orig: bool) -> (r: Result<Prefix, RewriteError>)
    ensures
        r is Err <==> double_underscore && orig,
        r matches Err(e) ==> e == RewriteError::PrefixConflict,
        r matches Ok(p) ==> p == (if double_underscore {
            Prefix::DoubleUnderscore
        } else if orig {
            Prefix::Orig
        } else {
            Prefix::Underscore
        }),
{
    if double_underscore && orig {
        Err(RewriteError::PrefixConflict)
    } else if double_underscore {
        Ok(Prefix::DoubleUnderscore)
    } else if orig {
        Ok(Prefix::Orig)
    } else {
        Ok(Prefix::Underscore)
    }
}

/// The scan's stage: strictly increasing as the token scan proceeds.
#[derive(Clone, Copy, PartialEq, Eq, Structural)]
pub enum Stage {
    Start,
    FnIdentFound,
    FnNameFound,
    FnArgsFound,
    FnBodyFound,
}

/// The rank of a stage: the total order the scan advances along.
pub open spec fn stage_rank(s: Stage) -> int {
    match s {
        Stage::Start => 0,
        Stage::FnIdentFound => 1,
        Stage::FnNameFound => 2,
        Stage::FnArgsFound => 3,
        Stage::FnBodyFound => 4,
    }
}

/// Compares the current stage with an expected one: negative when before
/// it, zero at it, positive past it.
pub fn cmp(current: &Stage, expected: Stage) -> (r: i8)
    ensures
        r as int == stage_rank(*current) - stage_rank(expected),
{
    let a: i8 = match current {
        Stage::Start => 0,
        Stage::FnIdentFound => 1,
        Stage::FnNameFound => 2,
        Stage::FnArgsFound => 3,
        Stage::FnBodyFound => 4,
    };
    let b: i8 = match expected {
        Stage::Start => 0,
        Stage::FnIdentFound => 1,
        Stage::FnNameFound => 2,
        Stage::FnArgsFound => 3,
        Stage::FnBodyFound => 4,
    };
    a - b
}

/// Builds an identifier token whose text is the given prefix followed by
/// the given token's text.
pub fn create_name_token(prefix: &str, token: &Token) -> (r: Token)
    ensures
        r@ == (TokView { kind: TokenKind::Ident, text: prefix@ + token.text@ }),
        r.inner@.len() == 0,
{
    let mut text = prefix.to_owned();
    text.append(token.text.as_str());
    Token::ident(text)
}

/// Appends one token's text to an accumulating signature rendering,
/// space-separated from what is already there.
pub open spec fn sig_app(sig: Seq<char>, txt: Seq<char>) -> Seq<char> {
    if sig.len() == 0 {
        txt
    } else {
        sig + " "@ + txt
    }
}

fn sig_push(sig: &mut String, txt: &str)
    ensures
        final(sig)@ == sig_app(old(sig)@, txt@),
{
    if sig.as_str().is_empty() {
        sig.append(txt);
    } else {
        sig.append(" ");
        sig.append(txt);
    }
}

/// Whether an argument-list string starts with the receiver: exactly
/// `self`, or `self` directly followed by a comma.
pub open spec fn args_impl_scope(args: Seq<char>) -> bool {
    args == "self"@ || (args.len() >= 5 && args.subrange(0, 5) == "self,"@)
}

fn impl_scope_of(args: &str) -> (r: bool)
    ensures
        r == args_impl_scope(args@),
{
    if str_eq(args, "self") {
        return true;
    }
    let n = args.unicode_len();
    if n >= 5 {
        let head = args.substring_char(0, 5);
        if str_eq(head, "self,") {
            return true;
        }
    }
    false
}

/// A parameter list whose first chunk reduces to the receiver keyword is
/// detected as implementation scope: its argument-list string is exactly
/// `self` or starts with `self,`.
pub proof fn lemma_receiver_detected(s: Seq<Token>)
    requires
        s.len() > 0,
        wf_args(s),
        ({
            let f = find_comma(s);
            if f < s.len() {
                s.subrange(0, f).last().text@ == "self"@
            } else {
                s.last().text@ == "self"@
            }
        }),
    ensures
        args_impl_scope(args_text(s)),
{
    lemma_receiver_first(s);
    let f = find_comma(s);
    reveal_strlit("self");
    reveal_strlit("self,");
    reveal_strlit(", ");
    if f < s.len() - 1 {
        let args = args_text(s);
        assert(args == "self"@ + ", "@ + args_text(s.subrange(f + 1, s.len() as int)));
        assert(args.len() >= 5);
        assert(args.subrange(0, 5) =~= "self,"@);
    }
}

/// Everything the left-to-right scan of a function item's tokens yields.
pub ghost struct ScanState {
    /// How far the scan has advanced; never retreats.
    pub stage: Stage,
    /// The rendered signature accumulator: every token up to the body,
    /// space-joined, with the bare function name.
    pub sig: Seq<char>,
    /// The reconstructed call-site argument-list string.
    pub args: Seq<char>,
    /// Whether the parameter group, if one was scanned, is free of empty
    /// parameter chunks.
    pub args_ok: bool,
    /// Where the function's name token stands, once found.
    pub name_pos: Option<int>,
    /// The prefixed name of the preserved original, once found.
    pub orig_name: Seq<char>,
    /// Whether the parameter list starts with the receiver keyword.
    pub is_impl: bool,
}

/// The scan before any token.
pub open spec fn scan_init() -> ScanState {
    ScanState {
        stage: Stage::Start,
        sig: Seq::empty(),
        args: Seq::empty(),
        args_ok: true,
        name_pos: None,
        orig_name: Seq::empty(),
        is_impl: false,
    }
}

/// One scan step: the state machine's transition on one token.
pub open spec fn scan_step(st: ScanState, t: Token, idx: int, prefix: Seq<char>) -> ScanState {
    if t.kind == TokenKind::Ident && stage_rank(st.stage) < 1 && t.text@ == "fn"@ {
        ScanState {
            stage: Stage::FnIdentFound,
            sig: sig_app(st.sig, t.text@),
            args: st.args,
            args_ok: st.args_ok,
            name_pos: st.name_pos,
            orig_name: st.orig_name,
            is_impl: st.is_impl,
        }
    } else if t.kind == TokenKind::Ident && stage_rank(st.stage) == 1 {
        ScanState {
            stage: Stage::FnNameFound,
            sig: sig_app(st.sig, t.text@),
            args: st.args,
            args_ok: st.args_ok,
            name_pos: Some(idx),
            orig_name: prefix + t.text@,
            is_impl: st.is_impl,
        }
    } else if t.kind == TokenKind::Group(Delim::Paren) && stage_rank(st.stage) < 3 {
        ScanState {
            stage: Stage::FnArgsFound,
            sig: sig_app(st.sig, t.text@),
            args: args_text(t.inner@),
            args_ok: st.args_ok && wf_args(t.inner@),
            name_pos: st.name_pos,
            orig_name: st.orig_name,
            is_impl: args_impl_scope(args_text(t.inner@)),
        }
    } else if t.kind == TokenKind::Group(Delim::Brace) && stage_rank(st.stage) < 4 {
        ScanState {
            stage: Stage::FnBodyFound,
            sig: st.sig,
            args: st.args,
            args_ok: st.args_ok,
            name_pos: st.name_pos,
            orig_name: st.orig_name,
            is_impl: st.is_impl,
        }
    } else {
        ScanState {
            stage: st.stage,
            sig: if stage_rank(st.stage) < 4 {
                sig_app(st.sig, t.text@)
            } else {
                st.sig
            },
            args: st.args,
            args_ok: st.args_ok,
            name_pos: st.name_pos,
            orig_name: st.orig_name,
            is_impl: st.is_impl,
        }
    }
}

/// The scan after the first `i` tokens.
pub open spec fn scan(s: Seq<Token>, prefix: Seq<char>, i: int) -> ScanState
    decreases i,
{
    if i <= 0 {
        scan_init()
    } else {
        scan_step(scan(s, prefix, i - 1), s[i - 1], i - 1, prefix)
    }
}

/// The stage advances monotonically as the scan proceeds: once a stage is
/// reached it is never revisited.
pub proof fn lemma_stage_monotonic(s: Seq<Token>, prefix: Seq<char>, i: int, j: int)
    requires
        0 <= i <= j,
    ensures
        stage_rank(scan(s, prefix, i).stage) <= stage_rank(scan(s, prefix, j).stage),
    decreases j - i,
{
    if i < j {
        lemma_stage_monotonic(s, prefix, i, j - 1);
    }
}

/// A scan whose parameter group is well-formed at the end had it
/// well-formed at every earlier point.
pub proof fn lemma_args_ok_mono(s: Seq<Token>, prefix: Seq<char>, i: int, j: int)
    requires
        0 <= i <= j,
        scan(s, prefix, j).args_ok,
    ensures
        scan(s, prefix, i).args_ok,
    decreases j - i,
{
    if i < j {
        lemma_args_ok_mono(s, prefix, i, j - 1);
    }
}

/// The token views of the input with the function's name token, if found,
/// replaced by its prefixed variant.
pub open spec fn renamed_views(s: Seq<Token>, prefix: Seq<char>) -> Seq<TokView> {
    match scan(s, prefix, s.len() as int).name_pos {
        Some(np) => views(s).update(
            np,
            TokView { kind: TokenKind::Ident, text: prefix + s[np].text@ },
        ),
        None => views(s),
    }
}

/// The rendered text of the preserved original: the input with the name
/// token prefixed, passed through the visibility elevator.
pub open spec fn original_text(s: Seq<Token>, prefix: Seq<char>) -> Seq<char> {
    render_texts(elevate_views(renamed_views(s, prefix)))
}

/// The qualifier of the delegate call: the implicit-self path for
/// implementation scope, nothing otherwise.
pub open spec fn qual_text(impl_scope: bool) -> Seq<char> {
    if impl_scope {
        "Self::"@
    } else {
        Seq::empty()
    }
}

/// The emitted source text: the preserved original, then a dispatcher with
/// the scanned signature whose body returns the mock call under the
/// test-build condition and the (possibly qualified) renamed-original call
/// otherwise.
pub open spec fn compose(
    orig: Seq<char>,
    sig: Seq<char>,
    mock_ref: Seq<char>,
    args: Seq<char>,
    qual: Seq<char>,
    orig_name: Seq<char>,
) -> Seq<char> {
    orig + "\n\n"@ + sig + " {\n    #[cfg(test)]\n    return "@ + mock_ref + "("@ + args
        + ");\n    #[cfg(not(test))]\n    return "@ + qual + orig_name + "("@ + args + ");\n}\n"@
}

/// The whole rewritten source text for a function item and an invocation
/// argument text.
pub open spec fn mocked_code(s: Seq<Token>, a: Seq<char>, prefix: Seq<char>) -> Seq<char> {
    let st = scan(s, prefix, s.len() as int);
    let impl_scope = st.is_impl || last_scope_impl(opt_pairs(a));
    compose(
        original_text(s, prefix),
        st.sig,
        ref_text(a),
        st.args,
        qual_text(impl_scope),
        st.orig_name,
    )
}

/// What the dispatcher rewriter returns: the input unchanged in a release
/// build, else the composed source text for the toolchain to re-tokenize.
pub enum Rewritten {
    Unchanged(Vec<Token>),
    Source(String),
}

/// The dispatcher rewriter. In a release build the input passes through
/// unchanged. Otherwise the invocation arguments are parsed (their errors
/// abort the rewrite), the token sequence is scanned, and the rewritten
/// source text is produced: the renamed original made public, and a
/// dispatcher that returns the mock call under the test-build condition
/// and the renamed-original call otherwise, qualified with the
/// implicit-self path when the parameter list starts with the receiver or
/// the `scope = impl` option is given.
pub fn mocked(args: &str, input: Vec<Token>, mode: BuildMode, prefix: Prefix) -> (r: Result<
    Rewritten,
    RewriteError,
>)
    requires
        is_dev(mode) && params_error(args@) is None ==> scan(
            input@,
            prefix_text(prefix),
            input@.len() as int,
        ).args_ok,
    ensures
        !is_dev(mode) ==> (r matches Ok(Rewritten::Unchanged(v)) && v == input),
        is_dev(mode) && params_error(args@) is Some ==> (r matches Err(e) && params_error(args@)
            == Some(e)),
        is_dev(mode) && params_error(args@) is None ==> (r matches Ok(Rewritten::Source(code))
            && code@ == mocked_code(input@, args@, prefix_text(prefix))),
{
    if !(mode.debug || mode.test) {
        return Ok(Rewritten::Unchanged(input));
    }
    let params = match parse_params(args) {
        Ok(p) => p,
        Err(e) => {
            return Err(e);
        },
    };
    let ghost s = input@;
    let ghost p = prefix_text(prefix);
    let prefix_s = prefix_str(prefix);

    let mut stage = Stage::Start;
    let mut sig = String::new();
    let mut args_str = String::new();
    let mut orig_name = String::new();
    let mut is_impl = false;
    let mut name_pos: usize = 0;
    let mut name_found = false;
    let mut renamed: Option<Token> = None;

    let mut i: usize = 0;
    while i < input.len()
        invariant
            0 <= i <= s.len(),
            s == input@,
            prefix_s@ == p,
            scan(s, p, s.len() as int).args_ok,
            stage == scan(s, p, i as int).stage,
            sig@ == scan(s, p, i as int).sig,
            args_str@ == scan(s, p, i as int).args,
            orig_name@ == scan(s, p, i as int).orig_name,
            is_impl == scan(s, p, i as int).is_impl,
            name_found <==> scan(s, p, i as int).name_pos is Some,
            name_found ==> scan(s, p, i as int).name_pos == Some(name_pos as int) && name_pos < i,
            name_found ==> (renamed matches Some(nt) && nt@ == (TokView {
                kind: TokenKind::Ident,
                text: p + s[name_pos as int].text@,
            }) && nt.inner@.len() == 0),
            !name_found ==> renamed is None,
        decreases s.len() - i,
    {
        proof {
            assert(scan(s, p, i + 1) == scan_step(scan(s, p, i as int), s[i as int], i as int, p));
        }
        let t = &input[i];
        let is_ident = t.kind == TokenKind::Ident;
        if is_ident && cmp(&stage, Stage::FnIdentFound) < 0 && str_eq(t.text.as_str(), "fn") {
            stage = Stage::FnIdentFound;
            sig_push(&mut sig, t.text.as_str());
        } else if is_ident && cmp(&stage, Stage::FnIdentFound) == 0 {
            stage = Stage::FnNameFound;
            sig_push(&mut sig, t.text.as_str());
            let nt = create_name_token(prefix_s, t);
            orig_name = nt.text.clone();
            renamed = Some(nt);
            name_pos = i;
            name_found = true;
        } else if t.kind == TokenKind::Group(Delim::Paren) && cmp(&stage, Stage::FnArgsFound)
            < 0 {
            stage = Stage::FnArgsFound;
            proof {
                lemma_args_ok_mono(s, p, i + 1, s.len() as int);
                assert(wf_args(t.inner@));
            }
            args_str = parse_args(&t.inner);
            is_impl = impl_scope_of(args_str.as_str());
            sig_push(&mut sig, t.text.as_str());
        } else if t.kind == TokenKind::Group(Delim::Brace) && cmp(&stage, Stage::FnBodyFound)
            < 0 {
            stage = Stage::FnBodyFound;
        } else {
            if cmp(&stage, Stage::FnBodyFound) < 0 {
                sig_push(&mut sig, t.text.as_str());
            }
        }
        i = i + 1;
    }

    let scope_impl = has_scope_impl(&params);
    proof {
        lemma_scope_views(params.options@, opt_pairs(args@));
    }
    let impl_final = is_impl || scope_impl;

    let mut original = input;
    match renamed {
        Some(nt) => {
            original.set(name_pos, nt);
        },
        None => {},
    }
    proof {
        assert(views(original@) =~= renamed_views(s, p));
    }
    let elevated = make_public(original);
    proof {
        lemma_elevation_views(original@, elevated@);
    }
    let mut code = render(&elevated);
    proof {
        assert(code@ == original_text(s, p));
    }
    code.append("\n\n");
    code.append(sig.as_str());
    code.append(" {\n    #[cfg(test)]\n    return ");
    code.append(params.reference.as_str());
    code.append("(");
    code.append(args_str.as_str());
    code.append(");\n    #[cfg(not(test))]\n    return ");
    if impl_final {
        code.append("Self::");
    }
    code.append(orig_name.as_str());
    code.append("(");
    code.append(args_str.as_str());
    code.append(");\n}\n");
    proof {
        assert(code@ =~= mocked_code(s, args@, p));
    }
    Ok(Rewritten::Source(code))
}

/// The development-build marker. In a debug or test build the function's
/// tokens pass through, elevated to public visibility unless that is
/// suppressed; in a release build the function is compiled away entirely.
pub fn mock(input: Vec<Token>, mode: BuildMode, no_pub: bool) -> (r: Vec<Token>)
    ensures
        !is_dev(mode) ==> r@ == Seq::<Token>::empty(),
        is_dev(mode) && no_pub ==> r == input,
        is_dev(mode) && !no_pub ==> is_elevation_of(input@, r@),
{
    if mode.debug || mode.test {
        if no_pub {
            input
        } else {
            make_public(input)
        }
    } else {
        Vec::new()
    }
}

} // verus!
