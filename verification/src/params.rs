//! Parsing of the rewriter's own invocation arguments: a comma-separated
//! list whose first element is the fully-qualified reference to the mock
//! function, followed by `key = value` options.

use vstd::prelude::*;
use crate::text::{
    count_char, lemma_split_count, lower_str, lower_text, split_on, split_str, str_eq, str_views,
    trim_str, trim_text,
};

verus! {

/// Why a rewrite cannot proceed.
#[derive(Clone, Copy, PartialEq, Eq, Structural, Debug)]
pub enum RewriteError {
    /// More than one renamed-original prefix is selected at once.
    PrefixConflict,
    /// The invocation arguments hold no mock reference.
    MissingReference,
    /// An option element is not a single `key = value` pair.
    BadOption,
}

impl RewriteError {
    /// A short description of the error, fixed per variant.
    pub fn message(&self) -> (r: &'static str)
        ensures
            r@.len() > 0,
            self is PrefixConflict ==> r@ == "only a single prefix may be selected"@,
            self is MissingReference ==> r@
                == "at least a fully-qualified reference to the mock has to be provided"@,
            self is BadOption ==> r@ == "extra parameters should be provided in `key = value` format"@,
    {
        proof {
            reveal_strlit("only a single prefix may be selected");
            reveal_strlit("at least a fully-qualified reference to the mock has to be provided");
            reveal_strlit("extra parameters should be provided in `key = value` format");
        }
        match self {
            RewriteError::PrefixConflict => "only a single prefix may be selected",
            RewriteError::MissingReference => "at least a fully-qualified reference to the mock has to be provided",
            RewriteError::BadOption => "extra parameters should be provided in `key = value` format",
        }
    }
}

/// The parsed invocation arguments: the mock reference and the option
/// pairs in the order given, keys and values trimmed and lower-cased. A
/// later pair with the same key overrides an earlier one.
pub struct Params {
    pub reference: String,
    pub options: Vec<(String, String)>,
}

/// The comma-separated elements of the invocation argument text.
pub open spec fn pieces(s: Seq<char>) -> Seq<Seq<char>> {
    split_on(s, ',')
}

/// The mock reference: the first element, trimmed.
pub open spec fn ref_text(s: Seq<char>) -> Seq<char> {
    trim_text(pieces(s)[0])
}

/// Whether an option element is a single `key = value` pair.
pub open spec fn good_option(part: Seq<char>) -> bool {
    split_on(part, '=').len() == 2
}

/// The key of an option element, trimmed and lower-cased.
pub open spec fn opt_key(part: Seq<char>) -> Seq<char> {
    lower_text(trim_text(split_on(part, '=')[0]))
}

/// The value of an option element, trimmed and lower-cased.
pub open spec fn opt_val(part: Seq<char>) -> Seq<char> {
    lower_text(trim_text(split_on(part, '=')[1]))
}

/// The error the invocation argument text provokes, if any: a missing
/// reference outranks a malformed option.
pub open spec fn params_error(s: Seq<char>) -> Option<RewriteError> {
    if ref_text(s).len() == 0 {
        Some(RewriteError::MissingReference)
    } else if exists|i: int| 1 <= i < pieces(s).len() && !good_option(pieces(s)[i]) {
        Some(RewriteError::BadOption)
    } else {
        None
    }
}

/// An option element is well-formed exactly when it holds exactly one `=`
/// separator.
pub proof fn lemma_option_format(part: Seq<char>)
    ensures
        good_option(part) <==> count_char(part, '=') == 1,
{
    lemma_split_count(part, '=');
}

/// Whether the options select the implementation scope: the last pair with
/// key `scope` exists and carries the value `impl`.
pub open spec fn scope_is_impl(opts: Seq<(String, String)>) -> bool
    decreases opts.len(),
{
    if opts.len() == 0 {
        false
    } else if opts.last().0@ == "scope"@ {
        opts.last().1@ == "impl"@
    } else {
        scope_is_impl(opts.drop_last())
    }
}

/// The option pairs of the invocation argument text, as character
/// sequences: one pair per element after the reference.
pub open spec fn opt_pairs(s: Seq<char>) -> Seq<(Seq<char>, Seq<char>)> {
    Seq::new((pieces(s).len() - 1) as nat, |i: int| (opt_key(pieces(s)[i + 1]), opt_val(pieces(s)[i + 1])))
}

/// Whether such option pairs select the implementation scope: the last
/// pair with key `scope` exists and carries the value `impl`.
pub open spec fn last_scope_impl(q: Seq<(Seq<char>, Seq<char>)>) -> bool
    decreases q.len(),
{
    if q.len() == 0 {
        false
    } else if q.last().0 == "scope"@ {
        q.last().1 == "impl"@
    } else {
        last_scope_impl(q.drop_last())
    }
}

/// The scope choice read off parsed option pairs agrees with the one read
/// off their character sequences.
pub proof fn lemma_scope_views(opts: Seq<(String, String)>, q: Seq<(Seq<char>, Seq<char>)>)
    requires
        opts.len() == q.len(),
        forall|i: int| 0 <= i < q.len() ==> opts[i].0@ == q[i].0 && opts[i].1@ == q[i].1,
    ensures
        scope_is_impl(opts) == last_scope_impl(q),
    decreases opts.len(),
{
    if opts.len() > 0 {
        assert(opts.last().0@ == q.last().0 && opts.last().1@ == q.last().1);
        assert(forall|i: int|
            0 <= i < q.drop_last().len() ==> opts.drop_last()[i].0@ == q.drop_last()[i].0
                && opts.drop_last()[i].1@ == q.drop_last()[i].1);
        lemma_scope_views(opts.drop_last(), q.drop_last());
    }
}

/// Whether the parsed options select the implementation scope.
pub fn has_scope_impl(params: &Params) -> (r: bool)
    ensures
        r == scope_is_impl(params.options@),
{
    let mut i: usize = params.options.len();
    proof {
        assert(params.options@.subrange(0, params.options@.len() as int) =~= params.options@);
    }
    while i > 0
        invariant
            0 <= i <= params.options@.len(),
            scope_is_impl(params.options@) == scope_is_impl(params.options@.subrange(0, i as int)),
        decreases i,
    {
        proof {
            assert(params.options@.subrange(0, i as int).drop_last() =~= params.options@.subrange(0, i - 1));
            assert(params.options@.subrange(0, i as int).last() == params.options@[i - 1]);
        }
        if str_eq(params.options[i - 1].0.as_str(), "scope") {
            let r = str_eq(params.options[i - 1].1.as_str(), "impl");
            proof {
                assert(params.options@[i - 1].0@ == "scope"@);
                assert(scope_is_impl(params.options@.subrange(0, i as int)) == (params.options@[i - 1].1@
                    == "impl"@));
                assert(r == (params.options@[i - 1].1@ == "impl"@));
                assert(r == scope_is_impl(params.options@));
            }
            return r;
        }
        i = i - 1;
    }
    proof {
        assert(params.options@.subrange(0, 0) =~= Seq::<(String, String)>::empty());
    }
    false
}

/// Parses the invocation argument text. The first comma-separated element,
/// trimmed, is the mock reference and must be non-empty; every further
/// element must split on `=` into exactly two parts, which are trimmed,
/// lower-cased and kept in order as option pairs.
pub fn parse_params(args: &str) -> (r: Result<Params, RewriteError>)
    ensures
        r is Err <==> params_error(args@) is Some,
        r matches Err(e) ==> params_error(args@) == Some(e),
        r matches Ok(p) ==> {
            &&& p.reference@ == ref_text(args@)
            &&& p.options@.len() == pieces(args@).len() - 1
            &&& forall|i: int|
                0 <= i < p.options@.len() ==> p.options@[i].0@ == opt_key(pieces(args@)[i + 1])
                    && p.options@[i].1@ == opt_val(pieces(args@)[i + 1])
        },
{
    let parts = split_str(args, ',');
    proof {
        assert(str_views(parts@).len() >= 1);
        assert(parts@[0]@ == pieces(args@)[0]);
    }
    let reference = trim_str(parts[0].as_str());
    if reference.as_str().is_empty() {
        return Err(RewriteError::MissingReference);
    }
    let mut options: Vec<(String, String)> = Vec::new();
    let mut i: usize = 1;
    while i < parts.len()
        invariant
            1 <= i <= parts@.len(),
            str_views(parts@) == pieces(args@),
            ref_text(args@).len() > 0,
            options@.len() == i - 1,
            forall|j: int| 1 <= j < i ==> good_option(pieces(args@)[j]),
            forall|j: int|
                0 <= j < options@.len() ==> options@[j].0@ == opt_key(pieces(args@)[j + 1])
                    && options@[j].1@ == opt_val(pieces(args@)[j + 1]),
        decreases parts@.len() - i,
    {
        proof {
            assert(parts@[i as int]@ == pieces(args@)[i as int]);
        }
        let kv = split_str(parts[i].as_str(), '=');
        if kv.len() != 2 {
            proof {
                assert(str_views(kv@).len() == kv@.len());
                assert(!good_option(pieces(args@)[i as int]));
                assert(params_error(args@) == Some(RewriteError::BadOption));
            }
            return Err(RewriteError::BadOption);
        }
        proof {
            assert(kv@[0]@ == split_on(pieces(args@)[i as int], '=')[0]);
            assert(kv@[1]@ == split_on(pieces(args@)[i as int], '=')[1]);
        }
        let key = lower_str(trim_str(kv[0].as_str()).as_str());
        let val = lower_str(trim_str(kv[1].as_str()).as_str());
        options.push((key, val));
        i = i + 1;
    }
    proof {
        assert(forall|j: int| 1 <= j < pieces(args@).len() ==> good_option(pieces(args@)[j]));
        assert(params_error(args@) is None);
    }
    Ok(Params { reference, options })
}

} // verus!
