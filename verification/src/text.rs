//! Character-sequence utilities: trimming, splitting, lower-casing and
//! comparison, each with a mathematical model over `Seq<char>`.

use vstd::prelude::*;
use vstd::string::StrSliceExecFns;
use vstd::string::StringExecFns;

verus! {

/// Whether a character counts as trimmable whitespace: the characters with
/// the Unicode White_Space property, the set std's `str::trim` removes.
pub open spec fn is_space(c: char) -> bool {
    c == ' ' || c == '\t' || c == '\n' || c == '\u{000B}' || c == '\u{000C}' || c == '\r' || c
        == '\u{0085}' || c == '\u{00A0}' || c == '\u{1680}' || ('\u{2000}' <= c && c
        <= '\u{200A}') || c == '\u{2028}' || c == '\u{2029}' || c == '\u{202F}' || c == '\u{205F}'
        || c == '\u{3000}'
}

/// The lower-case form of one character; only ASCII letters change.
pub open spec fn lower_char(c: char) -> char {
    if 'A' <= c && c <= 'Z' {
        ((c as u8) + 32) as char
    } else {
        c
    }
}

/// The lower-case form of a character sequence.
pub open spec fn lower_text(s: Seq<char>) -> Seq<char> {
    s.map_values(|c: char| lower_char(c))
}

/// The index of the first occurrence of `c` in `s`, or `s.len()` if there
/// is none.
pub open spec fn find_char(s: Seq<char>, c: char) -> int
    decreases s.len(),
{
    if s.len() == 0 {
        0
    } else if s[0] == c {
        0
    } else {
        1 + find_char(s.drop_first(), c)
    }
}

/// What `find_char` returns: the position of the first occurrence, or the
/// length when the character does not occur.
pub proof fn lemma_find_char(s: Seq<char>, c: char)
    ensures
        0 <= find_char(s, c) <= s.len(),
        find_char(s, c) < s.len() ==> s[find_char(s, c)] == c,
        forall|j: int| 0 <= j < find_char(s, c) ==> s[j] != c,
    decreases s.len(),
{
    if s.len() > 0 && s[0] != c {
        lemma_find_char(s.drop_first(), c);
        assert forall|j: int| 0 <= j < find_char(s, c) implies s[j] != c by {
            if j > 0 {
                assert(s.drop_first()[j - 1] != c);
            }
        }
    }
}

/// If `c` first occurs at `k`, then `find_char` returns `k`; if it does not
/// occur at all, `find_char` returns the length.
pub proof fn lemma_find_char_at(s: Seq<char>, c: char, k: int)
    requires
        0 <= k <= s.len(),
        forall|j: int| 0 <= j < k ==> s[j] != c,
        k < s.len() ==> s[k] == c,
    ensures
        find_char(s, c) == k,
    decreases s.len(),
{
    if s.len() > 0 && s[0] != c {
        assert(forall|j: int| 0 <= j < k - 1 ==> s.drop_first()[j] != c);
        lemma_find_char_at(s.drop_first(), c, k - 1);
    }
}

/// The pieces of `s` between occurrences of `c`, in order; one more piece
/// than there are occurrences, and a piece may be empty.
pub open spec fn split_on(s: Seq<char>, c: char) -> Seq<Seq<char>>
    decreases s.len(),
{
    let f = find_char(s, c);
    if 0 <= f < s.len() {
        seq![s.subrange(0, f)] + split_on(s.subrange(f + 1, s.len() as int), c)
    } else {
        seq![s]
    }
}

/// How many times `c` occurs in `s`.
pub open spec fn count_char(s: Seq<char>, c: char) -> int
    decreases s.len(),
{
    if s.len() == 0 {
        0
    } else {
        (if s[0] == c {
            1int
        } else {
            0int
        }) + count_char(s.drop_first(), c)
    }
}

/// A sequence without `c` has count zero.
pub proof fn lemma_count_zero(s: Seq<char>, c: char)
    requires
        forall|j: int| 0 <= j < s.len() ==> s[j] != c,
    ensures
        count_char(s, c) == 0,
    decreases s.len(),
{
    if s.len() > 0 {
        lemma_count_zero(s.drop_first(), c);
    }
}

/// Counting distributes over splitting a sequence at position `k`.
pub proof fn lemma_count_split_at(s: Seq<char>, c: char, k: int)
    requires
        0 <= k <= s.len(),
    ensures
        count_char(s, c) == count_char(s.subrange(0, k), c) + count_char(
            s.subrange(k, s.len() as int),
            c,
        ),
    decreases k,
{
    if k == 0 {
        lemma_count_zero(s.subrange(0, 0), c);
        assert(s.subrange(0, s.len() as int) =~= s);
    } else {
        lemma_count_split_at(s.drop_first(), c, k - 1);
        assert(s.subrange(0, k).drop_first() =~= s.drop_first().subrange(0, k - 1));
        assert(s.subrange(k, s.len() as int) =~= s.drop_first().subrange(
            k - 1,
            s.drop_first().len() as int,
        ));
        assert(s.subrange(0, k)[0] == s[0]);
    }
}

/// Splitting yields exactly one piece more than the separator's count.
pub proof fn lemma_split_count(s: Seq<char>, c: char)
    ensures
        split_on(s, c).len() == count_char(s, c) + 1,
    decreases s.len(),
{
    lemma_find_char(s, c);
    let f = find_char(s, c);
    if 0 <= f < s.len() {
        lemma_split_count(s.subrange(f + 1, s.len() as int), c);
        lemma_count_split_at(s, c, f);
        lemma_count_zero(s.subrange(0, f), c);
        assert(s.subrange(f, s.len() as int)[0] == c);
        assert(s.subrange(f, s.len() as int).drop_first() =~= s.subrange(f + 1, s.len() as int));
    } else {
        lemma_count_zero(s, c);
    }
}

/// When the first occurrence of `c` in `s` is at `k`, splitting takes the
/// prefix as the first piece and recurses past the separator.
pub proof fn lemma_split_step(s: Seq<char>, c: char, k: int)
    requires
        0 <= k < s.len(),
        s[k] == c,
        forall|j: int| 0 <= j < k ==> s[j] != c,
    ensures
        split_on(s, c) == seq![s.subrange(0, k)] + split_on(s.subrange(k + 1, s.len() as int), c),
{
    lemma_find_char_at(s, c, k);
}

/// A sequence without the separator splits into itself alone.
pub proof fn lemma_split_whole(s: Seq<char>, c: char)
    requires
        forall|j: int| 0 <= j < s.len() ==> s[j] != c,
    ensures
        split_on(s, c) == seq![s],
{
    lemma_find_char_at(s, c, s.len() as int);
}

/// `s` without its leading whitespace.
pub open spec fn trim_start(s: Seq<char>) -> Seq<char>
    decreases s.len(),
{
    if s.len() > 0 && is_space(s[0]) {
        trim_start(s.drop_first())
    } else {
        s
    }
}

/// `s` without its trailing whitespace.
pub open spec fn trim_end(s: Seq<char>) -> Seq<char>
    decreases s.len(),
{
    if s.len() > 0 && is_space(s.last()) {
        trim_end(s.drop_last())
    } else {
        s
    }
}

/// `s` without leading and trailing whitespace.
pub open spec fn trim_text(s: Seq<char>) -> Seq<char> {
    trim_end(trim_start(s))
}

/// `trim_start` keeps exactly the suffix from the first non-space onward.
pub proof fn lemma_trim_start_at(s: Seq<char>, k: int)
    requires
        0 <= k <= s.len(),
        forall|j: int| 0 <= j < k ==> is_space(s[j]),
        k < s.len() ==> !is_space(s[k]),
    ensures
        trim_start(s) == s.subrange(k, s.len() as int),
    decreases k,
{
    if k == 0 {
        assert(s.subrange(0, s.len() as int) =~= s);
    } else {
        lemma_trim_start_at(s.drop_first(), k - 1);
        assert(s.drop_first().subrange(k - 1, s.drop_first().len() as int) =~= s.subrange(
            k,
            s.len() as int,
        ));
    }
}

/// `trim_end` keeps exactly the prefix up to the last non-space.
pub proof fn lemma_trim_end_at(s: Seq<char>, k: int)
    requires
        0 <= k <= s.len(),
        forall|j: int| k <= j < s.len() ==> is_space(s[j]),
        k > 0 ==> !is_space(s[k - 1]),
    ensures
        trim_end(s) == s.subrange(0, k),
    decreases s.len(),
{
    if k == s.len() {
        assert(s.subrange(0, s.len() as int) =~= s);
    } else {
        lemma_trim_end_at(s.drop_last(), k);
        assert(s.drop_last().subrange(0, k) =~= s.subrange(0, k));
        assert(s.drop_last() =~= s.subrange(0, s.len() - 1));
    }
}

/// Whether two string slices hold the same characters.
pub fn str_eq(a: &str, b: &str) -> (r: bool)
    ensures
        r == (a@ == b@),
{
    let alen = a.unicode_len();
    let blen = b.unicode_len();
    if alen != blen {
        return false;
    }
    let mut i: usize = 0;
    while i < alen
        invariant
            0 <= i <= alen,
            alen == a@.len(),
            alen == b@.len(),
            forall|j: int| 0 <= j < i ==> a@[j] == b@[j],
        decreases alen - i,
    {
        if a.get_char(i) != b.get_char(i) {
            return false;
        }
        i = i + 1;
    }
    proof {
        assert(a@ =~= b@);
    }
    true
}

/// Whether a character counts as trimmable whitespace.
pub fn is_space_char(c: char) -> (r: bool)
    ensures
        r == is_space(c),
{
    c == ' ' || c == '\t' || c == '\n' || c == '\u{000B}' || c == '\u{000C}' || c == '\r' || c
        == '\u{0085}' || c == '\u{00A0}' || c == '\u{1680}' || ('\u{2000}' <= c && c <= '\u{200A}')
        || c == '\u{2028}' || c == '\u{2029}' || c == '\u{202F}' || c == '\u{205F}' || c
        == '\u{3000}'
}

/// `s` without leading and trailing whitespace, as a fresh string.
pub fn trim_str(s: &str) -> (r: String)
    ensures
        r@ == trim_text(s@),
{
    let n = s.unicode_len();
    let mut lo: usize = 0;
    while lo < n && is_space_char(s.get_char(lo))
        invariant
            0 <= lo <= n,
            n == s@.len(),
            forall|j: int| 0 <= j < lo ==> is_space(s@[j]),
        decreases n - lo,
    {
        lo = lo + 1;
    }
    proof {
        lemma_trim_start_at(s@, lo as int);
    }
    let mut hi: usize = n;
    while hi > lo && is_space_char(s.get_char(hi - 1))
        invariant
            lo <= hi <= n,
            n == s@.len(),
            forall|j: int| hi <= j < n ==> is_space(s@[j]),
        decreases hi,
    {
        hi = hi - 1;
    }
    proof {
        let t = s@.subrange(lo as int, n as int);
        assert(forall|j: int| hi - lo <= j < t.len() ==> is_space(t[j]));
        assert(hi > lo ==> !is_space(t[hi - lo - 1]));
        lemma_trim_end_at(t, hi - lo);
        assert(t.subrange(0, hi - lo) =~= s@.subrange(lo as int, hi as int));
    }
    s.substring_char(lo, hi).to_owned()
}

/// The views of a sequence of strings.
pub open spec fn str_views(q: Seq<String>) -> Seq<Seq<char>> {
    q.map_values(|x: String| x@)
}

/// The pieces of `s` between occurrences of `sep`, each as a fresh string.
pub fn split_str(s: &str, sep: char) -> (r: Vec<String>)
    ensures
        str_views(r@) == split_on(s@, sep),
{
    let n = s.unicode_len();
    let mut out: Vec<String> = Vec::new();
    let mut start: usize = 0;
    let mut i: usize = 0;
    proof {
        assert(s@.subrange(0, n as int) =~= s@);
        assert(str_views(out@) + split_on(s@, sep) =~= split_on(s@, sep));
    }
    while i < n
        invariant
            0 <= start <= i <= n,
            n == s@.len(),
            forall|j: int| start <= j < i ==> s@[j] != sep,
            split_on(s@, sep) == str_views(out@) + split_on(
                s@.subrange(start as int, n as int),
                sep,
            ),
        decreases n - i,
    {
        if s.get_char(i) == sep {
            let ghost old_out = out@;
            let piece = s.substring_char(start, i).to_owned();
            proof {
                let rem = s@.subrange(start as int, n as int);
                assert(rem[i - start] == sep);
                assert(forall|j: int| 0 <= j < i - start ==> rem[j] != sep);
                lemma_split_step(rem, sep, i - start);
                assert(rem.subrange(0, i - start) =~= s@.subrange(start as int, i as int));
                assert(rem.subrange(i - start + 1, rem.len() as int) =~= s@.subrange(
                    i + 1,
                    n as int,
                ));
            }
            out.push(piece);
            proof {
                assert(str_views(out@) =~= str_views(old_out).push(s@.subrange(
                    start as int,
                    i as int,
                )));
                assert(split_on(s@, sep) =~= str_views(out@) + split_on(
                    s@.subrange(i + 1, n as int),
                    sep,
                ));
            }
            start = i + 1;
        }
        i = i + 1;
    }
    let ghost old_out = out@;
    let last = s.substring_char(start, n).to_owned();
    out.push(last);
    proof {
        let rem = s@.subrange(start as int, n as int);
        lemma_split_whole(rem, sep);
        assert(str_views(out@) =~= str_views(old_out).push(rem));
        assert(str_views(out@) =~= split_on(s@, sep));
    }
    out
}

/// The lower-case form of one ASCII capital letter, as a string slice.
fn lower_letter(c: char) -> (r: &'static str)
    requires
        'A' <= c && c <= 'Z',
    ensures
        r@ =~= seq![lower_char(c)],
{
    proof {
        reveal_strlit("a");
        reveal_strlit("b");
        reveal_strlit("c");
        reveal_strlit("d");
        reveal_strlit("e");
        reveal_strlit("f");
        reveal_strlit("g");
        reveal_strlit("h");
        reveal_strlit("i");
        reveal_strlit("j");
        reveal_strlit("k");
        reveal_strlit("l");
        reveal_strlit("m");
        reveal_strlit("n");
        reveal_strlit("o");
        reveal_strlit("p");
        reveal_strlit("q");
        reveal_strlit("r");
        reveal_strlit("s");
        reveal_strlit("t");
        reveal_strlit("u");
        reveal_strlit("v");
        reveal_strlit("w");
        reveal_strlit("x");
        reveal_strlit("y");
        reveal_strlit("z");
    }
    match c {
        'A' => "a",
        'B' => "b",
        'C' => "c",
        'D' => "d",
        'E' => "e",
        'F' => "f",
        'G' => "g",
        'H' => "h",
        'I' => "i",
        'J' => "j",
        'K' => "k",
        'L' => "l",
        'M' => "m",
        'N' => "n",
        'O' => "o",
        'P' => "p",
        'Q' => "q",
        'R' => "r",
        'S' => "s",
        'T' => "t",
        'U' => "u",
        'V' => "v",
        'W' => "w",
        'X' => "x",
        'Y' => "y",
        _ => "z",
    }
}

/// The lower-case form of `s`, as a fresh string; only ASCII letters change.
pub fn lower_str(s: &str) -> (r: String)
    ensures
        r@ == lower_text(s@),
{
    let n = s.unicode_len();
    let mut out = String::new();
    let mut seg: usize = 0;
    let mut i: usize = 0;
    while i < n
        invariant
            0 <= seg <= i <= n,
            n == s@.len(),
            out@ == lower_text(s@.subrange(0, seg as int)),
            forall|j: int| seg <= j < i ==> lower_char(s@[j]) == s@[j],
        decreases n - i,
    {
        let c = s.get_char(i);
        if 'A' <= c && c <= 'Z' {
            out.append(s.substring_char(seg, i));
            out.append(lower_letter(c));
            proof {
                let pre = s@.subrange(0, seg as int);
                let mid = s@.subrange(seg as int, i as int);
                assert(lower_text(mid) =~= mid);
                assert(lower_text(s@.subrange(0, i + 1)) =~= lower_text(pre) + lower_text(mid)
                    + seq![lower_char(s@[i as int])]);
            }
            seg = i + 1;
        }
        i = i + 1;
    }
    out.append(s.substring_char(seg, n));
    proof {
        let pre = s@.subrange(0, seg as int);
        let mid = s@.subrange(seg as int, n as int);
        assert(lower_text(mid) =~= mid);
        assert(lower_text(s@) =~= lower_text(pre) + lower_text(mid));
        assert(s@.subrange(0, n as int) =~= s@);
    }
    out
}

} // verus!
