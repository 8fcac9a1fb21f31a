//! The Scala (`.scl`) tuning-file format. Lines starting with `!` are
//! comments and blank lines are skipped; of the remaining lines, the first is
//! a free-text description, the second starts with the pitch count `N`, and
//! each of the next `N` starts with one pitch: a cents value (a token with a
//! `.`), a ratio `a/b`, or a bare integer `a` meaning `a/1`. The last pitch is
//! the period. This module reads the file's structure and pitch tokens; the
//! tokens' numeric values are read by the caller.

use vstd::prelude::*;

verus! {

/// Unicode white space (the `White_Space` property), as Rust's `trim` and
/// `split_whitespace` use it.
pub open spec fn is_ws(c: char) -> bool {
    let u = c as u32;
    (9 <= u <= 13) || u == 32 || u == 0x85 || u == 0xA0 || u == 0x1680 || (0x2000 <= u <= 0x200A)
        || u == 0x2028 || u == 0x2029 || u == 0x202F || u == 0x205F || u == 0x3000
}

fn is_ws_exec(c: char) -> (r: bool)
    ensures
        r == is_ws(c),
{
    let u = c as u32;
    (9 <= u && u <= 13) || u == 32 || u == 0x85 || u == 0xA0 || u == 0x1680 || (0x2000 <= u && u
        <= 0x200A) || u == 0x2028 || u == 0x2029 || u == 0x202F || u == 0x205F || u == 0x3000
}

/// The text's pieces between `\n` characters (a `\r` before a `\n` is white
/// space, trimmed off below).
pub open spec fn split_lines(s: Seq<char>) -> Seq<Seq<char>>
    decreases s.len(),
{
    if s.len() == 0 {
        seq![Seq::empty()]
    } else {
        let init = split_lines(s.drop_last());
        if s.last() == '\n' {
            init.push(Seq::empty())
        } else {
            init.update(init.len() - 1, init.last().push(s.last()))
        }
    }
}

/// `s` without its leading white space.
pub open spec fn trim_start(s: Seq<char>) -> Seq<char>
    decreases s.len(),
{
    if s.len() > 0 && is_ws(s[0]) {
        trim_start(s.drop_first())
    } else {
        s
    }
}

/// `s` without its trailing white space.
pub open spec fn trim_end(s: Seq<char>) -> Seq<char>
    decreases s.len(),
{
    if s.len() > 0 && is_ws(s.last()) {
        trim_end(s.drop_last())
    } else {
        s
    }
}

/// `s` without leading or trailing white space.
pub open spec fn trim(s: Seq<char>) -> Seq<char> {
    trim_end(trim_start(s))
}

/// A trimmed line that carries content: not blank and not a `!` comment.
pub open spec fn is_content(t: Seq<char>) -> bool {
    t.len() > 0 && t[0] != '!'
}

/// The white space this parser trims and splits on is exactly what Rust's
/// `char::is_whitespace` accepts: tab, line feed, vertical tab, form feed,
/// carriage return and space, then next line, no-break space, the ogham
/// space mark, the en quad through the hair space, the line and paragraph
/// separators, the narrow no-break space, the medium mathematical space and
/// the ideographic space.
pub proof fn lemma_white_space_is_rusts(c: char)
    ensures
        is_ws(c) <==> (c == '\t' || c == '\n' || c == '\u{0B}' || c == '\u{0C}' || c == '\r'
            || c == ' ' || c == '\u{85}' || c == '\u{A0}' || c == '\u{1680}' || c == '\u{2000}'
            || c == '\u{2001}' || c == '\u{2002}' || c == '\u{2003}' || c == '\u{2004}' || c
            == '\u{2005}' || c == '\u{2006}' || c == '\u{2007}' || c == '\u{2008}' || c
            == '\u{2009}' || c == '\u{200A}' || c == '\u{2028}' || c == '\u{2029}' || c
            == '\u{202F}' || c == '\u{205F}' || c == '\u{3000}'),
{
}

proof fn lemma_trim_start_push(s: Seq<char>, c: char)
    requires
        is_ws(c),
    ensures
        trim_start(s.push(c)) == (if trim_start(s).len() == 0 {
            Seq::<char>::empty()
        } else {
            trim_start(s).push(c)
        }),
    decreases s.len(),
{
    if s.len() == 0 {
        assert(s.push(c)[0] == c);
        assert(s.push(c).drop_first() =~= Seq::<char>::empty());
        assert(trim_start(Seq::<char>::empty()) == Seq::<char>::empty());
    } else if is_ws(s[0]) {
        assert(s.push(c)[0] == s[0]);
        assert(s.push(c).drop_first() =~= s.drop_first().push(c));
        lemma_trim_start_push(s.drop_first(), c);
    } else {
        assert(s.push(c)[0] == s[0]);
    }
}

/// Padding a line with white space of any kind, at either end, does not
/// change what the parser reads from it: a tab-indented pitch line reads
/// like a space-indented one.
pub proof fn lemma_line_padding_ignored(s: Seq<char>, c: char)
    requires
        is_ws(c),
    ensures
        trim(seq![c] + s) == trim(s),
        trim(s.push(c)) == trim(s),
{
    assert((seq![c] + s).drop_first() =~= s);
    lemma_trim_start_push(s, c);
    if trim_start(s).len() != 0 {
        assert(trim_start(s).push(c).drop_last() =~= trim_start(s));
    }
}

/// The trimmed content lines among `pieces`, in order.
pub open spec fn content_lines(pieces: Seq<Seq<char>>) -> Seq<Seq<char>>
    decreases pieces.len(),
{
    if pieces.len() == 0 {
        Seq::empty()
    } else {
        content_lines(pieces.drop_last()) + if is_content(trim(pieces.last())) {
            seq![trim(pieces.last())]
        } else {
            Seq::empty()
        }
    }
}

/// The length of the leading run of non-white-space characters.
pub open spec fn word_len(t: Seq<char>) -> nat
    decreases t.len(),
{
    if t.len() > 0 && !is_ws(t[0]) {
        1 + word_len(t.drop_first())
    } else {
        0
    }
}

/// The first word of a trimmed line.
pub open spec fn first_word(t: Seq<char>) -> Seq<char> {
    t.take(word_len(t) as int)
}

pub open spec fn is_digit_char(c: char) -> bool {
    '0' <= c <= '9'
}

pub open spec fn all_digit_chars(s: Seq<char>) -> bool {
    forall|i: int| 0 <= i < s.len() ==> is_digit_char(#[trigger] s[i])
}

/// The decimal value of a run of digits.
pub open spec fn decimal_value(s: Seq<char>) -> int
    decreases s.len(),
{
    if s.len() == 0 {
        0
    } else {
        decimal_value(s.drop_last()) * 10 + (s.last() as int - 48)
    }
}

/// A `usize` as Rust's integer parser reads it: an optional `+`, then one or
/// more ASCII digits and nothing else, at most `usize::MAX`.
pub open spec fn parse_usize_spec(s: Seq<char>) -> Option<int> {
    let d = strip_plus(s);
    if d.len() == 0 || !all_digit_chars(d) {
        None
    } else if decimal_value(d) <= usize::MAX {
        Some(decimal_value(d))
    } else {
        None
    }
}

/// `s` without one leading `+`.
pub open spec fn strip_plus(s: Seq<char>) -> Seq<char> {
    if s.len() > 0 && s[0] == '+' {
        s.drop_first()
    } else {
        s
    }
}

/// The index of the first `c` in `s`, or `s.len()` when there is none.
pub open spec fn index_of(s: Seq<char>, c: char) -> nat
    decreases s.len(),
{
    if s.len() == 0 {
        0
    } else if s[0] == c {
        0
    } else {
        1 + index_of(s.drop_first(), c)
    }
}

/// One pitch token, by its form.
pub enum PitchToken {
    /// A cents value (the token holds a `.`).
    Cents(Seq<char>),
    /// A ratio `numerator/denominator`.
    Ratio(Seq<char>, Seq<char>),
    /// A bare integer, a ratio over one.
    Whole(Seq<char>),
}

/// The form of a pitch token.
pub open spec fn classify_pitch(tok: Seq<char>) -> PitchToken {
    if index_of(tok, '.') < tok.len() {
        PitchToken::Cents(tok)
    } else if index_of(tok, '/') < tok.len() {
        let p = index_of(tok, '/') as int;
        PitchToken::Ratio(tok.take(p), tok.skip(p + 1))
    } else {
        PitchToken::Whole(tok)
    }
}

/// A `.scl` text's description and pitch tokens, or `None` when it is
/// malformed: fewer than two content lines, a count that is not a `usize` or
/// is zero, or fewer pitch lines than the count.
pub open spec fn scl_spec(s: Seq<char>) -> Option<(Seq<char>, Seq<PitchToken>)> {
    let ls = content_lines(split_lines(s));
    if ls.len() < 2 {
        None
    } else {
        match parse_usize_spec(first_word(ls[1])) {
            None => None,
            Some(c) => if c == 0 || ls.len() < 2 + c {
                None
            } else {
                Some(
                    (
                        ls[0],
                        Seq::new(c as nat, |k: int| classify_pitch(first_word(ls[2 + k]))),
                    ),
                )
            },
        }
    }
}

/// One pitch token of a `.scl` file.
pub enum SclPitch {
    /// A cents value, such as `386.31`.
    Cents(Vec<char>),
    /// A ratio, such as `3/2`: numerator and denominator.
    Ratio(Vec<char>, Vec<char>),
    /// A bare integer, such as `2`, meaning `2/1`.
    Whole(Vec<char>),
}

impl SclPitch {
    pub open spec fn token(&self) -> PitchToken {
        match self {
            SclPitch::Cents(t) => PitchToken::Cents(t@),
            SclPitch::Ratio(n, d) => PitchToken::Ratio(n@, d@),
            SclPitch::Whole(t) => PitchToken::Whole(t@),
        }
    }
}

/// The structure of a `.scl` file: its description and its pitch tokens
/// (the last one is the period).
pub struct SclText {
    pub description: Vec<char>,
    pub pitches: Vec<SclPitch>,
}

/// The characters of `text`, in order.
fn chars_of(text: &str) -> (v: Vec<char>)
    ensures
        v@ == text@,
{
    broadcast use vstd::string::group_string_axioms;

    let mut v: Vec<char> = Vec::new();
    for c in it: text.chars()
        invariant
            v@ == it.seq().take(it.index() as int),
    {
        v.push(c);
    }
    assert(v@ =~= text@);
    v
}

proof fn lemma_split_nonempty(s: Seq<char>)
    ensures
        split_lines(s).len() >= 1,
    decreases s.len(),
{
    if s.len() > 0 {
        lemma_split_nonempty(s.drop_last());
    }
}

/// The trimmed range of `cs[a..b]`.
fn trim_range(cs: &Vec<char>, a: usize, b: usize) -> (r: (usize, usize))
    requires
        a <= b <= cs@.len(),
    ensures
        a <= r.0 <= r.1 <= b,
        cs@.subrange(r.0 as int, r.1 as int) == trim(cs@.subrange(a as int, b as int)),
{
    let mut x = a;
    while x < b && is_ws_exec(cs[x])
        invariant
            a <= x <= b <= cs@.len(),
            trim_start(cs@.subrange(a as int, b as int)) == trim_start(
                cs@.subrange(x as int, b as int),
            ),
        decreases b - x,
    {
        assert(cs@.subrange(x as int, b as int).drop_first() =~= cs@.subrange(x + 1, b as int));
        x = x + 1;
    }
    assert(trim_start(cs@.subrange(x as int, b as int)) == cs@.subrange(x as int, b as int));
    let mut y = b;
    while y > x && is_ws_exec(cs[y - 1])
        invariant
            a <= x <= y <= b <= cs@.len(),
            trim_end(cs@.subrange(x as int, b as int)) == trim_end(
                cs@.subrange(x as int, y as int),
            ),
        decreases y - x,
    {
        assert(cs@.subrange(x as int, y as int).drop_last() =~= cs@.subrange(x as int, y - 1));
        y = y - 1;
    }
    assert(trim_end(cs@.subrange(x as int, y as int)) == cs@.subrange(x as int, y as int));
    (x, y)
}

/// The trimmed content lines of `cs`, as ranges.
fn content_ranges(cs: &Vec<char>) -> (r: Vec<(usize, usize)>)
    ensures
        r@.len() == content_lines(split_lines(cs@)).len(),
        forall|k: int|
            0 <= k < r@.len() ==> (#[trigger] r@[k]).0 <= r@[k].1 <= cs@.len() && cs@.subrange(
                r@[k].0 as int,
                r@[k].1 as int,
            ) == content_lines(split_lines(cs@))[k],
{
    let n = cs.len();
    let mut out: Vec<(usize, usize)> = Vec::new();
    let mut st: usize = 0;
    let mut i: usize = 0;
    while i < n
        invariant
            n == cs@.len(),
            st <= i <= n,
            split_lines(cs@.take(i as int)).len() >= 1,
            split_lines(cs@.take(i as int)).last() == cs@.subrange(st as int, i as int),
            out@.len() == content_lines(split_lines(cs@.take(i as int)).drop_last()).len(),
            forall|k: int|
                0 <= k < out@.len() ==> (#[trigger] out@[k]).0 <= out@[k].1 <= cs@.len()
                    && cs@.subrange(out@[k].0 as int, out@[k].1 as int) == content_lines(
                    split_lines(cs@.take(i as int)).drop_last(),
                )[k],
        decreases n - i,
    {
        let ghost pre = split_lines(cs@.take(i as int));
        let ghost done = content_lines(pre.drop_last());
        let ghost old_out = out@;
        assert(cs@.take(i + 1).drop_last() =~= cs@.take(i as int));
        assert(cs@.take(i + 1).last() == cs@[i as int]);
        if cs[i] == '\n' {
            let (x, y) = trim_range(cs, st, i);
            let ghost t = cs@.subrange(x as int, y as int);
            assert(split_lines(cs@.take(i + 1)) == pre.push(Seq::empty()));
            assert(pre.push(Seq::<char>::empty()).drop_last() =~= pre);
            assert(pre =~= pre.drop_last().push(pre.last()));
            assert(pre.drop_last().push(pre.last()).drop_last() =~= pre.drop_last());
            assert(content_lines(pre) == done + if is_content(t) {
                seq![t]
            } else {
                Seq::empty()
            });
            if y > x && cs[x] != '!' {
                assert(t[0] == cs@[x as int]);
                assert(is_content(t));
                out.push((x, y));
                assert(content_lines(pre) == done.push(t));
                assert forall|k: int| 0 <= k < out@.len() implies (#[trigger] out@[k]).0 <= out@[k].1 <= cs@.len()
                    && cs@.subrange(out@[k].0 as int, out@[k].1 as int) == content_lines(pre)[k] by {
                    if k < done.len() {
                        assert(content_lines(pre)[k] == done[k]);
                    }
                }
            } else {
                assert(!is_content(t)) by {
                    if y > x {
                        assert(t[0] == cs@[x as int]);
                    }
                }
                assert(content_lines(pre) =~= done);
            }
            st = i + 1;
            assert(split_lines(cs@.take(i + 1)).last() =~= cs@.subrange(st as int, i + 1));
            assert(split_lines(cs@.take(i + 1)).drop_last() == pre);
            assert(out@.len() == content_lines(pre).len());
        } else {
            assert(split_lines(cs@.take(i + 1)) == pre.update(
                pre.len() - 1,
                pre.last().push(cs@[i as int]),
            ));
            assert(split_lines(cs@.take(i + 1)).drop_last() =~= pre.drop_last());
            assert(split_lines(cs@.take(i + 1)).last() =~= cs@.subrange(st as int, i + 1));
        }
        assert(out@.len() == content_lines(split_lines(cs@.take(i + 1)).drop_last()).len());
        assert forall|k: int| 0 <= k < out@.len() implies (#[trigger] out@[k]).0 <= out@[k].1 <= cs@.len()
            && cs@.subrange(out@[k].0 as int, out@[k].1 as int)
            == content_lines(split_lines(cs@.take(i + 1)).drop_last())[k] by {
            if k < done.len() {
                assert(out@[k] == old_out[k]);
            }
        }
        i = i + 1;
    }
    assert(cs@.take(n as int) =~= cs@);
    let ghost pre = split_lines(cs@);
    let ghost done = content_lines(pre.drop_last());
    let (x, y) = trim_range(cs, st, n);
    let ghost t = cs@.subrange(x as int, y as int);
    assert(pre =~= pre.drop_last().push(pre.last()));
    assert(content_lines(pre) == done + if is_content(t) {
        seq![t]
    } else {
        Seq::empty()
    });
    if y > x && cs[x] != '!' {
        assert(t[0] == cs@[x as int]);
        out.push((x, y));
        assert(content_lines(pre) == done.push(t));
        assert forall|k: int| 0 <= k < out@.len() implies (#[trigger] out@[k]).0 <= out@[k].1 <= cs@.len()
            && cs@.subrange(out@[k].0 as int, out@[k].1 as int) == content_lines(pre)[k] by {
            if k < done.len() {
                assert(content_lines(pre)[k] == done[k]);
            }
        }
    } else {
        assert(!is_content(t)) by {
            if y > x {
                assert(t[0] == cs@[x as int]);
            }
        }
        assert(content_lines(pre) =~= done);
    }
    out
}

/// The end of the first word of `cs[a..b]`.
fn word_end(cs: &Vec<char>, a: usize, b: usize) -> (e: usize)
    requires
        a <= b <= cs@.len(),
    ensures
        a <= e <= b,
        e - a == word_len(cs@.subrange(a as int, b as int)),
{
    let mut j = a;
    while j < b && !is_ws_exec(cs[j])
        invariant
            a <= j <= b <= cs@.len(),
            word_len(cs@.subrange(a as int, b as int)) == (j - a) + word_len(
                cs@.subrange(j as int, b as int),
            ),
        decreases b - j,
    {
        assert(cs@.subrange(j as int, b as int).drop_first() =~= cs@.subrange(j + 1, b as int));
        j = j + 1;
    }
    j
}

const USIZE_CAP: u128 = 0x2_0000_0000_0000_0000;

/// Parse `cs[a..b]` as a `usize` (see [`parse_usize_spec`]).
fn parse_usize_range(cs: &Vec<char>, a: usize, b: usize) -> (r: Option<usize>)
    requires
        a <= b <= cs@.len(),
    ensures
        match r {
            Some(v) => parse_usize_spec(cs@.subrange(a as int, b as int)) == Some(v as int),
            None => parse_usize_spec(cs@.subrange(a as int, b as int)) is None,
        },
{
    let ghost s = cs@.subrange(a as int, b as int);
    assert(a < b ==> s[0] == cs@[a as int]);
    let start = if a < b && cs[a] == '+' {
        a + 1
    } else {
        a
    };
    assert(start > a ==> s.drop_first() =~= cs@.subrange(start as int, b as int));
    assert(start == a ==> s =~= cs@.subrange(start as int, b as int));
    if start >= b {
        return None;
    }
    let mut acc: u128 = 0;
    let mut i = start;
    while i < b
        invariant
            start <= i <= b <= cs@.len(),
            strip_plus(cs@.subrange(a as int, b as int)) == cs@.subrange(start as int, b as int),
            all_digit_chars(cs@.subrange(start as int, i as int)),
            acc as int == (if decimal_value(cs@.subrange(start as int, i as int)) < USIZE_CAP {
                decimal_value(cs@.subrange(start as int, i as int))
            } else {
                USIZE_CAP as int
            }),
        decreases b - i,
    {
        let c = cs[i];
        let ghost pre = cs@.subrange(start as int, i as int);
        let ghost next = cs@.subrange(start as int, i + 1);
        assert(next.drop_last() =~= pre);
        if !('0' <= c && c <= '9') {
            assert(!is_digit_char(cs@.subrange(start as int, b as int)[i - start]));
            return None;
        }
        proof {
            lemma_decimal_nonneg(pre);
        }
        let d = (c as u32 - 48) as u128;
        let v = acc * 10 + d;
        acc = if v < USIZE_CAP {
            v
        } else {
            USIZE_CAP
        };
        assert(all_digit_chars(next)) by {
            assert forall|k: int| 0 <= k < next.len() implies is_digit_char(#[trigger] next[k]) by {
                if k < pre.len() {
                    assert(next[k] == pre[k]);
                }
            }
        }
        i = i + 1;
    }
    assert(cs@.subrange(start as int, i as int) =~= cs@.subrange(start as int, b as int));
    assert(usize::MAX < USIZE_CAP);
    if acc <= usize::MAX as u128 {
        Some(acc as usize)
    } else {
        None
    }
}

proof fn lemma_decimal_nonneg(s: Seq<char>)
    requires
        all_digit_chars(s),
    ensures
        decimal_value(s) >= 0,
    decreases s.len(),
{
    if s.len() > 0 {
        assert(all_digit_chars(s.drop_last())) by {
            assert forall|k: int| 0 <= k < s.drop_last().len() implies is_digit_char(
                #[trigger] s.drop_last()[k],
            ) by {
                assert(s.drop_last()[k] == s[k]);
            }
        }
        lemma_decimal_nonneg(s.drop_last());
        assert(is_digit_char(s[s.len() - 1]));
    }
}

/// The index of the first `c` in `cs[a..b]`, or `b - a` when there is none.
fn index_in(cs: &Vec<char>, a: usize, b: usize, c: char) -> (r: usize)
    requires
        a <= b <= cs@.len(),
    ensures
        r == index_of(cs@.subrange(a as int, b as int), c),
        r <= b - a,
{
    let mut j = a;
    while j < b && cs[j] != c
        invariant
            a <= j <= b <= cs@.len(),
            index_of(cs@.subrange(a as int, b as int), c) == (j - a) + index_of(
                cs@.subrange(j as int, b as int),
                c,
            ),
        decreases b - j,
    {
        assert(cs@.subrange(j as int, b as int).drop_first() =~= cs@.subrange(j + 1, b as int));
        j = j + 1;
    }
    j - a
}

/// A copy of `cs[a..b]`.
fn copy_range(cs: &Vec<char>, a: usize, b: usize) -> (v: Vec<char>)
    requires
        a <= b <= cs@.len(),
    ensures
        v@ == cs@.subrange(a as int, b as int),
{
    let mut v: Vec<char> = Vec::new();
    let mut j = a;
    while j < b
        invariant
            a <= j <= b <= cs@.len(),
            v@ == cs@.subrange(a as int, j as int),
        decreases b - j,
    {
        v.push(cs[j]);
        j = j + 1;
    }
    v
}

/// The pitch token of `cs[a..b]`, by its form.
fn classify_range(cs: &Vec<char>, a: usize, b: usize) -> (p: SclPitch)
    requires
        a <= b <= cs@.len(),
    ensures
        p.token() == classify_pitch(cs@.subrange(a as int, b as int)),
{
    let ghost tok = cs@.subrange(a as int, b as int);
    let dot = index_in(cs, a, b, '.');
    if dot < b - a {
        return SclPitch::Cents(copy_range(cs, a, b));
    }
    let slash = index_in(cs, a, b, '/');
    if slash < b - a {
        let num = copy_range(cs, a, a + slash);
        let den = copy_range(cs, a + slash + 1, b);
        assert(num@ =~= tok.take(slash as int));
        assert(den@ =~= tok.skip(slash + 1));
        SclPitch::Ratio(num, den)
    } else {
        SclPitch::Whole(copy_range(cs, a, b))
    }
}

/// Read the structure of a Scala `.scl` text: its description and its pitch
/// tokens (see [`scl_spec`]). `None` when the text is malformed.
pub fn parse_scl_text(text: &str) -> (r: Option<SclText>)
    ensures
        match r {
            None => scl_spec(text@) is None,
            Some(t) => scl_spec(text@) matches Some((d, ps)) && t.description@ == d
                && t.pitches@.len() == ps.len() && forall|k: int|
                0 <= k < ps.len() ==> (#[trigger] t.pitches@[k]).token() == ps[k],
        },
{
    let cs = chars_of(text);
    let lines = content_ranges(&cs);
    let ghost ls = content_lines(split_lines(cs@));
    assert(forall|j: int|
        0 <= j < lines@.len() ==> (#[trigger] lines@[j]).0 <= lines@[j].1 <= cs@.len()
            && cs@.subrange(lines@[j].0 as int, lines@[j].1 as int) == ls[j]);
    if lines.len() < 2 {
        return None;
    }
    let (a1, b1) = lines[1];
    let e1 = word_end(&cs, a1, b1);
    assert(cs@.subrange(a1 as int, e1 as int) =~= first_word(ls[1]));
    let count = match parse_usize_range(&cs, a1, e1) {
        None => {
            return None;
        },
        Some(c) => c,
    };
    if count == 0 || lines.len() - 2 < count {
        return None;
    }
    let (a0, b0) = lines[0];
    let description = copy_range(&cs, a0, b0);
    let mut pitches: Vec<SclPitch> = Vec::new();
    let nl = lines.len();
    let mut k: usize = 0;
    while k < count
        invariant
            nl == lines@.len(),
            k <= count,
            2 + count <= lines@.len(),
            lines@.len() == ls.len(),
            forall|j: int|
                0 <= j < lines@.len() ==> (#[trigger] lines@[j]).0 <= lines@[j].1 <= cs@.len()
                    && cs@.subrange(lines@[j].0 as int, lines@[j].1 as int) == ls[j],
            pitches@.len() == k,
            forall|j: int|
                0 <= j < k ==> (#[trigger] pitches@[j]).token() == classify_pitch(
                    first_word(ls[2 + j]),
                ),
        decreases count - k,
    {
        let (a, b) = lines[2 + k];
        let e = word_end(&cs, a, b);
        assert(cs@.subrange(a as int, e as int) =~= first_word(ls[2 + k]));
        let p = classify_range(&cs, a, e);
        pitches.push(p);
        k = k + 1;
    }
    Some(SclText { description, pitches })
}

} // verus!
