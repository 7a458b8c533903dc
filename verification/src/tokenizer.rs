//! The line tokenizer: splits a BMS text into lines and reads each as a
//! channel message or a header.

use vstd::prelude::*;

use crate::error::{BmsTokenizeError, BmsTryFromError};
use crate::header::{header_from_chars, header_line_of, BmsHeader};
use crate::message::{message_from_chars, message_line_of, BmsMessage};
use crate::text::{first_index, split_on, trim};

verus! {

/// One token of a BMS file.
#[derive(Debug, Clone, PartialEq)]
pub enum BmsToken<C = String> {
    /// A header command.
    Header(BmsHeader<C>),
    /// A channel data line (`#xxxYY:values`).
    Message(BmsMessage<C>),
}

impl View for BmsToken<String> {
    type V = BmsToken<Seq<char>>;

    open spec fn view(&self) -> BmsToken<Seq<char>> {
        match self {
            BmsToken::Header(h) => BmsToken::Header(h@),
            BmsToken::Message(m) => BmsToken::Message(m@),
        }
    }
}

impl BmsHeader<String> {
    /// The header of a header token.
    pub fn try_from(token: BmsToken<String>) -> (r: Result<Self, BmsTryFromError<String>>)
        ensures
            match token {
                BmsToken::Header(h) => r == Ok::<Self, BmsTryFromError<String>>(h),
                BmsToken::Message(_) => r == Err::<Self, BmsTryFromError<String>>(
                    BmsTryFromError::NotAHeader,
                ),
            },
    {
        match token {
            BmsToken::Header(h) => Ok(h),
            BmsToken::Message(_) => Err(BmsTryFromError::NotAHeader),
        }
    }
}

impl BmsMessage<String> {
    /// The message of a message token.
    pub fn try_from(token: BmsToken<String>) -> (r: Result<Self, BmsTryFromError<String>>)
        ensures
            match token {
                BmsToken::Message(m) => r == Ok::<Self, BmsTryFromError<String>>(m),
                BmsToken::Header(_) => r == Err::<Self, BmsTryFromError<String>>(
                    BmsTryFromError::NotAMessage,
                ),
            },
    {
        match token {
            BmsToken::Message(m) => Ok(m),
            BmsToken::Header(_) => Err(BmsTryFromError::NotAMessage),
        }
    }
}

impl BmsToken<String> {
    /// The token of a tokenizer result, or the line's error.
    pub fn try_from(pair: (usize, Result<BmsToken<String>, BmsTokenizeError<String>>)) -> (r: Result<
        Self,
        BmsTryFromError<String>,
    >)
        ensures
            match pair.1 {
                Ok(t) => r == Ok::<Self, BmsTryFromError<String>>(t),
                Err(e) => r == Err::<Self, BmsTryFromError<String>>(
                    BmsTryFromError::TokenizationError { line: pair.0, error: e },
                ),
            },
    {
        let (line, result) = pair;
        match result {
            Ok(t) => Ok(t),
            Err(error) => Err(BmsTryFromError::TokenizationError { line, error }),
        }
    }
}

/// How the tokenizer treats lines that fail to parse.
#[derive(Debug, Clone, Copy, PartialEq, Eq, Structural)]
pub enum ErrorStrategy {
    /// Read every line; each line's result is kept, errors included.
    CollectAll,
    /// Stop at the first error, keeping the results up to and including
    /// that line.
    FailFast,
}

impl Default for ErrorStrategy {
    fn default() -> (r: Self)
        ensures
            r == ErrorStrategy::CollectAll,
    {
        ErrorStrategy::CollectAll
    }
}

// ---------------------------------------------------------------------------
// Lines
// ---------------------------------------------------------------------------

/// A line without the `\r` of a `\r\n` ending.
pub open spec fn strip_cr(line: Seq<char>) -> Seq<char> {
    if line.len() > 0 && line.last() == '\r' {
        line.drop_last()
    } else {
        line
    }
}

/// The segments that the tokenizer numbers: the text is cut into lines at
/// `\n` (a `\r` before the `\n` dropped, no empty line after a final `\n`),
/// and each line is cut again at every lone `\r`.
pub open spec fn segments_of(s: Seq<char>) -> Seq<Seq<char>>
    decreases s.len(),
{
    let k = first_index(s, '\n');
    if s.len() == 0 {
        Seq::empty()
    } else if 0 <= k < s.len() {
        split_on(strip_cr(s.take(k)), '\r') + segments_of(s.skip(k + 1))
    } else {
        split_on(s, '\r')
    }
}

/// What one trimmed segment reads as: nothing for an empty segment, a
/// `//` or `;` comment, or a line that is neither a message nor a header;
/// else the message, the header, or the error.
#[verifier::opaque]
pub open spec fn line_token(t: Seq<char>, prefixes: Seq<char>) -> Option<
    Result<BmsToken<Seq<char>>, BmsTokenizeError<Seq<char>>>,
> {
    if t.len() == 0 || (t.len() >= 2 && t[0] == '/' && t[1] == '/') || t[0] == ';' {
        None
    } else {
        match message_line_of(t) {
            Ok(Some(m)) => Some(Ok(BmsToken::Message(m))),
            Err(e) => Some(Err(e)),
            Ok(None) => match header_line_of(t, prefixes) {
                Ok(Some(h)) => Some(Ok(BmsToken::Header(h))),
                Ok(None) => None,
                Err(e) => Some(Err(e)),
            },
        }
    }
}

/// The numbered results for the segments from `i` on; a segment's number is
/// its position counted from 1.  With `fail_fast` the results end at the
/// first error.
pub open spec fn tokens_of(segs: Seq<Seq<char>>, i: int, prefixes: Seq<char>, fail_fast: bool) -> Seq<
    (int, Result<BmsToken<Seq<char>>, BmsTokenizeError<Seq<char>>>),
>
    decreases segs.len() - i,
{
    if i < 0 || i >= segs.len() {
        Seq::empty()
    } else {
        match line_token(trim(segs[i]), prefixes) {
            None => tokens_of(segs, i + 1, prefixes, fail_fast),
            Some(r) => if fail_fast && r is Err {
                seq![(i + 1, r)]
            } else {
                seq![(i + 1, r)] + tokens_of(segs, i + 1, prefixes, fail_fast)
            },
        }
    }
}

/// The view of a tokenizer result.
pub open spec fn result_view(r: Result<BmsToken<String>, BmsTokenizeError<String>>) -> Result<
    BmsToken<Seq<char>>,
    BmsTokenizeError<Seq<char>>,
> {
    match r {
        Ok(t) => Ok(t@),
        Err(e) => Err(e@),
    }
}

/// The view of a tokenizer's output.
pub open spec fn results_view(
    v: Seq<(usize, Result<BmsToken<String>, BmsTokenizeError<String>>)>,
) -> Seq<(int, Result<BmsToken<Seq<char>>, BmsTokenizeError<Seq<char>>>)> {
    v.map_values(
        |x: (usize, Result<BmsToken<String>, BmsTokenizeError<String>>)|
            (x.0 as int, result_view(x.1)),
    )
}

/// The ranges of the segments of `cs` (see [`segments_of`]).
fn segment_ranges(cs: &[char]) -> (r: Vec<(usize, usize)>)
    ensures
        r@.len() == segments_of(cs@).len(),
        forall|i: int|
            0 <= i < r@.len() ==> (#[trigger] r@[i]).0 <= r@[i].1 <= cs@.len() && cs@.subrange(
                r@[i].0 as int,
                r@[i].1 as int,
            ) == segments_of(cs@)[i],
{
    let n = cs.len();
    let ghost whole = segments_of(cs@);
    let ghost mut pieces: Seq<Seq<char>> = Seq::empty();
    let mut r: Vec<(usize, usize)> = Vec::new();
    let mut pos: usize = 0;
    assert(cs@.skip(0) =~= cs@);
    while pos < n
        invariant
            pos <= n == cs@.len(),
            pieces + segments_of(cs@.skip(pos as int)) == whole,
            r@.len() == pieces.len(),
            forall|i: int|
                0 <= i < r@.len() ==> (#[trigger] r@[i]).0 <= r@[i].1 <= n && cs@.subrange(
                    r@[i].0 as int,
                    r@[i].1 as int,
                ) == pieces[i],
        decreases n - pos,
    {
        let ghost s = cs@.skip(pos as int);
        let k = crate::text::find_char(cs, pos, n, '\n');
        assert(cs@.subrange(pos as int, n as int) =~= s);
        let (le, next) = if k == n {
            (n, n)
        } else if k > pos && cs[k - 1] == '\r' {
            (k - 1, k + 1)
        } else {
            (k, k + 1)
        };
        proof {
            if k < n {
                let kk = k - pos;
                assert(strip_cr(s.take(kk)) =~= cs@.subrange(pos as int, le as int));
                assert(s.skip(kk + 1) =~= cs@.skip(next as int));
            } else {
                assert(cs@.subrange(pos as int, le as int) =~= s);
                assert(cs@.skip(next as int) =~= Seq::<char>::empty());
                assert(segments_of(cs@.skip(next as int)) =~= Seq::<Seq<char>>::empty());
            }
        }
        let parts = crate::text::split_ranges(cs, pos, le, '\r');
        let ghost line_pieces = split_on(cs@.subrange(pos as int, le as int), '\r');
        assert(segments_of(s) == line_pieces + segments_of(cs@.skip(next as int)));
        let mut j: usize = 0;
        while j < parts.len()
            invariant
                j <= parts@.len() == line_pieces.len(),
                pos <= le <= n == cs@.len(),
                r@.len() == pieces.len() + j,
                forall|i: int|
                    0 <= i < parts@.len() ==> pos <= (#[trigger] parts@[i]).0 <= parts@[i].1 <= le
                        && cs@.subrange(parts@[i].0 as int, parts@[i].1 as int) == line_pieces[i],
                forall|i: int|
                    0 <= i < r@.len() ==> (#[trigger] r@[i]).0 <= r@[i].1 <= n && cs@.subrange(
                        r@[i].0 as int,
                        r@[i].1 as int,
                    ) == (pieces + line_pieces.take(j as int))[i],
            decreases parts.len() - j,
        {
            r.push(parts[j]);
            j = j + 1;
            proof {
                assert forall|i: int| 0 <= i < r@.len() implies (#[trigger] r@[i]).0 <= r@[i].1
                    <= n && cs@.subrange(r@[i].0 as int, r@[i].1 as int) == (pieces
                    + line_pieces.take(j as int))[i] by {
                    if i < r@.len() - 1 {
                        assert((pieces + line_pieces.take(j as int))[i] == (pieces
                            + line_pieces.take(j - 1))[i]);
                    } else {
                        assert((pieces + line_pieces.take(j as int))[i] == line_pieces[j - 1]);
                    }
                }
            }
        }
        proof {
            assert(line_pieces.take(j as int) =~= line_pieces);
            assert((pieces + line_pieces) + segments_of(cs@.skip(next as int)) =~= pieces
                + segments_of(s));
            pieces = pieces + line_pieces;
        }
        pos = next;
    }
    proof {
        assert(cs@.skip(pos as int) =~= Seq::<char>::empty());
        assert(segments_of(cs@.skip(pos as int)) =~= Seq::<Seq<char>>::empty());
        assert(pieces =~= whole);
    }
    r
}

/// Reads one trimmed segment (see [`line_token`]).
fn read_segment(t: &[char], prefixes: &[char]) -> (r: Option<
    Result<BmsToken<String>, BmsTokenizeError<String>>,
>)
    ensures
        line_token(t@, prefixes@) == match r {
            Some(x) => Some(result_view(x)),
            None => None,
        },
{
    proof {
        reveal(line_token);
    }
    let skip = t.len() == 0 || (t.len() >= 2 && t[0] == '/' && t[1] == '/') || t[0] == ';';
    if skip {
        None
    } else {
        match message_from_chars(t) {
            Ok(Some(m)) => Some(Ok(BmsToken::Message(m))),
            Err(e) => Some(Err(e)),
            Ok(None) => match header_from_chars(t, prefixes) {
                Ok(Some(h)) => Some(Ok(BmsToken::Header(h))),
                Ok(None) => None,
                Err(e) => Some(Err(e)),
            },
        }
    }
}

/// A BMS tokenizer, configured builder-style.
#[derive(Debug, Clone)]
pub struct BmsTokenizer {
    error_strategy: ErrorStrategy,
    header_prefixes: Vec<char>,
}

impl Default for BmsTokenizer {
    fn default() -> (r: Self)
        ensures
            r.strategy() == ErrorStrategy::CollectAll,
            r.prefixes() == seq!['#', '%'],
    {
        BmsTokenizer { error_strategy: ErrorStrategy::CollectAll, header_prefixes: vec!['#', '%'] }
    }
}

impl BmsTokenizer {
    /// The error strategy.
    pub closed spec fn strategy(&self) -> ErrorStrategy {
        self.error_strategy
    }

    /// The header prefix characters.
    pub closed spec fn prefixes(&self) -> Seq<char> {
        self.header_prefixes@
    }

    /// A tokenizer with the defaults: [`ErrorStrategy::CollectAll`] and the
    /// prefixes `#` and `%`.
    pub fn new() -> (r: Self)
        ensures
            r.strategy() == ErrorStrategy::CollectAll,
            r.prefixes() == seq!['#', '%'],
    {
        BmsTokenizer::default()
    }

    /// Sets the error strategy.
    pub fn error_strategy(self, strategy: ErrorStrategy) -> (r: Self)
        ensures
            r.strategy() == strategy,
            r.prefixes() == self.prefixes(),
    {
        BmsTokenizer { error_strategy: strategy, header_prefixes: self.header_prefixes }
    }

    /// Sets the characters that mark a header line (default `#` and `%`).
    pub fn header_prefixes(self, prefixes: &[char]) -> (r: Self)
        ensures
            r.strategy() == self.strategy(),
            r.prefixes() == prefixes@,
    {
        let mut v: Vec<char> = Vec::new();
        let mut i: usize = 0;
        while i < prefixes.len()
            invariant
                i <= prefixes@.len(),
                v@ == prefixes@.take(i as int),
            decreases prefixes.len() - i,
        {
            v.push(prefixes[i]);
            i = i + 1;
            assert(v@ =~= prefixes@.take(i as int));
        }
        assert(prefixes@.take(i as int) =~= prefixes@);
        BmsTokenizer { error_strategy: self.error_strategy, header_prefixes: v }
    }

    /// Tokenizes a BMS text into numbered results.
    ///
    /// The text is cut into lines at `\n`, `\r\n` and lone `\r`; lines are
    /// numbered from 1.  Empty lines, `//` and `;` comments and lines that
    /// are neither messages nor headers give no result.
    pub fn tokenize(&self, input: &str) -> (r: Vec<(usize, Result<BmsToken<String>, BmsTokenizeError<String>>)>)
        ensures
            results_view(r@) == tokens_of(
                segments_of(input@),
                0,
                self.prefixes(),
                self.strategy() == ErrorStrategy::FailFast,
            ),
    {
        let cs = crate::text::chars_of(input);
        assert(input@ =~= cs@);
        let segs = segment_ranges(&cs);
        let ghost sg = segments_of(cs@);
        let ghost ff = self.error_strategy == ErrorStrategy::FailFast;
        let ghost whole = tokens_of(sg, 0, self.header_prefixes@, ff);
        let mut out: Vec<(usize, Result<BmsToken<String>, BmsTokenizeError<String>>)> = Vec::new();
        let mut i: usize = 0;
        while i < segs.len()
            invariant
                i <= segs@.len() == sg.len(),
                sg == segments_of(cs@),
                cs@ == input@,
                ff == (self.error_strategy == ErrorStrategy::FailFast),
                whole == tokens_of(sg, 0, self.header_prefixes@, ff),
                forall|k: int|
                    0 <= k < segs@.len() ==> (#[trigger] segs@[k]).0 <= segs@[k].1 <= cs@.len()
                        && cs@.subrange(segs@[k].0 as int, segs@[k].1 as int) == sg[k],
                results_view(out@) + tokens_of(sg, i as int, self.header_prefixes@, ff) == whole,
            decreases segs.len() - i,
        {
            let (a, b) = segs[i];
            let (ta, tb) = crate::text::trim_range(&cs, a, b);
            let t = crate::text::copy_range(&cs, ta, tb);
            let ghost tr = trim(sg[i as int]);
            assert(t@ == tr);
            let res = read_segment(&t, &self.header_prefixes);
            let ghost before = out@;
            match res {
                None => {
                    assert(line_token(tr, self.header_prefixes@) is None);
                },
                Some(r) => {
                    let is_err = r.is_err();
                    let ghost rv = result_view(r);
                    assert(line_token(tr, self.header_prefixes@) == Some(rv));
                    out.push((i + 1, r));
                    proof {
                        assert(results_view(out@) =~= results_view(before).push((i + 1, rv)));
                    }
                    if self.error_strategy == ErrorStrategy::FailFast && is_err {
                        proof {
                            assert(results_view(out@) =~= results_view(before) + tokens_of(
                                sg,
                                i as int,
                                self.header_prefixes@,
                                ff,
                            ));
                        }
                        return out;
                    }
                    proof {
                        assert(results_view(out@) + tokens_of(
                            sg,
                            i + 1,
                            self.header_prefixes@,
                            ff,
                        ) =~= results_view(before) + tokens_of(sg, i as int, self.header_prefixes@, ff));
                    }
                },
            }
            i = i + 1;
        }
        proof {
            assert(results_view(out@) + Seq::empty() =~= results_view(out@));
            assert(input@ =~= cs@);
        }
        out
    }
}

// ---------------------------------------------------------------------------
// Laws
// ---------------------------------------------------------------------------

/// The results are numbered in strictly increasing order, all after `i`.
pub proof fn lemma_tokens_numbered_in_order(
    segs: Seq<Seq<char>>,
    i: int,
    prefixes: Seq<char>,
    fail_fast: bool,
)
    requires
        0 <= i,
    ensures
        forall|j: int|
            0 <= j < tokens_of(segs, i, prefixes, fail_fast).len() ==> i < (#[trigger] tokens_of(
                segs,
                i,
                prefixes,
                fail_fast,
            )[j]).0 <= segs.len(),
        forall|j: int, k: int|
            0 <= j < k < tokens_of(segs, i, prefixes, fail_fast).len() ==> (#[trigger] tokens_of(
                segs,
                i,
                prefixes,
                fail_fast,
            )[j]).0 < (#[trigger] tokens_of(segs, i, prefixes, fail_fast)[k]).0,
    decreases segs.len() - i,
{
    if i < segs.len() {
        lemma_tokens_numbered_in_order(segs, i + 1, prefixes, fail_fast);
        let rest = tokens_of(segs, i + 1, prefixes, fail_fast);
        let all = tokens_of(segs, i, prefixes, fail_fast);
        match line_token(trim(segs[i]), prefixes) {
            None => {},
            Some(r) => {
                if !(fail_fast && r is Err) {
                    assert forall|j: int| 0 < j < all.len() implies #[trigger] all[j] == rest[j - 1] by {}
                    assert forall|j: int, k: int| 0 <= j < k < all.len() implies (#[trigger] all[j]).0
                        < (#[trigger] all[k]).0 by {
                        assert(all[k] == rest[k - 1]);
                        if j > 0 {
                            assert(all[j] == rest[j - 1]);
                        }
                    }
                }
            },
        }
    }
}

/// Stopping at the first error keeps a prefix of the full results: every
/// result before the last is the same, and the results end exactly at the
/// first error (or run to the end when there is none).
pub proof fn lemma_fail_fast_is_prefix(segs: Seq<Seq<char>>, i: int, prefixes: Seq<char>)
    requires
        0 <= i,
    ensures
        ({
            let ff = tokens_of(segs, i, prefixes, true);
            let all = tokens_of(segs, i, prefixes, false);
            &&& ff.len() <= all.len()
            &&& ff == all.take(ff.len() as int)
            &&& forall|j: int| 0 <= j < ff.len() - 1 ==> (#[trigger] ff[j]).1 is Ok
            &&& ff.len() < all.len() ==> ff.len() > 0 && ff.last().1 is Err
            &&& ff.len() == all.len() ==> forall|j: int| 0 <= j < all.len() - 1 ==> (
            #[trigger] all[j]).1 is Ok
        }),
    decreases segs.len() - i,
{
    if i < segs.len() {
        lemma_fail_fast_is_prefix(segs, i + 1, prefixes);
        let ff = tokens_of(segs, i, prefixes, true);
        let all = tokens_of(segs, i, prefixes, false);
        let ff1 = tokens_of(segs, i + 1, prefixes, true);
        let all1 = tokens_of(segs, i + 1, prefixes, false);
        match line_token(trim(segs[i]), prefixes) {
            None => {},
            Some(r) => {
                if r is Err {
                    assert(ff.len() == 1);
                    assert(ff =~= all.take(1));
                } else {
                    assert(ff =~= all.take(ff.len() as int));
                    assert forall|j: int| 0 <= j < ff.len() - 1 implies (#[trigger] ff[j]).1 is Ok by {
                        if j > 0 {
                            assert(ff[j] == ff1[j - 1]);
                        }
                    }
                    if ff.len() == all.len() {
                        assert forall|j: int| 0 <= j < all.len() - 1 implies (
                        #[trigger] all[j]).1 is Ok by {
                            if j > 0 {
                                assert(all[j] == all1[j - 1]);
                            }
                        }
                    }
                    if ff.len() < all.len() {
                        assert(ff.last() == ff1.last());
                    }
                }
            },
        }
    }
}

/// Collecting every result, each result `(n, r)` is what trimmed segment
/// `n` reads as (see [`line_token`]), and every segment from `i` on that
/// reads as something gives exactly one result, numbered by its position.
pub proof fn lemma_collect_all_reads_every_segment(segs: Seq<Seq<char>>, i: int, prefixes: Seq<char>)
    requires
        0 <= i,
    ensures
        forall|k: int|
            0 <= k < tokens_of(segs, i, prefixes, false).len() ==> {
                let t = #[trigger] tokens_of(segs, i, prefixes, false)[k];
                &&& i < t.0 <= segs.len()
                &&& line_token(trim(segs[t.0 - 1]), prefixes) == Some(t.1)
            },
        forall|j: int|
            i <= j < segs.len() && (#[trigger] line_token(trim(segs[j]), prefixes)) is Some ==> exists|k: int|
                0 <= k < tokens_of(segs, i, prefixes, false).len() && tokens_of(segs, i, prefixes, false)[k]
                    == (j + 1, line_token(trim(segs[j]), prefixes).unwrap()),
    decreases segs.len() - i,
{
    if i < segs.len() {
        lemma_collect_all_reads_every_segment(segs, i + 1, prefixes);
        let rest = tokens_of(segs, i + 1, prefixes, false);
        let all = tokens_of(segs, i, prefixes, false);
        match line_token(trim(segs[i]), prefixes) {
            None => {
                assert(all == rest);
                assert forall|j: int|
                    i <= j < segs.len() && (#[trigger] line_token(trim(segs[j]), prefixes)) is Some implies exists|k: int|
                        0 <= k < all.len() && all[k] == (j + 1, line_token(trim(segs[j]), prefixes).unwrap()) by {
                    assert(j != i);
                }
            },
            Some(r) => {
                assert(all == seq![(i + 1, r)] + rest);
                assert forall|k: int| 0 < k < all.len() implies #[trigger] all[k] == rest[k - 1] by {}
                assert forall|k: int| 0 <= k < all.len() implies {
                    let t = #[trigger] all[k];
                    &&& i < t.0 <= segs.len()
                    &&& line_token(trim(segs[t.0 - 1]), prefixes) == Some(t.1)
                } by {
                    if k > 0 {
                        assert(all[k] == rest[k - 1]);
                    }
                }
                assert forall|j: int|
                    i <= j < segs.len() && (#[trigger] line_token(trim(segs[j]), prefixes)) is Some implies exists|k: int|
                        0 <= k < all.len() && all[k] == (j + 1, line_token(trim(segs[j]), prefixes).unwrap()) by {
                    if j == i {
                        assert(all[0] == (i + 1, r));
                    } else {
                        let k1 = choose|k: int|
                            0 <= k < rest.len() && rest[k] == (j + 1, line_token(trim(segs[j]), prefixes).unwrap());
                        assert(all[k1 + 1] == rest[k1]);
                    }
                }
            },
        }
    }
}

} // verus!
