//! Comment stripping, run before tokenizing.
//!
//! Three comment forms are removed:
//!
//! - `//` to the end of the line, where the `//` starts the input or follows
//!   whitespace (so `http://` in an unquoted URL stays);
//! - `;` to the end of the line, only at the start of a line (after optional
//!   spaces or tabs);
//! - `/* ... */`, which does not nest and may span lines.
//!
//! Comment markers inside double-quoted strings are kept; inside a string a
//! backslash escapes the next character.

use vstd::prelude::*;

verus! {

/// The state of the comment scanner.
#[derive(PartialEq, Eq, Structural)]
pub enum ScanState {
    /// Outside any comment or string.
    Normal,
    /// Inside a `//` or `;` comment.
    LineComment,
    /// Inside a `/* */` comment.
    BlockComment,
    /// Inside a block comment, just after a `*`.
    BlockMaybeEnd,
    /// Inside a `"..."` string.
    InString,
}

/// Whether position `i` of `s` is at the start of a line, possibly after
/// spaces and tabs.
pub open spec fn at_line_start_spec(s: Seq<char>, i: int) -> bool
    decreases i,
{
    if i <= 0 {
        true
    } else if s[i - 1] == ' ' || s[i - 1] == '\t' {
        at_line_start_spec(s, i - 1)
    } else {
        s[i - 1] == '\n' || s[i - 1] == '\r'
    }
}

/// Whether a `//` at position `i` opens a comment: it starts the input or
/// follows whitespace.
pub open spec fn slash_comment_ok(s: Seq<char>, i: int) -> bool {
    i == 0 || crate::text::is_ascii_ws(s[i - 1])
}

/// The text that the scanner writes for `s[i..]`, starting in state `st`.
pub open spec fn strip_from(s: Seq<char>, i: int, st: ScanState) -> Seq<char>
    decreases s.len() - i, 0int,
{
    if i < 0 || i >= s.len() {
        Seq::empty()
    } else {
        let c = s[i];
        match st {
            ScanState::Normal => if c == '"' {
                seq!['"'] + strip_from(s, i + 1, ScanState::InString)
            } else if c == ';' && at_line_start_spec(s, i) {
                strip_from(s, i + 1, ScanState::LineComment)
            } else if c == '/' && i + 1 < s.len() && s[i + 1] == '/' && slash_comment_ok(s, i) {
                strip_from(s, i + 2, ScanState::LineComment)
            } else if c == '/' && i + 1 < s.len() && s[i + 1] == '*' {
                strip_from(s, i + 2, ScanState::BlockComment)
            } else {
                seq![c] + strip_from(s, i + 1, ScanState::Normal)
            },
            ScanState::LineComment => if c == '\n' || c == '\r' {
                seq![c] + strip_from(s, i + 1, ScanState::Normal)
            } else {
                strip_from(s, i + 1, ScanState::LineComment)
            },
            ScanState::BlockComment => if c == '*' {
                strip_from(s, i + 1, ScanState::BlockMaybeEnd)
            } else {
                strip_from(s, i + 1, ScanState::BlockComment)
            },
            ScanState::BlockMaybeEnd => if c == '/' {
                strip_from(s, i + 1, ScanState::Normal)
            } else if c == '*' {
                strip_from(s, i + 1, ScanState::BlockMaybeEnd)
            } else {
                strip_from(s, i + 1, ScanState::BlockComment)
            },
            ScanState::InString => if c == '\\' {
                if i + 1 < s.len() {
                    seq!['\\', s[i + 1]] + strip_from(s, i + 2, ScanState::InString)
                } else {
                    seq!['\\']
                }
            } else if c == '"' {
                seq!['"'] + strip_from(s, i + 1, ScanState::Normal)
            } else {
                seq![c] + strip_from(s, i + 1, ScanState::InString)
            },
        }
    }
}

/// Whether `i` is at the start of a line (after optional spaces or tabs).
fn at_line_start(s: &[char], i: usize) -> (r: bool)
    requires
        i <= s@.len(),
    ensures
        r == at_line_start_spec(s@, i as int),
{
    let mut k = i;
    while k > 0 && (s[k - 1] == ' ' || s[k - 1] == '\t')
        invariant
            k <= i <= s@.len(),
            at_line_start_spec(s@, i as int) == at_line_start_spec(s@, k as int),
        decreases k,
    {
        k = k - 1;
    }
    if k == 0 {
        true
    } else {
        s[k - 1] == '\n' || s[k - 1] == '\r'
    }
}

/// Removes BMS comments from `input` (see the module documentation).
pub fn preprocess(input: &str) -> (r: String)
    ensures
        r@ == strip_from(input@, 0, ScanState::Normal),
{
    let s = crate::text::chars_of(input);
    let n = s.len();
    let mut out: Vec<char> = Vec::new();
    let mut st = ScanState::Normal;
    let mut i: usize = 0;
    while i < n
        invariant
            n == s@.len(),
            i <= n,
            out@ + strip_from(s@, i as int, st) == strip_from(s@, 0, ScanState::Normal),
        decreases n - i,
    {
        let c = s[i];
        let ghost before = out@;
        let ghost st0 = st;
        let ghost i0 = i as int;
        match st {
            ScanState::Normal => {
                if c == '"' {
                    out.push('"');
                    st = ScanState::InString;
                    i = i + 1;
                } else if c == ';' && at_line_start(&s, i) {
                    st = ScanState::LineComment;
                    i = i + 1;
                } else if c == '/' && i + 1 < n && s[i + 1] == '/' && (i == 0
                    || crate::text::is_ascii_ws_char(s[i - 1])) {
                    st = ScanState::LineComment;
                    i = i + 2;
                } else if c == '/' && i + 1 < n && s[i + 1] == '*' {
                    st = ScanState::BlockComment;
                    i = i + 2;
                } else {
                    out.push(c);
                    i = i + 1;
                }
            },
            ScanState::LineComment => {
                if c == '\n' || c == '\r' {
                    out.push(c);
                    st = ScanState::Normal;
                }
                i = i + 1;
            },
            ScanState::BlockComment => {
                if c == '*' {
                    st = ScanState::BlockMaybeEnd;
                }
                i = i + 1;
            },
            ScanState::BlockMaybeEnd => {
                if c == '/' {
                    st = ScanState::Normal;
                } else if c != '*' {
                    st = ScanState::BlockComment;
                }
                i = i + 1;
            },
            ScanState::InString => {
                if c == '\\' {
                    out.push('\\');
                    i = i + 1;
                    if i < n {
                        out.push(s[i]);
                        i = i + 1;
                    }
                } else if c == '"' {
                    out.push('"');
                    st = ScanState::Normal;
                    i = i + 1;
                } else {
                    out.push(c);
                    i = i + 1;
                }
            },
        }
        proof {
            let rest0 = strip_from(s@, i0, st0);
            let written = out@.skip(before.len() as int);
            assert(out@ =~= before + written);
            assert(rest0 =~= written + strip_from(s@, i as int, st));
            assert(out@ + strip_from(s@, i as int, st) =~= before + rest0);
        }
    }
    proof {
        assert(out@ + Seq::<char>::empty() =~= out@);
        assert(input@ =~= s@);
    }
    crate::text::string_from(&out)
}

/// Whether `s` holds no comment marker and no quote: no `"`, no `;`, and no
/// `/` followed by `/` or `*`.
pub open spec fn marker_free(s: Seq<char>) -> bool {
    forall|i: int|
        0 <= i < s.len() ==> {
            &&& #[trigger] s[i] != '"'
            &&& s[i] != ';'
            &&& (s[i] == '/' && i + 1 < s.len() ==> s[i + 1] != '/' && s[i + 1] != '*')
        }
}

proof fn lemma_marker_free_from(s: Seq<char>, i: int)
    requires
        marker_free(s),
        0 <= i <= s.len(),
    ensures
        strip_from(s, i, ScanState::Normal) == s.skip(i),
    decreases s.len() - i,
{
    if i < s.len() {
        lemma_marker_free_from(s, i + 1);
        assert(s[i] != '"');
        assert(s.skip(i) =~= seq![s[i]] + s.skip(i + 1));
    } else {
        assert(s.skip(i) =~= Seq::<char>::empty());
    }
}

/// Text without comment markers or quotes passes through unchanged.
pub proof fn lemma_preprocess_marker_free(s: Seq<char>)
    requires
        marker_free(s),
    ensures
        strip_from(s, 0, ScanState::Normal) == s,
{
    lemma_marker_free_from(s, 0);
    assert(s.skip(0) =~= s);
}

/// The scanner never writes more characters than it reads.
pub proof fn lemma_preprocess_shrinks(s: Seq<char>, i: int, st: ScanState)
    requires
        0 <= i,
    ensures
        strip_from(s, i, st).len() <= if i < s.len() {
            s.len() - i
        } else {
            0
        },
    decreases s.len() - i,
{
    if i < s.len() {
        lemma_preprocess_shrinks(s, i + 1, ScanState::Normal);
        lemma_preprocess_shrinks(s, i + 1, ScanState::LineComment);
        lemma_preprocess_shrinks(s, i + 1, ScanState::BlockComment);
        lemma_preprocess_shrinks(s, i + 1, ScanState::BlockMaybeEnd);
        lemma_preprocess_shrinks(s, i + 1, ScanState::InString);
        if i + 2 <= s.len() {
            lemma_preprocess_shrinks(s, i + 2, ScanState::LineComment);
            lemma_preprocess_shrinks(s, i + 2, ScanState::BlockComment);
            lemma_preprocess_shrinks(s, i + 2, ScanState::InString);
        }
    }
}

/// Whether the scanner passes `s[i..k]` through unchanged in the normal
/// state: no quote, no `;`, and no `/` followed by `/` or `*`.
pub open spec fn plain_between(s: Seq<char>, i: int, k: int) -> bool {
    forall|j: int|
        i <= j < k ==> {
            &&& #[trigger] s[j] != '"'
            &&& s[j] != ';'
            &&& (s[j] == '/' && j + 1 < s.len() ==> s[j + 1] != '/' && s[j + 1] != '*')
        }
}

proof fn lemma_plain_prefix(s: Seq<char>, i: int, k: int)
    requires
        0 <= i <= k <= s.len(),
        plain_between(s, i, k),
    ensures
        strip_from(s, i, ScanState::Normal) == s.subrange(i, k) + strip_from(s, k, ScanState::Normal),
    decreases k - i,
{
    if i < k {
        lemma_plain_prefix(s, i + 1, k);
        assert(s.subrange(i, k) =~= seq![s[i]] + s.subrange(i + 1, k));
    } else {
        assert(s.subrange(i, k) =~= Seq::<char>::empty());
    }
}

proof fn lemma_line_comment_runs(s: Seq<char>, i: int, j: int)
    requires
        0 <= i <= j <= s.len(),
        forall|k: int| i <= k < j ==> #[trigger] s[k] != '\n' && s[k] != '\r',
    ensures
        strip_from(s, i, ScanState::LineComment) == strip_from(s, j, ScanState::LineComment),
    decreases j - i,
{
    if i < j {
        lemma_line_comment_runs(s, i + 1, j);
    }
}

proof fn lemma_line_start_shift(s1: Seq<char>, s2: Seq<char>, b1: int, b2: int, i: int)
    requires
        0 <= b1 < i <= s1.len(),
        0 <= b2 <= s2.len(),
        s1.skip(b1) == s2.skip(b2),
        s1[b1] == '\n',
    ensures
        at_line_start_spec(s1, i) == at_line_start_spec(s2, i - b1 + b2),
    decreases i,
{
    let j = i - b1 + b2;
    assert(s1.skip(b1).len() == s1.len() - b1);
    assert(s2.skip(b2).len() == s2.len() - b2);
    assert(s1[i - 1] == s1.skip(b1)[i - 1 - b1]);
    assert(s2[j - 1] == s2.skip(b2)[i - 1 - b1]);
    if i - 1 > b1 && (s1[i - 1] == ' ' || s1[i - 1] == '\t') {
        lemma_line_start_shift(s1, s2, b1, b2, i - 1);
    }
}

/// After a line break, the scanner's output depends only on what follows.
proof fn lemma_strip_shift(s1: Seq<char>, s2: Seq<char>, b1: int, b2: int, i: int, st: ScanState)
    requires
        0 <= b1 < i,
        0 <= b2 <= s2.len(),
        b1 < s1.len(),
        s1.skip(b1) == s2.skip(b2),
        s1[b1] == '\n',
    ensures
        strip_from(s1, i, st) == strip_from(s2, i - b1 + b2, st),
    decreases s1.len() - i,
{
    let j = i - b1 + b2;
    assert(s1.skip(b1).len() == s1.len() - b1);
    assert(s2.skip(b2).len() == s2.len() - b2);
    if i < s1.len() {
        assert(s1[i] == s1.skip(b1)[i - b1]);
        assert(s2[j] == s2.skip(b2)[i - b1]);
        assert(s1[i - 1] == s1.skip(b1)[i - 1 - b1]);
        assert(s2[j - 1] == s2.skip(b2)[i - 1 - b1]);
        if i + 1 < s1.len() {
            assert(s1[i + 1] == s1.skip(b1)[i + 1 - b1]);
            assert(s2[j + 1] == s2.skip(b2)[i + 1 - b1]);
        }
        lemma_line_start_shift(s1, s2, b1, b2, i);
        lemma_strip_shift(s1, s2, b1, b2, i + 1, ScanState::Normal);
        lemma_strip_shift(s1, s2, b1, b2, i + 1, ScanState::LineComment);
        lemma_strip_shift(s1, s2, b1, b2, i + 1, ScanState::BlockComment);
        lemma_strip_shift(s1, s2, b1, b2, i + 1, ScanState::BlockMaybeEnd);
        lemma_strip_shift(s1, s2, b1, b2, i + 1, ScanState::InString);
        if i + 1 < s1.len() {
            lemma_strip_shift(s1, s2, b1, b2, i + 2, ScanState::LineComment);
            lemma_strip_shift(s1, s2, b1, b2, i + 2, ScanState::BlockComment);
            lemma_strip_shift(s1, s2, b1, b2, i + 2, ScanState::InString);
        }
    }
}

/// After text `a` that holds no comment marker and no quote, a `//` that
/// follows any ASCII whitespace `w` (space, tab, line break, carriage return
/// or form feed) opens a comment: everything from the `//` to the end of its
/// line is dropped, and what follows the line is written as if the comment
/// had not been there; a comment on the last line is dropped to the end of
/// the input.
pub proof fn lemma_slash_comment_after_whitespace(a: Seq<char>, w: char, c: Seq<char>, t: Seq<char>)
    requires
        marker_free(a),
        w == ' ' || w == '\t' || w == '\n' || w == '\r' || w == '\x0C',
        forall|i: int| 0 <= i < c.len() ==> #[trigger] c[i] != '\n' && c[i] != '\r',
    ensures
        strip_from(a + seq![w, '/', '/'] + c + seq!['\n'] + t, 0, ScanState::Normal) == strip_from(
            a + seq![w, '\n'] + t,
            0,
            ScanState::Normal,
        ),
        strip_from(a + seq![w, '/', '/'] + c, 0, ScanState::Normal) == a + seq![w],
{
    let k = (a.len() + 1) as int;
    let s1 = a + seq![w, '/', '/'] + c + seq!['\n'] + t;
    let s2 = a + seq![w, '\n'] + t;
    let s3 = a + seq![w, '/', '/'] + c;
    assert(plain_between(s1, 0, k)) by {
        assert forall|j: int| 0 <= j < k implies {
            &&& #[trigger] s1[j] != '"'
            &&& s1[j] != ';'
            &&& (s1[j] == '/' && j + 1 < s1.len() ==> s1[j + 1] != '/' && s1[j + 1] != '*')
        } by {
            if j < a.len() {
                assert(s1[j] == a[j]);
                if j + 1 < a.len() {
                    assert(s1[j + 1] == a[j + 1]);
                }
            }
        }
    }
    assert(plain_between(s2, 0, k)) by {
        assert forall|j: int| 0 <= j < k implies {
            &&& #[trigger] s2[j] != '"'
            &&& s2[j] != ';'
            &&& (s2[j] == '/' && j + 1 < s2.len() ==> s2[j + 1] != '/' && s2[j + 1] != '*')
        } by {
            if j < a.len() {
                assert(s2[j] == a[j]);
                if j + 1 < a.len() {
                    assert(s2[j + 1] == a[j + 1]);
                }
            }
        }
    }
    assert(plain_between(s3, 0, k)) by {
        assert forall|j: int| 0 <= j < k implies {
            &&& #[trigger] s3[j] != '"'
            &&& s3[j] != ';'
            &&& (s3[j] == '/' && j + 1 < s3.len() ==> s3[j + 1] != '/' && s3[j + 1] != '*')
        } by {
            if j < a.len() {
                assert(s3[j] == a[j]);
                if j + 1 < a.len() {
                    assert(s3[j + 1] == a[j + 1]);
                }
            }
        }
    }
    lemma_plain_prefix(s1, 0, k);
    lemma_plain_prefix(s2, 0, k);
    lemma_plain_prefix(s3, 0, k);
    assert(s1.subrange(0, k) =~= a + seq![w]);
    assert(s2.subrange(0, k) =~= a + seq![w]);
    assert(s3.subrange(0, k) =~= a + seq![w]);
    // the comment
    assert(s1[k] == '/' && s1[k + 1] == '/' && s1[k - 1] == w);
    assert(s3[k] == '/' && s3[k + 1] == '/' && s3[k - 1] == w);
    let e = k + 2 + c.len();
    assert forall|m: int| k + 2 <= m < e implies #[trigger] s1[m] != '\n' && s1[m] != '\r' by {
        assert(s1[m] == c[m - k - 2]);
    }
    assert forall|m: int| k + 2 <= m < e implies #[trigger] s3[m] != '\n' && s3[m] != '\r' by {
        assert(s3[m] == c[m - k - 2]);
    }
    lemma_line_comment_runs(s1, k + 2, e);
    lemma_line_comment_runs(s3, k + 2, e);
    assert(s3.len() == e);
    assert(strip_from(s3, e, ScanState::LineComment) == Seq::<char>::empty());
    assert(a + seq![w] + Seq::<char>::empty() =~= a + seq![w]);
    assert(s1[e] == '\n');
    assert(s2[k] == '\n');
    assert(s2[k] != '"' && s2[k] != ';' && s2[k] != '/');
    // after the line break
    assert(s1.skip(e) =~= seq!['\n'] + t);
    assert(s2.skip(k) =~= seq!['\n'] + t);
    lemma_strip_shift(s1, s2, e, k, e + 1, ScanState::Normal);
    assert(strip_from(s1, e, ScanState::LineComment) == seq!['\n'] + strip_from(s1, e + 1, ScanState::Normal));
    assert(strip_from(s2, k, ScanState::Normal) == seq!['\n'] + strip_from(s2, k + 1, ScanState::Normal));
}

} // verus!
