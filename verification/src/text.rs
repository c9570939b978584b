//! Text primitives: whitespace classification, trimming, whitespace
//! tokenization and comma splitting, together with their sequence-level
//! models and the lemmas that connect the two.

use vstd::prelude::*;

verus! {

/// The Unicode `White_Space` characters, the set that `str::trim` and
/// `str::split_whitespace` delimit on.
pub open spec fn is_ws(c: char) -> bool {
    ||| c == '\u{0009}'
    ||| c == '\u{000A}'
    ||| c == '\u{000B}'
    ||| c == '\u{000C}'
    ||| c == '\u{000D}'
    ||| c == '\u{0020}'
    ||| c == '\u{0085}'
    ||| c == '\u{00A0}'
    ||| c == '\u{1680}'
    ||| c == '\u{2000}'
    ||| c == '\u{2001}'
    ||| c == '\u{2002}'
    ||| c == '\u{2003}'
    ||| c == '\u{2004}'
    ||| c == '\u{2005}'
    ||| c == '\u{2006}'
    ||| c == '\u{2007}'
    ||| c == '\u{2008}'
    ||| c == '\u{2009}'
    ||| c == '\u{200A}'
    ||| c == '\u{2028}'
    ||| c == '\u{2029}'
    ||| c == '\u{202F}'
    ||| c == '\u{205F}'
    ||| c == '\u{3000}'
}

/// Decides Unicode whitespace, character by character.
pub fn is_ws_char(c: char) -> (b: bool)
    ensures
        b == is_ws(c),
{
    match c {
        '\u{0009}' | '\u{000A}' | '\u{000B}' | '\u{000C}' | '\u{000D}' | '\u{0020}'
        | '\u{0085}' | '\u{00A0}' | '\u{1680}' | '\u{2000}' | '\u{2001}' | '\u{2002}'
        | '\u{2003}' | '\u{2004}' | '\u{2005}' | '\u{2006}' | '\u{2007}' | '\u{2008}'
        | '\u{2009}' | '\u{200A}' | '\u{2028}' | '\u{2029}' | '\u{202F}' | '\u{205F}'
        | '\u{3000}' => true,
        _ => false,
    }
}

/// The sequence with its leading whitespace removed.
pub open spec fn trim_start(s: Seq<char>) -> Seq<char>
    decreases s.len(),
{
    if s.len() > 0 && is_ws(s[0]) {
        trim_start(s.drop_first())
    } else {
        s
    }
}

/// The sequence with its trailing whitespace removed.
pub open spec fn trim_end(s: Seq<char>) -> Seq<char>
    decreases s.len(),
{
    if s.len() > 0 && is_ws(s.last()) {
        trim_end(s.drop_last())
    } else {
        s
    }
}

/// The sequence with both leading and trailing whitespace removed:
/// the model of `str::trim`.
pub open spec fn trim(s: Seq<char>) -> Seq<char> {
    trim_end(trim_start(s))
}

/// `trim_start` keeps exactly the part after the leading whitespace run.
proof fn lemma_trim_start_at(s: Seq<char>, a: int)
    requires
        0 <= a <= s.len(),
        forall|k: int| 0 <= k < a ==> is_ws(s[k]),
        a == s.len() || !is_ws(s[a]),
    ensures
        trim_start(s) == s.subrange(a, s.len() as int),
    decreases a,
{
    if a == 0 {
        assert(s.subrange(0, s.len() as int) =~= s);
    } else {
        let t = s.drop_first();
        assert(is_ws(s[0]));
        lemma_trim_start_at(t, a - 1);
        assert(t.subrange(a - 1, t.len() as int) =~= s.subrange(a, s.len() as int));
    }
}

/// `trim_end` keeps exactly the part before the trailing whitespace run.
proof fn lemma_trim_end_at(s: Seq<char>, b: int)
    requires
        0 <= b <= s.len(),
        forall|k: int| b <= k < s.len() ==> is_ws(s[k]),
        b == 0 || !is_ws(s[b - 1]),
    ensures
        trim_end(s) == s.subrange(0, b),
    decreases s.len(),
{
    if b == s.len() {
        assert(s.subrange(0, b) =~= s);
    } else {
        let t = s.drop_last();
        assert(is_ws(s.last()));
        lemma_trim_end_at(t, b);
        assert(t.subrange(0, b) =~= s.subrange(0, b));
    }
}

/// Removes leading and trailing whitespace, as `str::trim` does.
pub fn trim_str(s: &str) -> (r: &str)
    ensures
        r@ == trim(s@),
{
    let n = s.unicode_len();
    let mut lo: usize = 0;
    while lo < n && is_ws_char(s.get_char(lo))
        invariant
            n == s@.len(),
            0 <= lo <= n,
            forall|k: int| 0 <= k < lo ==> is_ws(s@[k]),
        decreases n - lo,
    {
        lo = lo + 1;
    }
    proof {
        lemma_trim_start_at(s@, lo as int);
    }
    let mut hi: usize = n;
    while hi > lo && is_ws_char(s.get_char(hi - 1))
        invariant
            n == s@.len(),
            0 <= lo <= hi <= n,
            forall|k: int| hi <= k < n ==> is_ws(s@[k]),
        decreases hi,
    {
        hi = hi - 1;
    }
    let r = s.substring_char(lo, hi);
    proof {
        let mid = s@.subrange(lo as int, n as int);
        lemma_trim_end_at(mid, hi - lo);
        assert(mid.subrange(0, hi - lo) =~= s@.subrange(lo as int, hi as int));
    }
    r
}

/// The maximal whitespace-separated words of `s`, in order: the model of
/// `str::split_whitespace`.  Delimiter runs collapse, so no word is empty.
pub open spec fn ws_tokens(s: Seq<char>) -> Seq<Seq<char>>
    decreases s.len(),
{
    if s.len() == 0 {
        Seq::empty()
    } else if is_ws(s[0]) {
        ws_tokens(s.drop_first())
    } else if s.len() == 1 || is_ws(s[1]) {
        seq![seq![s[0]]] + ws_tokens(s.drop_first())
    } else {
        let rest = ws_tokens(s.drop_first());
        seq![seq![s[0]] + rest[0]] + rest.drop_first()
    }
}

/// Delimiter runs collapse: every token is nonempty and free of
/// whitespace.
pub proof fn lemma_ws_tokens_words(s: Seq<char>)
    ensures
        forall|k: int| 0 <= k < ws_tokens(s).len() ==> (#[trigger] ws_tokens(s)[k]).len() > 0,
        forall|k: int, j: int|
            0 <= k < ws_tokens(s).len() && 0 <= j < ws_tokens(s)[k].len() ==> !is_ws(
                #[trigger] ws_tokens(s)[k][j],
            ),
    decreases s.len(),
{
    if s.len() == 0 {
    } else {
        let t = s.drop_first();
        lemma_ws_tokens_words(t);
        if is_ws(s[0]) {
        } else if s.len() == 1 || is_ws(s[1]) {
            let toks = ws_tokens(s);
            assert(toks[0] == seq![s[0]]);
            assert(forall|k: int| 1 <= k < toks.len() ==> toks[k] == ws_tokens(t)[k - 1]);
        } else {
            let rest = ws_tokens(t);
            assert(rest.len() >= 1);
            let toks = ws_tokens(s);
            assert(toks[0] == seq![s[0]] + rest[0]);
            assert(forall|j: int| 0 <= j < rest[0].len() ==> !is_ws(rest[0][j]));
            assert(forall|j: int| 1 <= j < toks[0].len() ==> toks[0][j] == rest[0][j - 1]);
            assert(forall|k: int| 1 <= k < toks.len() ==> toks[k] == rest[k]);
        }
    }
}

/// When `s` opens with a maximal non-whitespace run of length `n`, that run
/// is the first token and the rest of `s` contributes the remaining tokens.
proof fn lemma_ws_tokens_front(s: Seq<char>, n: int)
    requires
        1 <= n <= s.len(),
        forall|k: int| 0 <= k < n ==> !is_ws(s[k]),
        n == s.len() || is_ws(s[n]),
    ensures
        ws_tokens(s) == seq![s.subrange(0, n)] + ws_tokens(s.subrange(n, s.len() as int)),
    decreases n,
{
    let t = s.drop_first();
    if n == 1 {
        assert(seq![s[0]] =~= s.subrange(0, 1));
        assert(t =~= s.subrange(1, s.len() as int));
        assert(ws_tokens(s) == seq![seq![s[0]]] + ws_tokens(t));
        assert(ws_tokens(s) =~~= seq![s.subrange(0, 1)] + ws_tokens(s.subrange(1, s.len() as int)));
    } else {
        assert(!is_ws(s[1]));
        lemma_ws_tokens_front(t, n - 1);
        let rest = ws_tokens(t);
        assert(rest == seq![t.subrange(0, n - 1)] + ws_tokens(t.subrange(n - 1, t.len() as int)));
        assert(rest[0] == t.subrange(0, n - 1));
        assert(rest.drop_first() =~~= ws_tokens(t.subrange(n - 1, t.len() as int)));
        assert(t.subrange(n - 1, t.len() as int) =~= s.subrange(n, s.len() as int));
        assert(seq![s[0]] + t.subrange(0, n - 1) =~= s.subrange(0, n));
        assert(ws_tokens(s) =~~= seq![s.subrange(0, n)] + ws_tokens(s.subrange(n, s.len() as int)));
    }
}

/// Splits on runs of whitespace, as `str::split_whitespace` does.
pub fn split_ws(s: &str) -> (r: Vec<String>)
    ensures
        r.deep_view() == ws_tokens(s@),
{
    let n = s.unicode_len();
    let mut out: Vec<String> = Vec::new();
    let mut i: usize = 0;
    proof {
        assert(s@.subrange(0, n as int) =~= s@);
        assert(ws_tokens(s@) =~~= out.deep_view() + ws_tokens(s@.subrange(0, n as int)));
    }
    while i < n
        invariant
            n == s@.len(),
            0 <= i <= n,
            ws_tokens(s@) == out.deep_view() + ws_tokens(s@.subrange(i as int, n as int)),
        decreases n - i,
    {
        if is_ws_char(s.get_char(i)) {
            proof {
                assert(s@.subrange(i as int, n as int).drop_first() =~= s@.subrange(
                    i + 1,
                    n as int,
                ));
            }
            i = i + 1;
        } else {
            let mut j: usize = i;
            while j < n && !is_ws_char(s.get_char(j))
                invariant
                    n == s@.len(),
                    i <= j <= n,
                    forall|k: int| i <= k < j ==> !is_ws(s@[k]),
                decreases n - j,
            {
                j = j + 1;
            }
            let tok = s.substring_char(i, j).to_owned();
            proof {
                let mid = s@.subrange(i as int, n as int);
                lemma_ws_tokens_front(mid, j - i);
                assert(mid.subrange(0, j - i) =~= s@.subrange(i as int, j as int));
                assert(mid.subrange(j - i, mid.len() as int) =~= s@.subrange(j as int, n as int));
            }
            let ghost old_out = out.deep_view();
            out.push(tok);
            proof {
                assert(out.deep_view() =~~= old_out + seq![tok@]);
                assert(ws_tokens(s@) =~~= out.deep_view() + ws_tokens(
                    s@.subrange(j as int, n as int),
                ));
            }
            i = j;
        }
    }
    proof {
        assert(ws_tokens(s@.subrange(n as int, n as int)) =~~= Seq::<Seq<char>>::empty());
        assert(ws_tokens(s@) =~~= out.deep_view());
    }
    out
}

/// The fields of `s` between commas, in order: the model of `str::split`
/// with a `','` pattern.  Adjacent commas yield empty fields, so the result
/// always has one more element than `s` has commas, and is never empty.
pub open spec fn comma_split(s: Seq<char>) -> Seq<Seq<char>>
    decreases s.len(),
{
    if s.len() == 0 {
        seq![Seq::<char>::empty()]
    } else if s[0] == ',' {
        seq![Seq::<char>::empty()] + comma_split(s.drop_first())
    } else {
        let rest = comma_split(s.drop_first());
        seq![seq![s[0]] + rest[0]] + rest.drop_first()
    }
}

/// Comma splitting always produces at least one field.
pub proof fn lemma_comma_split_nonempty(s: Seq<char>)
    ensures
        comma_split(s).len() >= 1,
    decreases s.len(),
{
    if s.len() > 0 {
        lemma_comma_split_nonempty(s.drop_first());
    }
}

/// A comma-free sequence is a single field.
proof fn lemma_comma_split_none(s: Seq<char>)
    requires
        forall|k: int| 0 <= k < s.len() ==> s[k] != ',',
    ensures
        comma_split(s) == seq![s],
    decreases s.len(),
{
    if s.len() == 0 {
        assert(comma_split(s) =~~= seq![s]);
    } else {
        let t = s.drop_first();
        lemma_comma_split_none(t);
        assert(seq![s[0]] + t =~= s);
        assert(comma_split(s) =~~= seq![s]);
    }
}

/// Splitting at the first comma: the prefix is the first field and the
/// suffix after the comma contributes the rest.
proof fn lemma_comma_split_at(s: Seq<char>, n: int)
    requires
        0 <= n < s.len(),
        s[n] == ',',
        forall|k: int| 0 <= k < n ==> s[k] != ',',
    ensures
        comma_split(s) == seq![s.subrange(0, n)] + comma_split(s.subrange(n + 1, s.len() as int)),
    decreases n,
{
    let t = s.drop_first();
    if n == 0 {
        assert(s.subrange(0, 0) =~= Seq::<char>::empty());
        assert(t =~= s.subrange(1, s.len() as int));
        assert(comma_split(s) =~~= seq![s.subrange(0, 0)] + comma_split(
            s.subrange(1, s.len() as int),
        ));
    } else {
        lemma_comma_split_at(t, n - 1);
        let rest = comma_split(t);
        assert(rest[0] == t.subrange(0, n - 1));
        assert(rest.drop_first() =~~= comma_split(t.subrange(n, t.len() as int)));
        assert(t.subrange(n, t.len() as int) =~= s.subrange(n + 1, s.len() as int));
        assert(seq![s[0]] + t.subrange(0, n - 1) =~= s.subrange(0, n));
        assert(comma_split(s) =~~= seq![s.subrange(0, n)] + comma_split(
            s.subrange(n + 1, s.len() as int),
        ));
    }
}

/// Splits on every comma, as `str::split(',')` does, keeping empty fields.
pub fn split_commas(s: &str) -> (r: Vec<String>)
    ensures
        r.deep_view() == comma_split(s@),
        r.len() >= 1,
{
    let n = s.unicode_len();
    let mut out: Vec<String> = Vec::new();
    let mut start: usize = 0;
    let mut j: usize = 0;
    proof {
        assert(s@.subrange(0, n as int) =~= s@);
        assert(comma_split(s@) =~~= out.deep_view() + comma_split(s@.subrange(0, n as int)));
    }
    while j < n
        invariant
            n == s@.len(),
            0 <= start <= j <= n,
            forall|k: int| start <= k < j ==> s@[k] != ',',
            comma_split(s@) == out.deep_view() + comma_split(s@.subrange(start as int, n as int)),
        decreases n - j,
    {
        if s.get_char(j) == ',' {
            let field = s.substring_char(start, j).to_owned();
            proof {
                let mid = s@.subrange(start as int, n as int);
                lemma_comma_split_at(mid, j - start);
                assert(mid.subrange(0, j - start) =~= s@.subrange(start as int, j as int));
                assert(mid.subrange(j - start + 1, mid.len() as int) =~= s@.subrange(
                    j + 1,
                    n as int,
                ));
            }
            let ghost old_out = out.deep_view();
            out.push(field);
            proof {
                assert(out.deep_view() =~~= old_out + seq![field@]);
                assert(comma_split(s@) =~~= out.deep_view() + comma_split(
                    s@.subrange(j + 1, n as int),
                ));
            }
            start = j + 1;
        }
        j = j + 1;
    }
    let last = s.substring_char(start, n).to_owned();
    proof {
        lemma_comma_split_none(s@.subrange(start as int, n as int));
    }
    let ghost old_out = out.deep_view();
    out.push(last);
    proof {
        assert(out.deep_view() =~~= old_out + seq![last@]);
        assert(comma_split(s@) =~~= out.deep_view());
    }
    out
}

/// The fields rejoined with single commas: the inverse of `comma_split`.
pub open spec fn join_commas(parts: Seq<Seq<char>>) -> Seq<char>
    decreases parts.len(),
{
    if parts.len() == 0 {
        Seq::empty()
    } else if parts.len() == 1 {
        parts[0]
    } else {
        parts[0] + seq![','] + join_commas(parts.drop_first())
    }
}

/// Splitting on commas loses nothing: rejoining the fields gives back the
/// original text.
pub proof fn lemma_join_comma_split(s: Seq<char>)
    ensures
        join_commas(comma_split(s)) == s,
    decreases s.len(),
{
    lemma_comma_split_nonempty(s);
    if s.len() == 0 {
        assert(join_commas(comma_split(s)) =~= s);
    } else {
        let t = s.drop_first();
        let rest = comma_split(t);
        lemma_comma_split_nonempty(t);
        lemma_join_comma_split(t);
        if s[0] == ',' {
            let parts = comma_split(s);
            assert(parts.len() == 1 + rest.len());
            assert(parts.drop_first() =~~= rest);
            assert(join_commas(parts) == parts[0] + seq![','] + join_commas(rest));
            assert(join_commas(parts) =~= s);
        } else {
            let parts = comma_split(s);
            if rest.len() == 1 {
                assert(parts.len() == 1);
                assert(join_commas(parts) == seq![s[0]] + rest[0]);
                assert(join_commas(rest) == rest[0]);
                assert(join_commas(parts) =~= s);
            } else {
                assert(parts.len() == rest.len() >= 2);
                assert(parts.drop_first() =~~= rest.drop_first());
                assert(join_commas(parts) == parts[0] + seq![','] + join_commas(
                    parts.drop_first(),
                ));
                assert(join_commas(rest) == rest[0] + seq![','] + join_commas(rest.drop_first()));
                assert(join_commas(parts) =~= seq![s[0]] + join_commas(rest));
                assert(join_commas(parts) =~= s);
            }
        }
    }
}

} // verus!
