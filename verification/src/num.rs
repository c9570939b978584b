//! Decimal parsing of the `dump` and `fsck` fields: an unsigned numeral
//! with an optional leading `+`, rejected on any other character or when
//! the value does not fit in `usize`.

use vstd::prelude::*;

verus! {

/// An ASCII decimal digit.
pub open spec fn is_digit(c: char) -> bool {
    '0' <= c && c <= '9'
}

/// The numeric value of one digit.
pub open spec fn digit_val(c: char) -> int {
    c as int - '0' as int
}

/// The value of a digit string read in base ten.
pub open spec fn dec_val(s: Seq<char>) -> int
    decreases s.len(),
{
    if s.len() == 0 {
        0
    } else {
        dec_val(s.drop_last()) * 10 + digit_val(s.last())
    }
}

/// The digits of a numeral: the text with an optional leading `+` removed.
pub open spec fn numeral_digits(s: Seq<char>) -> Seq<char> {
    if s.len() > 0 && s[0] == '+' {
        s.drop_first()
    } else {
        s
    }
}

/// A well-formed unsigned decimal numeral: at least one digit, nothing but
/// digits after the optional sign.
pub open spec fn is_numeral(s: Seq<char>) -> bool {
    &&& numeral_digits(s).len() > 0
    &&& forall|k: int| 0 <= k < numeral_digits(s).len() ==> is_digit(numeral_digits(s)[k])
}

/// The failure description for a text that does not parse: empty input,
/// a stray character, or a value too large for `usize`.
pub open spec fn num_fail_msg(s: Seq<char>) -> Seq<char> {
    if s.len() == 0 {
        "cannot parse integer from empty string"@
    } else if !is_numeral(s) {
        "invalid digit found in string"@
    } else {
        "number too large to fit in target type"@
    }
}

/// What parsing an unsigned decimal returns: the value when the text is a
/// numeral that fits in `usize`, and the failure description otherwise.
pub open spec fn spec_parse_usize(s: Seq<char>) -> Result<int, Seq<char>> {
    if is_numeral(s) && dec_val(numeral_digits(s)) <= usize::MAX {
        Ok(dec_val(numeral_digits(s)))
    } else {
        Err(num_fail_msg(s))
    }
}

/// A digit string has a non-negative value.
proof fn lemma_dec_val_nonneg(s: Seq<char>)
    requires
        forall|k: int| 0 <= k < s.len() ==> is_digit(s[k]),
    ensures
        dec_val(s) >= 0,
    decreases s.len(),
{
    if s.len() > 0 {
        lemma_dec_val_nonneg(s.drop_last());
    }
}

/// Reading one more digit multiplies the prefix value by ten and adds it.
proof fn lemma_dec_val_take_succ(s: Seq<char>, i: int)
    requires
        0 <= i < s.len(),
    ensures
        dec_val(s.take(i + 1)) == dec_val(s.take(i)) * 10 + digit_val(s[i]),
{
    assert(s.take(i + 1).drop_last() =~= s.take(i));
    assert(s.take(i + 1).last() == s[i]);
}

/// The value of a digit string dominates the value of each of its prefixes.
proof fn lemma_dec_val_prefix_le(s: Seq<char>, i: int)
    requires
        0 <= i <= s.len(),
        forall|k: int| 0 <= k < s.len() ==> is_digit(s[k]),
    ensures
        dec_val(s.take(i)) <= dec_val(s),
    decreases s.len(),
{
    if i == s.len() {
        assert(s.take(i) =~= s);
    } else {
        let t = s.drop_last();
        lemma_dec_val_nonneg(t);
        lemma_dec_val_prefix_le(t, i);
        assert(s.take(i) =~= t.take(i));
        assert(dec_val(t) * 10 >= dec_val(t));
        assert(digit_val(s.last()) >= 0);
    }
}

/// Parses an unsigned decimal numeral, as `str::parse::<usize>` does:
/// an optional `+` sign, then digits.  Returns the failure description
/// on empty input, a stray character, or overflow.
pub fn parse_usize(s: &str) -> (r: Result<usize, String>)
    ensures
        (match spec_parse_usize(s@) {
            Ok(v) => r matches Ok(u) && u == v,
            Err(m) => r matches Err(e) && e@ == m,
        }),
{
    let n = s.unicode_len();
    if n == 0 {
        return Err("cannot parse integer from empty string".to_owned());
    }
    let off: usize = if s.get_char(0) == '+' {
        1
    } else {
        0
    };
    if n == off {
        return Err("invalid digit found in string".to_owned());
    }
    let ghost dg = numeral_digits(s@);
    proof {
        assert(dg =~= s@.subrange(off as int, n as int));
    }
    let mut i: usize = off;
    while i < n
        invariant
            n == s@.len(),
            off <= i <= n,
            dg == s@.subrange(off as int, n as int),
            dg == numeral_digits(s@),
            forall|k: int| off <= k < i ==> is_digit(s@[k]),
        decreases n - i,
    {
        let c = s.get_char(i);
        if !(c >= '0' && c <= '9') {
            proof {
                assert(numeral_digits(s@)[i - off] == c);
                assert(!is_numeral(s@));
            }
            return Err("invalid digit found in string".to_owned());
        }
        i = i + 1;
    }
    assert(is_numeral(s@));
    let mut acc: usize = 0;
    i = off;
    proof {
        assert(dg.take(0) =~= Seq::<char>::empty());
    }
    while i < n
        invariant
            n == s@.len(),
            off <= i <= n,
            dg == s@.subrange(off as int, n as int),
            dg == numeral_digits(s@),
            forall|k: int| 0 <= k < dg.len() ==> is_digit(dg[k]),
            acc == dec_val(dg.take(i - off)),
        decreases n - i,
    {
        let c = s.get_char(i);
        assert(c == dg[i - off]);
        let d = (c as u32 - 48) as usize;
        assert(d == digit_val(dg[i - off]));
        proof {
            lemma_dec_val_take_succ(dg, i - off);
        }
        if acc > usize::MAX / 10 {
            proof {
                assert(dec_val(dg.take(i - off + 1)) > usize::MAX);
                lemma_dec_val_prefix_le(dg, i - off + 1);
                assert(numeral_digits(s@).len() > 0);
                assert(is_numeral(s@));
                assert(dec_val(numeral_digits(s@)) > usize::MAX);
            }
            return Err("number too large to fit in target type".to_owned());
        }
        let acc10 = acc * 10;
        if d > usize::MAX - acc10 {
            proof {
                assert(dec_val(dg.take(i - off + 1)) > usize::MAX);
                lemma_dec_val_prefix_le(dg, i - off + 1);
                assert(numeral_digits(s@).len() > 0);
                assert(is_numeral(s@));
                assert(dec_val(numeral_digits(s@)) > usize::MAX);
            }
            return Err("number too large to fit in target type".to_owned());
        }
        acc = acc10 + d;
        i = i + 1;
    }
    proof {
        assert(dg.take(n - off) =~= dg);
    }
    Ok(acc)
}

} // verus!
