//! The guarantees of the parser that relate several of its functions,
//! stated over the models and proved once and for all.

use vstd::prelude::*;
use crate::device::{classify_device, DeviceModel};
use crate::entry::{ErrorModel, FstabModel};
use crate::num::spec_parse_usize;
use crate::parser::{is_skippable, spec_parse_line, spec_parse_lines};
use crate::text::{comma_split, join_commas, lemma_join_comma_split, trim, ws_tokens};

verus! {

/// A `UUID=` device field round-trips: the payload is the text after the
/// prefix, and prefix plus payload give back the field.
pub proof fn lemma_classify_uuid_round_trip(s: Seq<char>)
    requires
        "UUID="@.is_prefix_of(s),
    ensures
        classify_device(s) == DeviceModel::Uuid(s.skip(5)),
        "UUID="@ + s.skip(5) == s,
{
    reveal_strlit("UUID=");
    assert("UUID="@ + s.skip(5) =~= s);
}

/// A `LABEL=` device field round-trips: the payload is the text after the
/// prefix, and prefix plus payload give back the field.
pub proof fn lemma_classify_label_round_trip(s: Seq<char>)
    requires
        "LABEL="@.is_prefix_of(s),
    ensures
        classify_device(s) == DeviceModel::Label(s.skip(6)),
        "LABEL="@ + s.skip(6) == s,
{
    reveal_strlit("UUID=");
    reveal_strlit("LABEL=");
    assert("LABEL="@.len() == 6);
    assert("LABEL="@ =~= s.subrange(0, 6));
    assert(s[0] == "LABEL="@[0]);
    assert("UUID="@.is_prefix_of(s) ==> s[0] == "UUID="@[0]);
    assert(!"UUID="@.is_prefix_of(s));
    assert("LABEL="@ + s.skip(6) =~= s);
}

/// A six-token line with well-formed numerals parses, and the four
/// positional string fields come through exactly: the mount point and the
/// filesystem type unchanged, the device as its classification, and the
/// options so that rejoining them with commas gives back the raw field.
pub proof fn lemma_valid_line_round_trip(s: Seq<char>)
    requires
        ws_tokens(s).len() == 6,
        spec_parse_usize(ws_tokens(s)[4]) is Ok,
        spec_parse_usize(ws_tokens(s)[5]) is Ok,
    ensures
        spec_parse_line(s) is Ok,
        spec_parse_line(s)->Ok_0.device == classify_device(ws_tokens(s)[0]),
        spec_parse_line(s)->Ok_0.dir == ws_tokens(s)[1],
        spec_parse_line(s)->Ok_0.device_type == ws_tokens(s)[2],
        spec_parse_line(s)->Ok_0.options == comma_split(ws_tokens(s)[3]),
        join_commas(spec_parse_line(s)->Ok_0.options) == ws_tokens(s)[3],
{
    lemma_join_comma_split(ws_tokens(s)[3]);
}

/// A four-token line parses with the optional fields at their defaults:
/// `dump` false and `fsck` zero.
pub proof fn lemma_four_token_line_defaults(s: Seq<char>)
    requires
        ws_tokens(s).len() == 4,
    ensures
        spec_parse_line(s) is Ok,
        spec_parse_line(s)->Ok_0.dump == false,
        spec_parse_line(s)->Ok_0.fsck == 0,
{
}

/// On a five-token line with a well-formed fifth token, `dump` is true
/// exactly when that numeral is nonzero, and `fsck` stays zero.
pub proof fn lemma_dump_flag(s: Seq<char>)
    requires
        ws_tokens(s).len() == 5,
        spec_parse_usize(ws_tokens(s)[4]) is Ok,
    ensures
        spec_parse_line(s) is Ok,
        spec_parse_line(s)->Ok_0.dump == (spec_parse_usize(ws_tokens(s)[4])->Ok_0 != 0),
        spec_parse_line(s)->Ok_0.fsck == 0,
{
}

/// A line of more than six tokens whose numerals are well formed fails
/// with `TooManyFields`, and the payload is the whole line, verbatim.
pub proof fn lemma_too_many_fields(s: Seq<char>)
    requires
        ws_tokens(s).len() > 6,
        spec_parse_usize(ws_tokens(s)[4]) is Ok,
        spec_parse_usize(ws_tokens(s)[5]) is Ok,
    ensures
        spec_parse_line(s) == Err::<FstabModel, ErrorModel>(ErrorModel::TooManyFields(s)),
{
}

/// A line of fewer than four tokens fails with `FieldNotExist` at the
/// index of the first missing required field, which is the token count.
pub proof fn lemma_missing_required_field(s: Seq<char>)
    requires
        ws_tokens(s).len() < 4,
    ensures
        spec_parse_line(s) == Err::<FstabModel, ErrorModel>(
            ErrorModel::FieldNotExist(ws_tokens(s).len() as int),
        ),
{
}

/// An entry never has an empty option list: the options field always
/// splits into at least one element, possibly the empty string.
pub proof fn lemma_options_never_empty(s: Seq<char>)
    requires
        spec_parse_line(s) is Ok,
    ensures
        spec_parse_line(s)->Ok_0.options.len() >= 1,
{
    crate::text::lemma_comma_split_nonempty(ws_tokens(s)[3]);
}

/// Blank and comment lines neither contribute entries nor cause errors:
/// removing one from the input leaves the result of the parse unchanged.
pub proof fn lemma_skippable_line_ignored(lines: Seq<Seq<char>>, i: int)
    requires
        0 <= i < lines.len(),
        is_skippable(lines[i]),
    ensures
        spec_parse_lines(lines) == spec_parse_lines(lines.remove(i)),
    decreases i,
{
    if i == 0 {
        assert(lines.remove(0) =~= lines.drop_first());
    } else {
        let t = lines.drop_first();
        lemma_skippable_line_ignored(t, i - 1);
        assert(lines.remove(i)[0] == lines[0]);
        assert(lines.remove(i).drop_first() =~= t.remove(i - 1));
    }
}

/// The data lines of a raw input: each line trimmed, with the blank and
/// comment lines left out, in file order.
pub open spec fn data_lines(lines: Seq<Seq<char>>) -> Seq<Seq<char>>
    decreases lines.len(),
{
    if lines.len() == 0 {
        Seq::empty()
    } else if is_skippable(lines[0]) {
        data_lines(lines.drop_first())
    } else {
        seq![trim(lines[0])] + data_lines(lines.drop_first())
    }
}

/// A file whose data lines all parse yields exactly one entry per data
/// line, in file order.
pub proof fn lemma_all_valid_lines_parse(lines: Seq<Seq<char>>)
    requires
        forall|k: int|
            0 <= k < data_lines(lines).len() ==> spec_parse_line(data_lines(lines)[k]) is Ok,
    ensures
        spec_parse_lines(lines) is Ok,
        spec_parse_lines(lines)->Ok_0.len() == data_lines(lines).len(),
        forall|k: int|
            0 <= k < data_lines(lines).len() ==> spec_parse_lines(lines)->Ok_0[k]
                == spec_parse_line(data_lines(lines)[k])->Ok_0,
    decreases lines.len(),
{
    if lines.len() == 0 {
    } else {
        let t = lines.drop_first();
        if is_skippable(lines[0]) {
            lemma_all_valid_lines_parse(t);
        } else {
            let d = data_lines(lines);
            let dt = data_lines(t);
            assert(d == seq![trim(lines[0])] + dt);
            assert(forall|k: int| 0 <= k < dt.len() ==> dt[k] == d[k + 1]);
            assert(forall|k: int| 0 <= k < dt.len() ==> spec_parse_line(dt[k]) is Ok);
            lemma_all_valid_lines_parse(t);
            let f = spec_parse_line(trim(lines[0]))->Ok_0;
            let fs = spec_parse_lines(t)->Ok_0;
            assert(d[0] == trim(lines[0]));
            assert(spec_parse_line(trim(lines[0])) is Ok);
            assert(spec_parse_lines(lines) == Ok::<Seq<FstabModel>, ErrorModel>(seq![f] + fs));
            assert(forall|k: int| 1 <= k < d.len() ==> (seq![f] + fs)[k] == fs[k - 1]);
        }
    }
}

} // verus!
