//! Parsing of one data line into an [`Fstab`] record, and of a whole
//! sequence of raw lines into the mount table.

use vstd::prelude::*;
use crate::device::{classify_device, parse_device};
use crate::entry::{Error, ErrorModel, ErrorType, Fstab, FstabModel};
use crate::num::{parse_usize, spec_parse_usize};
use crate::text::{comma_split, split_commas, split_ws, trim, trim_str, ws_tokens};

verus! {

/// What parsing one data line returns.  The line is split on whitespace
/// runs; the first four tokens are the device, mount point, filesystem type
/// and comma-separated options, each required, and a missing one fails with
/// `FieldNotExist` at its index.  The optional fifth and sixth tokens are
/// the `dump` and `fsck` numerals; a malformed one fails with
/// `NumParseError`, checked before the token count, and an absent one
/// defaults `dump` to false and `fsck` to zero.  A line of more than six
/// tokens whose numerals are well formed fails with `TooManyFields`
/// carrying the whole line.
pub open spec fn spec_parse_line(s: Seq<char>) -> Result<FstabModel, ErrorModel> {
    let toks = ws_tokens(s);
    if toks.len() == 0 {
        Err(ErrorModel::FieldNotExist(0))
    } else if toks.len() == 1 {
        Err(ErrorModel::FieldNotExist(1))
    } else if toks.len() == 2 {
        Err(ErrorModel::FieldNotExist(2))
    } else if toks.len() == 3 {
        Err(ErrorModel::FieldNotExist(3))
    } else if toks.len() >= 5 && spec_parse_usize(toks[4]) is Err {
        Err(ErrorModel::NumParseError(spec_parse_usize(toks[4])->Err_0))
    } else if toks.len() >= 6 && spec_parse_usize(toks[5]) is Err {
        Err(ErrorModel::NumParseError(spec_parse_usize(toks[5])->Err_0))
    } else if toks.len() > 6 {
        Err(ErrorModel::TooManyFields(s))
    } else {
        Ok(
            FstabModel {
                device: classify_device(toks[0]),
                dir: toks[1],
                device_type: toks[2],
                options: comma_split(toks[3]),
                dump: toks.len() >= 5 && spec_parse_usize(toks[4])->Ok_0 != 0,
                fsck: if toks.len() >= 6 {
                    spec_parse_usize(toks[5])->Ok_0
                } else {
                    0
                },
            },
        )
    }
}

/// Parses one data line, as [`spec_parse_line`] describes.
pub fn parse_line(line: &str) -> (r: Result<Fstab, Error>)
    ensures
        (match r {
            Ok(f) => spec_parse_line(line@) == Ok::<FstabModel, ErrorModel>(f@),
            Err(e) => spec_parse_line(line@) == Err::<FstabModel, ErrorModel>(e@),
        }),
{
    let toks = split_ws(line);
    let nt = toks.len();
    if nt == 0 {
        return Err(Error { reason: ErrorType::FieldNotExist(0) });
    }
    if nt == 1 {
        return Err(Error { reason: ErrorType::FieldNotExist(1) });
    }
    if nt == 2 {
        return Err(Error { reason: ErrorType::FieldNotExist(2) });
    }
    if nt == 3 {
        return Err(Error { reason: ErrorType::FieldNotExist(3) });
    }
    let device = parse_device(toks[0].as_str());
    let dir = toks[1].clone();
    let device_type = toks[2].clone();
    let options = split_commas(toks[3].as_str());
    let dump = if nt >= 5 {
        match parse_usize(toks[4].as_str()) {
            Ok(v) => v > 0,
            Err(m) => {
                return Err(Error { reason: ErrorType::NumParseError(m) });
            },
        }
    } else {
        false
    };
    let fsck = if nt >= 6 {
        match parse_usize(toks[5].as_str()) {
            Ok(v) => v,
            Err(m) => {
                return Err(Error { reason: ErrorType::NumParseError(m) });
            },
        }
    } else {
        0
    };
    if nt > 6 {
        return Err(Error { reason: ErrorType::TooManyFields(line.to_owned()) });
    }
    Ok(Fstab { device, dir, device_type, options, dump, fsck })
}

/// A raw line the reader ignores: blank or a comment once trimmed.
pub open spec fn is_skippable(s: Seq<char>) -> bool {
    trim(s).len() == 0 || trim(s)[0] == '#'
}

/// What parsing a whole sequence of raw lines returns: each line is
/// trimmed, blank and comment lines are skipped, the rest are parsed in
/// file order, and the first failing line fails the whole parse.
pub open spec fn spec_parse_lines(lines: Seq<Seq<char>>) -> Result<Seq<FstabModel>, ErrorModel>
    decreases lines.len(),
{
    if lines.len() == 0 {
        Ok(Seq::empty())
    } else {
        let rest = spec_parse_lines(lines.drop_first());
        if is_skippable(lines[0]) {
            rest
        } else {
            match spec_parse_line(trim(lines[0])) {
                Err(e) => Err(e),
                Ok(f) => match rest {
                    Ok(fs) => Ok(seq![f] + fs),
                    Err(e) => Err(e),
                },
            }
        }
    }
}

/// The entries already parsed, put before whatever the remaining lines
/// yield.
spec fn with_parsed(
    acc: Seq<FstabModel>,
    rest: Result<Seq<FstabModel>, ErrorModel>,
) -> Result<Seq<FstabModel>, ErrorModel> {
    match rest {
        Ok(fs) => Ok(acc + fs),
        Err(e) => Err(e),
    }
}

/// Parses raw file lines into the mount table, as [`spec_parse_lines`]
/// describes.
pub fn parse_lines(lines: &Vec<String>) -> (r: Result<Vec<Fstab>, Error>)
    ensures
        (match r {
            Ok(fs) => spec_parse_lines(lines.deep_view()) == Ok::<Seq<FstabModel>, ErrorModel>(
                fs.deep_view(),
            ),
            Err(e) => spec_parse_lines(lines.deep_view()) == Err::<Seq<FstabModel>, ErrorModel>(
                e@,
            ),
        }),
{
    let ghost lv = lines.deep_view();
    let mut out: Vec<Fstab> = Vec::new();
    let mut i: usize = 0;
    proof {
        assert(lv.skip(0) =~= lv);
        assert(with_parsed(out.deep_view(), spec_parse_lines(lv)) == spec_parse_lines(lv));
    }
    while i < lines.len()
        invariant
            lv == lines.deep_view(),
            0 <= i <= lines@.len(),
            lv.len() == lines@.len(),
            spec_parse_lines(lv) == with_parsed(
                out.deep_view(),
                spec_parse_lines(lv.skip(i as int)),
            ),
        decreases lines@.len() - i,
    {
        let t = trim_str(lines[i].as_str());
        let tn = t.unicode_len();
        proof {
            assert(lv.skip(i as int)[0] == lv[i as int]);
            assert(lv.skip(i as int).drop_first() =~= lv.skip(i + 1));
            assert(t@ == trim(lv[i as int]));
        }
        if tn == 0 || t.get_char(0) == '#' {
            proof {
                assert(is_skippable(lv[i as int]));
            }
        } else {
            proof {
                assert(!is_skippable(lv[i as int]));
            }
            match parse_line(t) {
                Ok(f) => {
                    let ghost old_out = out.deep_view();
                    out.push(f);
                    proof {
                        assert(out.deep_view() =~= old_out.push(f@));
                        let rest2 = spec_parse_lines(lv.skip(i + 1));
                        assert(spec_parse_lines(lv.skip(i as int)) == (match rest2 {
                            Ok(fs) => Ok::<Seq<FstabModel>, ErrorModel>(seq![f@] + fs),
                            Err(e) => Err::<Seq<FstabModel>, ErrorModel>(e),
                        }));
                        match rest2 {
                            Ok(fs) => {
                                assert(old_out + (seq![f@] + fs) =~= out.deep_view() + fs);
                            },
                            Err(e) => {},
                        }
                        assert(spec_parse_lines(lv) == with_parsed(out.deep_view(), rest2));
                    }
                },
                Err(e) => {
                    proof {
                        assert(spec_parse_lines(lv.skip(i as int)) == Err::<
                            Seq<FstabModel>,
                            ErrorModel,
                        >(e@));
                        assert(spec_parse_lines(lv) == Err::<Seq<FstabModel>, ErrorModel>(e@));
                    }
                    return Err(e);
                },
            }
        }
        i = i + 1;
    }
    proof {
        assert(lv.skip(lv.len() as int) =~= Seq::<Seq<char>>::empty());
        assert(out.deep_view() + Seq::<FstabModel>::empty() =~= out.deep_view());
        assert(spec_parse_lines(lv) == Ok::<Seq<FstabModel>, ErrorModel>(out.deep_view()));
    }
    Ok(out)
}

} // verus!
