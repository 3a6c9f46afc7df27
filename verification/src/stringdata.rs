//! StringData: five optional length-prefixed strings, each present
//! exactly when its flag bit in the header says so, and encoded as the
//! header's IS_UNICODE bit selects.

use vstd::prelude::*;

use crate::bytes::Decoded;
use crate::flags::LinkFlags;
use crate::strings::{
    lemma_parse_sized_string_at, parse_sized_string, read_sized_string, sized_string_bytes,
    write_sized_string, CodePage, StringEncoding,
};
use crate::Error;

verus! {

/// The five optional string slots, in their stored order.
#[derive(Clone, Debug, PartialEq, Eq)]
pub struct StringData {
    pub name_string: Option<String>,
    pub relative_path: Option<String>,
    pub working_dir: Option<String>,
    pub command_line_arguments: Option<String>,
    pub icon_location: Option<String>,
}

impl Default for StringData {
    /// Every slot absent.
    fn default() -> (r: Self)
        ensures
            r.name_string is None,
            r.relative_path is None,
            r.working_dir is None,
            r.command_line_arguments is None,
            r.icon_location is None,
    {
        StringData {
            name_string: None,
            relative_path: None,
            working_dir: None,
            command_line_arguments: None,
            icon_location: None,
        }
    }
}

/// The character view of an optional string.
pub open spec fn opt_view(v: Option<String>) -> Option<Seq<char>> {
    match v {
        Some(s) => Some(s@),
        None => None,
    }
}

/// The character views of the five slots, in their stored order.
pub open spec fn slot_views(sd: StringData) -> Seq<Option<Seq<char>>> {
    seq![
        opt_view(sd.name_string),
        opt_view(sd.relative_path),
        opt_view(sd.working_dir),
        opt_view(sd.command_line_arguments),
        opt_view(sd.icon_location),
    ]
}

/// Which slots the flags declare present, in their stored order.
pub open spec fn slot_flags(flags: LinkFlags) -> Seq<bool> {
    seq![
        flags.spec_has_name(),
        flags.spec_has_relative_path(),
        flags.spec_has_working_dir(),
        flags.spec_has_arguments(),
        flags.spec_has_icon_location(),
    ]
}

/// Each slot is present exactly when its flag bit is set.
pub open spec fn consistent(sd: StringData, flags: LinkFlags) -> bool {
    forall|k: int| 0 <= k < 5 ==> (#[trigger] slot_views(sd)[k] is Some) == slot_flags(flags)[k]
}

/// Parses one optional slot at `i`: nothing where the flag is clear,
/// else a length-prefixed string.
pub open spec fn parse_slot(s: Seq<u8>, i: int, present: bool, enc: StringEncoding) -> Decoded<
    Option<Seq<char>>,
> {
    if !present {
        Decoded::Found(None, i)
    } else {
        match parse_sized_string(s, i, enc) {
            Decoded::Found(cs, e) => Decoded::Found(Some(cs), e),
            Decoded::Fail(o) => Decoded::Fail(o),
        }
    }
}

/// Parses the slots from the `k`th on, one after another, from `i`.
pub open spec fn parse_slots_from(
    s: Seq<u8>,
    i: int,
    flags: LinkFlags,
    enc: StringEncoding,
    k: int,
) -> Decoded<Seq<Option<Seq<char>>>>
    decreases 5 - k,
{
    if k >= 5 {
        Decoded::Found(Seq::empty(), i)
    } else {
        match parse_slot(s, i, slot_flags(flags)[k], enc) {
            Decoded::Found(v, e) => match parse_slots_from(s, e, flags, enc, k + 1) {
                Decoded::Found(rest, end) => Decoded::Found(seq![v] + rest, end),
                Decoded::Fail(o) => Decoded::Fail(o),
            },
            Decoded::Fail(o) => Decoded::Fail(o),
        }
    }
}

/// Parses a whole StringData section at `i`, under the given flags.
#[verifier::opaque]
pub open spec fn parse_string_data(s: Seq<u8>, i: int, flags: LinkFlags, cp: CodePage) -> Decoded<
    Seq<Option<Seq<char>>>,
> {
    parse_slots_from(s, i, flags, StringEncoding::spec_from_flags(flags, cp), 0)
}

/// A successful slot parse carries over to any byte sequence holding
/// the same bytes at another position.
pub proof fn lemma_parse_slot_at(
    s1: Seq<u8>,
    i1: int,
    s2: Seq<u8>,
    i2: int,
    v: Option<Seq<char>>,
    e1: int,
    present: bool,
    enc: StringEncoding,
)
    requires
        parse_slot(s1, i1, present, enc) == Decoded::Found(v, e1),
        0 <= i1 <= e1 <= s1.len(),
        0 <= i2,
        i2 + (e1 - i1) <= s2.len(),
        s2.subrange(i2, i2 + (e1 - i1)) == s1.subrange(i1, e1),
    ensures
        parse_slot(s2, i2, present, enc) == Decoded::Found(v, i2 + (e1 - i1)),
{
    if present {
        match parse_sized_string(s1, i1, enc) {
            Decoded::Found(cs, e) => {
                lemma_parse_sized_string_at(s1, i1, s2, i2, cs, e1, enc);
            },
            Decoded::Fail(_) => {},
        }
    }
}

/// A successful section parse carries over to any byte sequence
/// holding the same bytes at another position.
#[verifier::spinoff_prover]
#[verifier::rlimit(100)]
pub proof fn lemma_parse_string_data_at(
    s1: Seq<u8>,
    i1: int,
    s2: Seq<u8>,
    i2: int,
    vs: Seq<Option<Seq<char>>>,
    e1: int,
    flags: LinkFlags,
    cp: CodePage,
)
    requires
        parse_string_data(s1, i1, flags, cp) == Decoded::Found(vs, e1),
        0 <= i1 <= e1 <= s1.len(),
        0 <= i2,
        i2 + (e1 - i1) <= s2.len(),
        s2.subrange(i2, i2 + (e1 - i1)) == s1.subrange(i1, e1),
    ensures
        parse_string_data(s2, i2, flags, cp) == Decoded::Found(vs, i2 + (e1 - i1)),
{
    reveal(parse_string_data);
    let enc = StringEncoding::spec_from_flags(flags, cp);
    let d = i2 - i1;
    match parse_slot(s1, i1, slot_flags(flags)[0], enc) {
        Decoded::Found(v0, f0) => {
            match parse_slot(s1, f0, slot_flags(flags)[1], enc) {
                Decoded::Found(v1, f1) => {
                    match parse_slot(s1, f1, slot_flags(flags)[2], enc) {
                        Decoded::Found(v2, f2) => {
                            match parse_slot(s1, f2, slot_flags(flags)[3], enc) {
                                Decoded::Found(v3, f3) => {
                                    match parse_slot(s1, f3, slot_flags(flags)[4], enc) {
                                        Decoded::Found(v4, f4) => {
                                            lemma_chain_slots(
                                                s1,
                                                i1,
                                                flags,
                                                cp,
                                                enc,
                                                seq![v0, v1, v2, v3, v4],
                                                seq![f0, f1, f2, f3, f4],
                                            );
                                            assert(vs =~= seq![v0, v1, v2, v3, v4]);
                                            assert(f4 == e1);
                                            lemma_slots_monotone(s1, i1, flags, cp, enc, vs, e1);
                                            assert(i1 <= f0 <= f1 <= f2 <= f3 <= f4);
                                            assert forall|a: int, b: int|
                                                i1 <= a <= b <= e1 implies #[trigger] s2.subrange(
                                                a + d,
                                                b + d,
                                            ) == s1.subrange(a, b) by {
                                                assert(s2.subrange(a + d, b + d) =~= s1.subrange(
                                                    a,
                                                    b,
                                                )) by {
                                                    assert forall|k: int|
                                                        0 <= k < b - a implies s2.subrange(
                                                        a + d,
                                                        b + d,
                                                    )[k] == #[trigger] s1.subrange(a, b)[k] by {
                                                        assert(s2.subrange(a + d, b + d)[k] == s2[a
                                                            + d + k]);
                                                        assert(s1.subrange(a, b)[k] == s1[a + k]);
                                                        assert(s2.subrange(i2, i2 + (e1 - i1))[a
                                                            + k - i1] == s2[i2 + (a + k - i1)]);
                                                        assert(s1.subrange(i1, e1)[a + k - i1]
                                                            == s1[a + k]);
                                                    }
                                                }
                                            }
                                            lemma_parse_slot_at(
                                                s1,
                                                i1,
                                                s2,
                                                i1 + d,
                                                v0,
                                                f0,
                                                slot_flags(flags)[0],
                                                enc,
                                            );
                                            lemma_parse_slot_at(
                                                s1,
                                                f0,
                                                s2,
                                                f0 + d,
                                                v1,
                                                f1,
                                                slot_flags(flags)[1],
                                                enc,
                                            );
                                            lemma_parse_slot_at(
                                                s1,
                                                f1,
                                                s2,
                                                f1 + d,
                                                v2,
                                                f2,
                                                slot_flags(flags)[2],
                                                enc,
                                            );
                                            lemma_parse_slot_at(
                                                s1,
                                                f2,
                                                s2,
                                                f2 + d,
                                                v3,
                                                f3,
                                                slot_flags(flags)[3],
                                                enc,
                                            );
                                            lemma_parse_slot_at(
                                                s1,
                                                f3,
                                                s2,
                                                f3 + d,
                                                v4,
                                                f4,
                                                slot_flags(flags)[4],
                                                enc,
                                            );
                                            lemma_chain_slots(
                                                s2,
                                                i2,
                                                flags,
                                                cp,
                                                enc,
                                                seq![v0, v1, v2, v3, v4],
                                                seq![f0 + d, f1 + d, f2 + d, f3 + d, f4 + d],
                                            );
                                        },
                                        Decoded::Fail(_) => {
                                            assert(parse_slots_from(s1, f3, flags, enc, 4)
                                                is Fail);
                                            assert(parse_slots_from(s1, f2, flags, enc, 3)
                                                is Fail);
                                            assert(parse_slots_from(s1, f1, flags, enc, 2)
                                                is Fail);
                                            assert(parse_slots_from(s1, f0, flags, enc, 1)
                                                is Fail);
                                            assert(parse_slots_from(s1, i1, flags, enc, 0)
                                                is Fail);
                                        },
                                    }
                                },
                                Decoded::Fail(_) => {
                                    assert(parse_slots_from(s1, f2, flags, enc, 3) is Fail);
                                    assert(parse_slots_from(s1, f1, flags, enc, 2) is Fail);
                                    assert(parse_slots_from(s1, f0, flags, enc, 1) is Fail);
                                    assert(parse_slots_from(s1, i1, flags, enc, 0) is Fail);
                                },
                            }
                        },
                        Decoded::Fail(_) => {
                            assert(parse_slots_from(s1, f1, flags, enc, 2) is Fail);
                            assert(parse_slots_from(s1, f0, flags, enc, 1) is Fail);
                            assert(parse_slots_from(s1, i1, flags, enc, 0) is Fail);
                        },
                    }
                },
                Decoded::Fail(_) => {
                    assert(parse_slots_from(s1, f0, flags, enc, 1) is Fail);
                    assert(parse_slots_from(s1, i1, flags, enc, 0) is Fail);
                },
            }
        },
        Decoded::Fail(_) => {
            assert(parse_slots_from(s1, i1, flags, enc, 0) is Fail);
        },
    }
}

/// The slot boundaries of a successful parse sit between its start and
/// its end, in order.
proof fn lemma_slots_monotone(
    s: Seq<u8>,
    i: int,
    flags: LinkFlags,
    cp: CodePage,
    enc: StringEncoding,
    vs: Seq<Option<Seq<char>>>,
    e: int,
)
    requires
        0 <= i <= s.len(),
        enc == StringEncoding::spec_from_flags(flags, cp),
        parse_string_data(s, i, flags, cp) == Decoded::Found(vs, e),
    ensures
        forall|j: int, x: int|
            0 <= j < 5 && i <= x <= s.len() ==> (#[trigger] parse_slot(
                s,
                x,
                slot_flags(flags)[j],
                enc,
            ) matches Decoded::Found(v, f) ==> x <= f <= s.len()),
{
    reveal(crate::strings::parse_sized_string);
}

/// Reads a StringData section at `pos`: each of the five slots in turn,
/// where its flag is set, in the encoding the flags select.
#[verifier::spinoff_prover]
#[verifier::rlimit(100)]
pub fn read_string_data(data: &[u8], pos: usize, flags: &LinkFlags, cp: CodePage) -> (r: Result<
    (StringData, usize),
    Error,
>)
    requires
        pos <= data@.len(),
    ensures
        match r {
            Ok((sd, end)) => {
                &&& pos <= end <= data@.len()
                &&& consistent(sd, *flags)
                &&& parse_string_data(data@, pos as int, *flags, cp) == Decoded::Found(
                    slot_views(sd),
                    end as int,
                )
                &&& string_data_bytes(sd, *flags, cp) == Some(
                    data@.subrange(pos as int, end as int),
                )
            },
            Err(e) => {
                &&& parse_string_data(data@, pos as int, *flags, cp) matches Decoded::Fail(o)
                &&& e matches Error::Parse { offset, .. } && offset == o
            },
        },
{
    let n = data.len();
    let enc = StringEncoding::from_flags(flags, cp);
    let ghost s = data@;
    let ghost i = pos as int;

    let (name_string, c1) = match read_slot(data, pos, flags.contains(crate::flags::HAS_NAME),
        enc) {
        Ok(v) => v,
        Err(e) => {
            proof {
                reveal(parse_string_data);
            }
            return Err(e);
        },
    };
    let (relative_path, c2) = match read_slot(data, c1, flags.contains(
        crate::flags::HAS_RELATIVE_PATH), enc) {
        Ok(v) => v,
        Err(e) => {
            proof {
                lemma_chain_fail(s, i, *flags, cp, enc, seq![c1 as int], 1);
            }
            return Err(e);
        },
    };
    let (working_dir, c3) = match read_slot(data, c2, flags.contains(
        crate::flags::HAS_WORKING_DIR), enc) {
        Ok(v) => v,
        Err(e) => {
            proof {
                lemma_chain_fail(s, i, *flags, cp, enc, seq![c1 as int, c2 as int], 2);
            }
            return Err(e);
        },
    };
    let (command_line_arguments, c4) = match read_slot(data, c3, flags.contains(
        crate::flags::HAS_ARGUMENTS), enc) {
        Ok(v) => v,
        Err(e) => {
            proof {
                lemma_chain_fail(s, i, *flags, cp, enc, seq![c1 as int, c2 as int, c3 as int], 3);
            }
            return Err(e);
        },
    };
    let (icon_location, c5) = match read_slot(data, c4, flags.contains(
        crate::flags::HAS_ICON_LOCATION), enc) {
        Ok(v) => v,
        Err(e) => {
            proof {
                lemma_chain_fail(
                    s,
                    i,
                    *flags,
                    cp,
                    enc,
                    seq![c1 as int, c2 as int, c3 as int, c4 as int],
                    4,
                );
            }
            return Err(e);
        },
    };
    let sd = StringData {
        name_string,
        relative_path,
        working_dir,
        command_line_arguments,
        icon_location,
    };
    proof {
        lemma_chain_slots(
            s,
            i,
            *flags,
            cp,
            enc,
            slot_views(sd),
            seq![c1 as int, c2 as int, c3 as int, c4 as int, c5 as int],
        );
        lemma_cat_regions(
            s,
            i,
            c1 as int,
            c2 as int,
            c3 as int,
            c4 as int,
            c5 as int,
            sd,
            *flags,
            cp,
            enc,
        );
    }
    Ok((sd, c5))
}

/// Five slot parses, one starting where the last ended, chain into a
/// parse of the whole section.
proof fn lemma_chain_slots(
    s: Seq<u8>,
    i: int,
    flags: LinkFlags,
    cp: CodePage,
    enc: StringEncoding,
    vs: Seq<Option<Seq<char>>>,
    ends: Seq<int>,
)
    requires
        vs.len() == 5,
        ends.len() == 5,
        enc == StringEncoding::spec_from_flags(flags, cp),
        parse_slot(s, i, slot_flags(flags)[0], enc) == Decoded::Found(vs[0], ends[0]),
        parse_slot(s, ends[0], slot_flags(flags)[1], enc) == Decoded::Found(vs[1], ends[1]),
        parse_slot(s, ends[1], slot_flags(flags)[2], enc) == Decoded::Found(vs[2], ends[2]),
        parse_slot(s, ends[2], slot_flags(flags)[3], enc) == Decoded::Found(vs[3], ends[3]),
        parse_slot(s, ends[3], slot_flags(flags)[4], enc) == Decoded::Found(vs[4], ends[4]),
    ensures
        parse_string_data(s, i, flags, cp) == Decoded::Found(vs, ends[4]),
{
    reveal(parse_string_data);
    assert(parse_slots_from(s, ends[4], flags, enc, 5) == Decoded::Found(
        Seq::<Option<Seq<char>>>::empty(),
        ends[4],
    ));
    assert(parse_slots_from(s, ends[3], flags, enc, 4) == Decoded::Found(seq![vs[4]], ends[4]))
        by {
        assert(seq![vs[4]] + Seq::<Option<Seq<char>>>::empty() =~= seq![vs[4]]);
    }
    assert(parse_slots_from(s, ends[2], flags, enc, 3) == Decoded::Found(
        seq![vs[3], vs[4]],
        ends[4],
    )) by {
        assert(seq![vs[3]] + seq![vs[4]] =~= seq![vs[3], vs[4]]);
    }
    assert(parse_slots_from(s, ends[1], flags, enc, 2) == Decoded::Found(
        seq![vs[2], vs[3], vs[4]],
        ends[4],
    )) by {
        assert(seq![vs[2]] + seq![vs[3], vs[4]] =~= seq![vs[2], vs[3], vs[4]]);
    }
    assert(parse_slots_from(s, ends[0], flags, enc, 1) == Decoded::Found(
        seq![vs[1], vs[2], vs[3], vs[4]],
        ends[4],
    )) by {
        assert(seq![vs[1]] + seq![vs[2], vs[3], vs[4]] =~= seq![vs[1], vs[2], vs[3], vs[4]]);
    }
    assert(parse_slots_from(s, i, flags, enc, 0) == Decoded::Found(vs, ends[4])) by {
        assert(seq![vs[0]] + seq![vs[1], vs[2], vs[3], vs[4]] =~= vs);
    }
}

/// Where the slots before `k` each parse and the `k`th fails, the
/// whole section fails at the same offset.
proof fn lemma_chain_fail(
    s: Seq<u8>,
    i: int,
    flags: LinkFlags,
    cp: CodePage,
    enc: StringEncoding,
    ends: Seq<int>,
    k: int,
)
    requires
        1 <= k <= 4,
        ends.len() == k,
        enc == StringEncoding::spec_from_flags(flags, cp),
        (parse_slot(s, i, slot_flags(flags)[0], enc) matches Decoded::Found(v, e) && e
            == ends[0]),
        k >= 2 ==> (parse_slot(s, ends[0], slot_flags(flags)[1], enc) matches Decoded::Found(
            v,
            e,
        ) && e == ends[1]),
        k >= 3 ==> (parse_slot(s, ends[1], slot_flags(flags)[2], enc) matches Decoded::Found(
            v,
            e,
        ) && e == ends[2]),
        k >= 4 ==> (parse_slot(s, ends[2], slot_flags(flags)[3], enc) matches Decoded::Found(
            v,
            e,
        ) && e == ends[3]),
        parse_slot(s, ends[k - 1], slot_flags(flags)[k], enc) is Fail,
    ensures
        (parse_string_data(s, i, flags, cp) matches Decoded::Fail(o) && Some(o) == fail_offset_of(
            parse_slot(s, ends[k - 1], slot_flags(flags)[k], enc),
        )),
{
    reveal(parse_string_data);
    match parse_slot(s, ends[k - 1], slot_flags(flags)[k], enc) {
        Decoded::Fail(o) => {
            let fails: Decoded<Seq<Option<Seq<char>>>> = Decoded::Fail(o);
            if k == 1 {
                assert(parse_slots_from(s, ends[0], flags, enc, 1) == fails);
            } else if k == 2 {
                assert(parse_slots_from(s, ends[1], flags, enc, 2) == fails);
                assert(parse_slots_from(s, ends[0], flags, enc, 1) == fails);
            } else if k == 3 {
                assert(parse_slots_from(s, ends[2], flags, enc, 3) == fails);
                assert(parse_slots_from(s, ends[1], flags, enc, 2) == fails);
                assert(parse_slots_from(s, ends[0], flags, enc, 1) == fails);
            } else {
                assert(parse_slots_from(s, ends[3], flags, enc, 4) == fails);
                assert(parse_slots_from(s, ends[2], flags, enc, 3) == fails);
                assert(parse_slots_from(s, ends[1], flags, enc, 2) == fails);
                assert(parse_slots_from(s, ends[0], flags, enc, 1) == fails);
            }
            assert(parse_slots_from(s, i, flags, enc, 0) == fails);
        },
        Decoded::Found(_, _) => {
            assert(false);
        },
    }
}

/// The failing offset a parse outcome carries, if it failed.
pub open spec fn fail_offset_of<T>(d: Decoded<T>) -> Option<int> {
    match d {
        Decoded::Fail(o) => Some(o),
        Decoded::Found(_, _) => None,
    }
}

/// Five adjacent slot regions whose byte forms are each slot's wire
/// form concatenate to the whole section's wire form.
proof fn lemma_cat_regions(
    s: Seq<u8>,
    i: int,
    c1: int,
    c2: int,
    c3: int,
    c4: int,
    c5: int,
    sd: StringData,
    flags: LinkFlags,
    cp: CodePage,
    enc: StringEncoding,
)
    requires
        enc == StringEncoding::spec_from_flags(flags, cp),
        0 <= i <= c1 <= c2 <= c3 <= c4 <= c5 <= s.len(),
        slot_bytes(opt_view(sd.name_string), slot_flags(flags)[0], enc) == Some(
            s.subrange(i, c1),
        ),
        slot_bytes(opt_view(sd.relative_path), slot_flags(flags)[1], enc) == Some(
            s.subrange(c1, c2),
        ),
        slot_bytes(opt_view(sd.working_dir), slot_flags(flags)[2], enc) == Some(
            s.subrange(c2, c3),
        ),
        slot_bytes(opt_view(sd.command_line_arguments), slot_flags(flags)[3], enc) == Some(
            s.subrange(c3, c4),
        ),
        slot_bytes(opt_view(sd.icon_location), slot_flags(flags)[4], enc) == Some(
            s.subrange(c4, c5),
        ),
    ensures
        string_data_bytes(sd, flags, cp) == Some(s.subrange(i, c5)),
{
    assert(s.subrange(i, c1) =~= Seq::<u8>::empty() + s.subrange(i, c1));
    assert(s.subrange(i, c2) =~= s.subrange(i, c1) + s.subrange(c1, c2));
    assert(s.subrange(i, c3) =~= s.subrange(i, c2) + s.subrange(c2, c3));
    assert(s.subrange(i, c4) =~= s.subrange(i, c3) + s.subrange(c3, c4));
    assert(s.subrange(i, c5) =~= s.subrange(i, c4) + s.subrange(c4, c5));
    lemma_cat_some(
        sd,
        flags,
        cp,
        enc,
        s.subrange(i, c1),
        s.subrange(i, c2),
        s.subrange(i, c3),
        s.subrange(i, c4),
        s.subrange(i, c5),
    );
}

/// Reads one optional slot at `pos`.
fn read_slot(data: &[u8], pos: usize, present: bool, enc: StringEncoding) -> (r: Result<
    (Option<String>, usize),
    Error,
>)
    requires
        pos <= data@.len(),
    ensures
        match r {
            Ok((v, end)) => {
                &&& pos <= end <= data@.len()
                &&& (v is Some) == present
                &&& parse_slot(data@, pos as int, present, enc) == Decoded::Found(
                    opt_view(v),
                    end as int,
                )
                &&& slot_bytes(opt_view(v), present, enc) == Some(
                    data@.subrange(pos as int, end as int),
                )
            },
            Err(e) => {
                &&& parse_slot(data@, pos as int, present, enc) matches Decoded::Fail(o)
                &&& e matches Error::Parse { offset, .. } && offset == o
            },
        },
{
    proof {
        reveal(crate::strings::parse_sized_string);
    }
    let n = data.len();
    if !present {
        proof {
            assert(data@.subrange(pos as int, pos as int) =~= Seq::<u8>::empty());
        }
        return Ok((None, pos));
    }
    if n - pos < 2 {
        return Err(Error::Parse { offset: n as u64, message: crate::text::short_input_message() });
    }
    match read_sized_string(data, pos, enc) {
        Ok((v, end)) => Ok((Some(v.0), end)),
        Err(e) => Err(e),
    }
}

/// The wire form of one slot: empty where absent.
pub open spec fn slot_bytes(v: Option<Seq<char>>, present: bool, enc: StringEncoding) -> Option<
    Seq<u8>,
> {
    if !present {
        Some(Seq::empty())
    } else {
        match v {
            Some(cs) => sized_string_bytes(cs, enc),
            None => Some(Seq::empty()),
        }
    }
}

/// Concatenation over possibly missing byte sequences.
pub open spec fn opt_cat(a: Option<Seq<u8>>, b: Option<Seq<u8>>) -> Option<Seq<u8>> {
    match (a, b) {
        (Some(x), Some(y)) => Some(x + y),
        _ => None,
    }
}

/// The wire form of a whole StringData section: the present slots'
/// wire forms, one after another; nothing where a slot has no wire
/// form.
#[verifier::opaque]
pub open spec fn string_data_bytes(sd: StringData, flags: LinkFlags, cp: CodePage) -> Option<
    Seq<u8>,
> {
    let enc = StringEncoding::spec_from_flags(flags, cp);
    opt_cat(
        opt_cat(
            opt_cat(
                opt_cat(
                    slot_bytes(opt_view(sd.name_string), flags.spec_has_name(), enc),
                    slot_bytes(opt_view(sd.relative_path), flags.spec_has_relative_path(), enc),
                ),
                slot_bytes(opt_view(sd.working_dir), flags.spec_has_working_dir(), enc),
            ),
            slot_bytes(opt_view(sd.command_line_arguments), flags.spec_has_arguments(), enc),
        ),
        slot_bytes(opt_view(sd.icon_location), flags.spec_has_icon_location(), enc),
    )
}

/// Where some slot has no wire form, the whole section has none.
proof fn lemma_cat_none(sd: StringData, flags: LinkFlags, cp: CodePage, enc: StringEncoding, k: int)
    requires
        0 <= k < 5,
        enc == StringEncoding::spec_from_flags(flags, cp),
        slot_bytes(slot_views(sd)[k], slot_flags(flags)[k], enc) is None,
    ensures
        string_data_bytes(sd, flags, cp) is None,
{
    reveal(string_data_bytes);
}

/// The section's wire form is the five slots' wire forms, appended one
/// after another.
proof fn lemma_cat_some(
    sd: StringData,
    flags: LinkFlags,
    cp: CodePage,
    enc: StringEncoding,
    g1: Seq<u8>,
    g2: Seq<u8>,
    g3: Seq<u8>,
    g4: Seq<u8>,
    g5: Seq<u8>,
)
    requires
        enc == StringEncoding::spec_from_flags(flags, cp),
        Some(g1) == match slot_bytes(opt_view(sd.name_string), slot_flags(flags)[0], enc) {
            Some(b) => Some(Seq::<u8>::empty() + b),
            None => None,
        },
        Some(g2) == match slot_bytes(opt_view(sd.relative_path), slot_flags(flags)[1], enc) {
            Some(b) => Some(g1 + b),
            None => None,
        },
        Some(g3) == match slot_bytes(opt_view(sd.working_dir), slot_flags(flags)[2], enc) {
            Some(b) => Some(g2 + b),
            None => None,
        },
        Some(g4) == match slot_bytes(
            opt_view(sd.command_line_arguments),
            slot_flags(flags)[3],
            enc,
        ) {
            Some(b) => Some(g3 + b),
            None => None,
        },
        Some(g5) == match slot_bytes(opt_view(sd.icon_location), slot_flags(flags)[4], enc) {
            Some(b) => Some(g4 + b),
            None => None,
        },
    ensures
        string_data_bytes(sd, flags, cp) == Some(g5),
{
    reveal(string_data_bytes);
    match (
        slot_bytes(opt_view(sd.name_string), slot_flags(flags)[0], enc),
        slot_bytes(opt_view(sd.relative_path), slot_flags(flags)[1], enc),
        slot_bytes(opt_view(sd.working_dir), slot_flags(flags)[2], enc),
        slot_bytes(opt_view(sd.command_line_arguments), slot_flags(flags)[3], enc),
        slot_bytes(opt_view(sd.icon_location), slot_flags(flags)[4], enc),
    ) {
        (Some(b1), Some(b2), Some(b3), Some(b4), Some(b5)) => {
            assert(g5 =~= b1 + b2 + b3 + b4 + b5);
            assert(string_data_bytes(sd, flags, cp) == Some(b1 + b2 + b3 + b4 + b5)) by {
                assert(Seq::<u8>::empty() + b1 =~= b1);
            }
            assert(b1 + b2 + b3 + b4 + b5 =~= g5);
        },
        _ => {
            assert(false);
        },
    }
}

/// Appends the wire form of `sd` under `flags`. Fails, leaving the
/// output untouched, exactly when some present slot has no wire form.
/// On success the emitted bytes parse back to the same five slots:
/// writing and then reading preserves every slot's presence and
/// contents.
#[verifier::spinoff_prover]
#[verifier::rlimit(80)]
pub fn write_string_data(out: &mut Vec<u8>, sd: &StringData, flags: &LinkFlags, cp: CodePage) -> (r: Result<
    (),
    Error,
>)
    requires
        consistent(*sd, *flags),
    ensures
        (r is Ok) == (string_data_bytes(*sd, *flags, cp) is Some),
        match r {
            Ok(()) => Some(final(out)@) == match string_data_bytes(*sd, *flags, cp) {
                Some(b) => Some(old(out)@ + b),
                None => None,
            } && parse_string_data(final(out)@, old(out)@.len() as int, *flags, cp) == Decoded::Found(
                slot_views(*sd),
                final(out)@.len() as int,
            ),
            Err(e) => final(out)@ == old(out)@ && (e matches Error::Parse { .. }),
        },
{
    let enc = StringEncoding::from_flags(flags, cp);
    let mut buf: Vec<u8> = Vec::new();

    match write_slot(&mut buf, &sd.name_string, flags.contains(crate::flags::HAS_NAME), enc) {
        Ok(()) => (),
        Err(e) => {
            proof {
                lemma_cat_none(*sd, *flags, cp, enc, 0);
            }
            return Err(e);
        },
    }
    let ghost g1 = buf@;
    match write_slot(&mut buf, &sd.relative_path, flags.contains(
        crate::flags::HAS_RELATIVE_PATH), enc) {
        Ok(()) => (),
        Err(e) => {
            proof {
                lemma_cat_none(*sd, *flags, cp, enc, 1);
            }
            return Err(e);
        },
    }
    let ghost g2 = buf@;
    match write_slot(&mut buf, &sd.working_dir, flags.contains(crate::flags::HAS_WORKING_DIR),
        enc) {
        Ok(()) => (),
        Err(e) => {
            proof {
                lemma_cat_none(*sd, *flags, cp, enc, 2);
            }
            return Err(e);
        },
    }
    let ghost g3 = buf@;
    match write_slot(&mut buf, &sd.command_line_arguments, flags.contains(
        crate::flags::HAS_ARGUMENTS), enc) {
        Ok(()) => (),
        Err(e) => {
            proof {
                lemma_cat_none(*sd, *flags, cp, enc, 3);
            }
            return Err(e);
        },
    }
    let ghost g4 = buf@;
    match write_slot(&mut buf, &sd.icon_location, flags.contains(
        crate::flags::HAS_ICON_LOCATION), enc) {
        Ok(()) => (),
        Err(e) => {
            proof {
                lemma_cat_none(*sd, *flags, cp, enc, 4);
            }
            return Err(e);
        },
    }
    let ghost g5 = buf@;
    let ghost base = out@.len() as int;
    let ghost oldout = out@;
    out.append(&mut buf);
    proof {
        assert(g2.subrange(0, g1.len() as int) =~= g1);
        assert(g3.subrange(0, g2.len() as int) =~= g2);
        assert(g4.subrange(0, g3.len() as int) =~= g3);
        assert(g5.subrange(0, g4.len() as int) =~= g4);
        lemma_assemble_slots(out@, oldout, g1, g2, g3, g4, g5, *sd, *flags, cp, enc);
        lemma_cat_some(*sd, *flags, cp, enc, g1, g2, g3, g4, g5);
        assert(out@ =~= oldout + g5);
    }
    Ok(())
}

/// Five slot wire forms appended one after another, moved to the end
/// of a larger buffer, parse back to the same five slots.
#[verifier::spinoff_prover]
#[verifier::rlimit(80)]
proof fn lemma_assemble_slots(
    s: Seq<u8>,
    oldout: Seq<u8>,
    g1: Seq<u8>,
    g2: Seq<u8>,
    g3: Seq<u8>,
    g4: Seq<u8>,
    g5: Seq<u8>,
    sd: StringData,
    flags: LinkFlags,
    cp: CodePage,
    enc: StringEncoding,
)
    requires
        enc == StringEncoding::spec_from_flags(flags, cp),
        s == oldout + g5,
        g1.len() <= g2.len() <= g3.len() <= g4.len() <= g5.len(),
        g2.subrange(0, g1.len() as int) == g1,
        g3.subrange(0, g2.len() as int) == g2,
        g4.subrange(0, g3.len() as int) == g3,
        g5.subrange(0, g4.len() as int) == g4,
        parse_slot(g1, 0, slot_flags(flags)[0], enc) == Decoded::Found(
            slot_views(sd)[0],
            g1.len() as int,
        ),
        parse_slot(g2, g1.len() as int, slot_flags(flags)[1], enc) == Decoded::Found(
            slot_views(sd)[1],
            g2.len() as int,
        ),
        parse_slot(g3, g2.len() as int, slot_flags(flags)[2], enc) == Decoded::Found(
            slot_views(sd)[2],
            g3.len() as int,
        ),
        parse_slot(g4, g3.len() as int, slot_flags(flags)[3], enc) == Decoded::Found(
            slot_views(sd)[3],
            g4.len() as int,
        ),
        parse_slot(g5, g4.len() as int, slot_flags(flags)[4], enc) == Decoded::Found(
            slot_views(sd)[4],
            g5.len() as int,
        ),
    ensures
        parse_string_data(s, oldout.len() as int, flags, cp) == Decoded::Found(
            slot_views(sd),
            s.len() as int,
        ),
{
    let base = oldout.len() as int;
    let vs = slot_views(sd);
    let m1 = g1.len() as int;
    let m2 = g2.len() as int;
    let m3 = g3.len() as int;
    let m4 = g4.len() as int;
    let m5 = g5.len() as int;
    assert(g5.subrange(0, m3) =~= g3);
    assert(g5.subrange(0, m2) =~= g2);
    assert(g5.subrange(0, m1) =~= g1);
    assert(s.subrange(base, base + m1) =~= g1.subrange(0, m1));
    assert(s.subrange(base + m1, base + m2) =~= g2.subrange(m1, m2));
    assert(s.subrange(base + m2, base + m3) =~= g3.subrange(m2, m3));
    assert(s.subrange(base + m3, base + m4) =~= g4.subrange(m3, m4));
    assert(s.subrange(base + m4, base + m5) =~= g5.subrange(m4, m5));
    lemma_parse_slot_at(g1, 0, s, base, vs[0], m1, slot_flags(flags)[0], enc);
    lemma_parse_slot_at(g2, m1, s, base + m1, vs[1], m2, slot_flags(flags)[1], enc);
    lemma_parse_slot_at(g3, m2, s, base + m2, vs[2], m3, slot_flags(flags)[2], enc);
    lemma_parse_slot_at(g4, m3, s, base + m3, vs[3], m4, slot_flags(flags)[3], enc);
    lemma_parse_slot_at(g5, m4, s, base + m4, vs[4], m5, slot_flags(flags)[4], enc);
    lemma_chain_slots(
        s,
        base,
        flags,
        cp,
        enc,
        vs,
        seq![base + m1, base + m2, base + m3, base + m4, base + m5],
    );
}

/// Appends the wire form of one slot.
fn write_slot(out: &mut Vec<u8>, v: &Option<String>, present: bool, enc: StringEncoding) -> (r:
    Result<(), Error>)
    requires
        (v is Some) == present,
    ensures
        (r is Ok) == (slot_bytes(opt_view(*v), present, enc) is Some),
        match r {
            Ok(()) => Some(final(out)@) == match slot_bytes(opt_view(*v), present, enc) {
                Some(b) => Some(old(out)@ + b),
                None => None,
            } && parse_slot(final(out)@, old(out)@.len() as int, present, enc) == Decoded::Found(
                opt_view(*v),
                final(out)@.len() as int,
            ),
            Err(e) => final(out)@ == old(out)@ && (e matches Error::Parse { .. }),
        },
{
    match v {
        None => {
            proof {
                assert(old(out)@ + Seq::<u8>::empty() =~= old(out)@);
            }
            Ok(())
        },
        Some(s) => write_sized_string(out, s.as_str(), enc),
    }
}

} // verus!
