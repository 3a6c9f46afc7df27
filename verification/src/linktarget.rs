//! The LinkTargetIdList: a 16-bit byte budget, then item IDs one after
//! another until a zero-size sentinel ends the list or the budget runs
//! out.

use vstd::prelude::*;

use crate::bytes::{enc_u16, le16_at, lemma_enc_le16, lemma_le16_enc, read_u16, write_u16, Decoded};
use crate::itemid::{write_item_id, ItemID};
use crate::Error;

verus! {

/// The data payloads of a sequence of items.
pub open spec fn items_datas(v: Seq<ItemID>) -> Seq<Seq<u8>> {
    v.map_values(|it: ItemID| it.data@)
}

/// Every payload is neither empty nor too long for its size field.
pub open spec fn datas_wf(ds: Seq<Seq<u8>>) -> bool {
    forall|k: int| 0 <= k < ds.len() ==> 1 <= (#[trigger] ds[k]).len() <= 0xFFFD
}

/// The wire form of the items alone: each a size, then its payload.
pub open spec fn items_bytes(ds: Seq<Seq<u8>>) -> Seq<u8>
    decreases ds.len(),
{
    if ds.len() == 0 {
        Seq::empty()
    } else {
        enc_u16((ds[0].len() + 2) as u16) + ds[0] + items_bytes(ds.drop_first())
    }
}

/// Parses items from `i` up to the budget's end at `limit`: a zero size
/// ends the list with the sentinel consumed; reaching the budget ends it
/// without one; a size of one or two, or an item that runs past the
/// budget or the input, is a fault. The boolean records whether the
/// sentinel was consumed.
pub open spec fn parse_items(s: Seq<u8>, i: int, limit: int) -> Decoded<(Seq<Seq<u8>>, bool)>
    decreases limit - i,
{
    if i >= limit {
        Decoded::Found((Seq::empty(), false), i)
    } else if i + 2 > limit || i + 2 > s.len() {
        Decoded::Fail(i)
    } else {
        let sz = le16_at(s, i) as int;
        if sz == 0 {
            Decoded::Found((Seq::empty(), true), i + 2)
        } else if sz <= 2 {
            Decoded::Fail(i + 2)
        } else if i + sz > limit || i + sz > s.len() {
            Decoded::Fail(i + 2)
        } else {
            match parse_items(s, i + sz, limit) {
                Decoded::Found((rest, sentinel), end) => Decoded::Found(
                    (seq![s.subrange(i + 2, i + sz)] + rest, sentinel),
                    end,
                ),
                Decoded::Fail(o) => Decoded::Fail(o),
            }
        }
    }
}

/// A sequence of well-formed items followed by the sentinel parses back
/// to exactly those payloads, wherever it stands, as long as it fits
/// the budget.
pub proof fn lemma_parse_items_of_bytes(s: Seq<u8>, i: int, limit: int, ds: Seq<Seq<u8>>)
    requires
        datas_wf(ds),
        0 <= i,
        i + items_bytes(ds).len() + 2 <= limit,
        i + items_bytes(ds).len() + 2 <= s.len(),
        s.subrange(i, i + items_bytes(ds).len() + 2) == items_bytes(ds) + seq![0u8, 0u8],
    ensures
        parse_items(s, i, limit) == Decoded::Found((ds, true), i + items_bytes(ds).len() + 2),
    decreases ds.len(),
{
    let body = items_bytes(ds);
    let whole = body + seq![0u8, 0u8];
    let sub = s.subrange(i, i + body.len() + 2);
    assert forall|k: int| 0 <= k < whole.len() implies s[i + k] == #[trigger] whole[k] by {
        assert(sub[k] == s[i + k]);
    }
    if ds.len() == 0 {
        assert(s[i] == 0 && s[i + 1] == 0);
        assert(le16_at(s, i) == 0);
        assert(ds =~= Seq::<Seq<u8>>::empty());
    } else {
        let d = ds[0];
        let sz = d.len() + 2;
        lemma_items_bytes_len(ds);
        lemma_le16_enc(sz as u16);
        assert(whole[0] == enc_u16(sz as u16)[0] && whole[1] == enc_u16(sz as u16)[1]);
        assert(s[i] == enc_u16(sz as u16)[0] && s[i + 1] == enc_u16(sz as u16)[1]);
        assert(le16_at(s, i) == le16_at(enc_u16(sz as u16), 0));
        assert(le16_at(s, i) == sz);
        assert(s.subrange(i + 2, i + sz) =~= d) by {
            assert forall|k: int| 0 <= k < d.len() implies s[i + 2 + k] == #[trigger] d[k] by {
                assert(s[i + (2 + k)] == whole[2 + k]);
                assert(whole[2 + k] == (enc_u16(sz as u16) + d + items_bytes(ds.drop_first())
                    + seq![0u8, 0u8])[2 + k]);
            }
        }
        let rest = ds.drop_first();
        lemma_items_bytes_len(rest);
        let tailseq = items_bytes(rest) + seq![0u8, 0u8];
        assert(s.subrange(i + sz, i + sz + items_bytes(rest).len() + 2) =~= tailseq) by {
            assert forall|k: int| 0 <= k < tailseq.len() implies s[i + sz + k] == #[trigger] tailseq[k] by {
                assert(s[i + (sz + k)] == whole[sz + k]);
                assert(whole[sz + k] == (enc_u16(sz as u16) + d + items_bytes(rest)
                    + seq![0u8, 0u8])[sz + k]);
            }
        }
        lemma_parse_items_of_bytes(s, i + sz, limit, rest);
        assert(parse_items(s, i + sz, limit) == Decoded::Found(
            (rest, true),
            i + sz + items_bytes(rest).len() + 2,
        ));
        assert(i + body.len() + 2 == i + sz + items_bytes(rest).len() + 2);
        assert(1 <= d.len() <= 0xFFFD);
        assert(2 < sz <= 0xFFFF);
        assert(i < limit && i + 2 <= limit && i + 2 <= s.len() && i + sz <= limit && i + sz
            <= s.len());
        assert(parse_items(s, i, limit) == Decoded::Found(
            (seq![s.subrange(i + 2, i + sz)] + rest, true),
            i + body.len() + 2,
        ));
        assert(seq![s.subrange(i + 2, i + sz)] + rest =~= ds);
    }
}

/// The items' wire form is as long as the sizes say.
pub proof fn lemma_items_bytes_len(ds: Seq<Seq<u8>>)
    ensures
        items_bytes(ds).len() >= 2 * ds.len(),
        ds.len() > 0 ==> items_bytes(ds).len() == ds[0].len() + 2 + items_bytes(
            ds.drop_first(),
        ).len(),
    decreases ds.len(),
{
    if ds.len() > 0 {
        lemma_items_bytes_len(ds.drop_first());
    }
}

/// The LinkTargetIdList: the target of the link, as a list of opaque
/// item IDs. The stored size is a byte budget for the items and their
/// sentinel; reading keeps it verbatim so an oversized budget re-emits
/// faithfully.
#[derive(Clone, Debug, PartialEq, Eq)]
pub struct LinkTargetIdList {
    pub size: u16,
    pub items: Vec<ItemID>,
}

impl LinkTargetIdList {
    /// A list is well formed when every item is and the stored budget
    /// covers the items and their sentinel.
    pub open spec fn wf(self) -> bool {
        &&& datas_wf(items_datas(self.items@))
        &&& items_bytes(items_datas(self.items@)).len() + 2 <= self.size
    }

    /// The wire form: the budget, the items, the sentinel.
    pub open spec fn bytes(self) -> Seq<u8> {
        enc_u16(self.size) + items_bytes(items_datas(self.items@)) + seq![0u8, 0u8]
    }

    /// The held items.
    pub fn id_list(&self) -> (r: &Vec<ItemID>)
        ensures
            r@ == self.items@,
    {
        &self.items
    }
}

impl Default for LinkTargetIdList {
    /// An empty list: no items, a budget of the bare sentinel.
    fn default() -> (r: Self)
        ensures
            r.size == 2,
            r.items@.len() == 0,
            r.wf(),
    {
        let r = LinkTargetIdList { size: 2, items: Vec::new() };
        proof {
            assert(items_datas(r.items@) =~= Seq::<Seq<u8>>::empty());
        }
        r
    }
}

/// Reads a LinkTargetIdList at `pos`: the budget word, then items to
/// the sentinel or the budget's end. What was read re-emits faithfully
/// whenever the sentinel was present.
pub fn read_link_target_id_list(data: &[u8], pos: usize) -> (r: Result<
    (LinkTargetIdList, usize, bool),
    Error,
>)
    requires
        pos + 2 <= data@.len(),
    ensures
        ({
            let limit = pos + 2 + le16_at(data@, pos as int);
            match r {
                Ok((v, end, sen)) => {
                    &&& v.size == le16_at(data@, pos as int)
                    &&& pos + 2 <= end <= data@.len()
                    &&& match parse_items(data@, pos + 2, limit) {
                        Decoded::Found((ds, sentinel), e) => ds == items_datas(v.items@) && e == end
                            && datas_wf(ds) && sen == sentinel && (sentinel ==> v.wf()
                            && v.bytes() =~= data@.subrange(pos as int, end as int)),
                        Decoded::Fail(o) => false,
                    }
                },
                Err(e) => {
                    &&& parse_items(data@, pos + 2, limit) matches Decoded::Fail(o)
                    &&& e matches Error::Parse { offset, .. } && offset == o
                },
            }
        }),
{
    let n = data.len();
    let size = read_u16(data, pos);
    let ghost limit = pos + 2 + le16_at(data@, pos as int);
    let mut budget: usize = size as usize;
    let mut cur: usize = pos + 2;
    let mut items: Vec<ItemID> = Vec::new();
    let ghost mut sentinel: bool = false;
    proof {
        assert(items_datas(items@) =~= Seq::<Seq<u8>>::empty());
    }
    loop
        invariant
            n == data@.len(),
            pos + 2 <= data@.len(),
            size == le16_at(data@, pos as int),
            limit == pos + 2 + size,
            pos + 2 <= cur <= n,
            cur + budget == limit,
            datas_wf(items_datas(items@)),
            items_bytes(items_datas(items@)).len() == cur - (pos + 2),
            items_bytes(items_datas(items@)) =~= data@.subrange(pos + 2, cur as int),
            match parse_items(data@, cur as int, limit) {
                Decoded::Found((ds, sen), e) => parse_items(data@, pos + 2, limit)
                    == Decoded::Found((items_datas(items@) + ds, sen), e),
                Decoded::Fail(o) => parse_items(data@, pos + 2, limit) == Decoded::<(
                    Seq<Seq<u8>>,
                    bool,
                )>::Fail(o),
            },
        decreases budget,
    {
        if budget == 0 {
            proof {
                assert(parse_items(data@, cur as int, limit) == Decoded::Found(
                    (Seq::<Seq<u8>>::empty(), false),
                    cur as int,
                ));
                assert(items_datas(items@) + Seq::<Seq<u8>>::empty() =~= items_datas(items@));
            }
            let v = LinkTargetIdList { size, items };
            return Ok((v, cur, false));
        }
        if budget < 2 || n - cur < 2 {
            return Err(
                Error::Parse {
                    offset: cur as u64,
                    message: crate::text::short_input_message(),
                },
            );
        }
        let sz = read_u16(data, cur) as usize;
        if sz == 0 {
            proof {
                assert(parse_items(data@, cur as int, limit) == Decoded::Found(
                    (Seq::<Seq<u8>>::empty(), true),
                    cur + 2,
                ));
                assert(items_datas(items@) + Seq::<Seq<u8>>::empty() =~= items_datas(items@));
            }
            let v = LinkTargetIdList { size, items };
            let end = cur + 2;
            proof {
                lemma_enc_le16(data@, pos as int);
                lemma_enc_le16(data@, cur as int);
                assert(data@.subrange(pos as int, pos + 2) =~= enc_u16(size));
                assert(enc_u16(le16_at(data@, cur as int)) =~= enc_u16(0));
                assert(enc_u16(0) =~= seq![0u8, 0u8]);
                assert(data@.subrange(cur as int, end as int) =~= seq![0u8, 0u8]);
                assert(v.bytes() =~= data@.subrange(pos as int, pos + 2) + data@.subrange(
                    pos + 2,
                    cur as int,
                ) + data@.subrange(cur as int, end as int));
                assert(v.bytes() =~= data@.subrange(pos as int, end as int));
            }
            return Ok((v, end, true));
        }
        if sz <= 2 {
            return Err(
                Error::Parse {
                    offset: (cur + 2) as u64,
                    message: crate::text::item_size_message(),
                },
            );
        }
        if sz > budget || sz > n - cur {
            return Err(
                Error::Parse {
                    offset: (cur + 2) as u64,
                    message: crate::text::short_input_message(),
                },
            );
        }
        let payload = crate::strings::copy_range(data, cur + 2, cur + sz);
        let item = ItemID { data: payload };
        let ghost before = items@;
        items.push(item);
        proof {
            assert(items_datas(items@) =~= items_datas(before) + seq![
                data@.subrange(cur + 2, cur + sz),
            ]);
            lemma_items_bytes_app(items_datas(before), data@.subrange(cur + 2, cur + sz));
            lemma_enc_le16(data@, cur as int);
            assert(items_bytes(items_datas(items@)) =~= data@.subrange(pos + 2, cur as int)
                + data@.subrange(cur as int, cur + 2) + data@.subrange(cur + 2, cur + sz));
            assert(items_bytes(items_datas(items@)) =~= data@.subrange(pos + 2, cur + sz));
        }
        cur = cur + sz;
        budget = budget - sz;
        proof {
            assert(items_datas(before) + (seq![data@.subrange(cur - sz + 2, cur as int)]
                + match parse_items(data@, cur as int, limit) {
                Decoded::Found((ds, _), _) => ds,
                Decoded::Fail(_) => Seq::empty(),
            }) =~= (items_datas(before) + seq![data@.subrange(cur - sz + 2, cur as int)]) + match
                parse_items(data@, cur as int, limit) {
                Decoded::Found((ds, _), _) => ds,
                Decoded::Fail(_) => Seq::empty(),
            });
        }
    }
}

/// Appending one payload to a list appends its wire form.
proof fn lemma_items_bytes_app(ds: Seq<Seq<u8>>, d: Seq<u8>)
    requires
        d.len() <= 0xFFFD,
    ensures
        items_bytes(ds + seq![d]) =~= items_bytes(ds) + enc_u16((d.len() + 2) as u16) + d,
    decreases ds.len(),
{
    let e = ds + seq![d];
    assert(e.len() == ds.len() + 1);
    if ds.len() == 0 {
        assert(e[0] =~= d);
        assert(e.drop_first() =~= Seq::<Seq<u8>>::empty());
        assert(items_bytes(e) =~= enc_u16((e[0].len() + 2) as u16) + e[0] + items_bytes(
            e.drop_first(),
        ));
        assert(items_bytes(ds) =~= Seq::<u8>::empty());
    } else {
        lemma_items_bytes_app(ds.drop_first(), d);
        assert(e.drop_first() =~= ds.drop_first() + seq![d]);
        assert(e[0] =~= ds[0]);
        assert(items_bytes(e) =~= enc_u16((e[0].len() + 2) as u16) + e[0] + items_bytes(
            e.drop_first(),
        ));
        assert(items_bytes(ds) =~= enc_u16((ds[0].len() + 2) as u16) + ds[0] + items_bytes(
            ds.drop_first(),
        ));
    }
}

/// A well-formed list re-reads off its own wire form to the same items.
pub proof fn lemma_read_back(v: LinkTargetIdList, s: Seq<u8>, i: int, end: int)
    requires
        0 <= i,
        end == i + 2 + items_bytes(items_datas(v.items@)).len() + 2,
        end <= s.len(),
        datas_wf(items_datas(v.items@)),
        items_bytes(items_datas(v.items@)).len() + 2 <= v.size,
        s.subrange(i, end) == v.bytes(),
    ensures
        le16_at(s, i) == v.size,
        parse_items(s, i + 2, i + 2 + v.size) == Decoded::Found(
            (items_datas(v.items@), true),
            end,
        ),
        v.wf(),
        v.bytes() =~= s.subrange(i, end),
{
    let ds = items_datas(v.items@);
    let body = items_bytes(ds);
    lemma_le16_enc(v.size);
    assert forall|k: int| 0 <= k < end - i implies s[i + k] == #[trigger] v.bytes()[k] by {
        assert(s.subrange(i, end)[k] == s[i + k]);
    }
    assert(v.bytes()[0] == enc_u16(v.size)[0] && v.bytes()[1] == enc_u16(v.size)[1]);
    assert(s[i] == enc_u16(v.size)[0] && s[i + 1] == enc_u16(v.size)[1]);
    assert(le16_at(s, i) == le16_at(enc_u16(v.size), 0));
    assert(s.subrange(i + 2, i + 2 + body.len() + 2) =~= body + seq![0u8, 0u8]) by {
        assert forall|k: int| 0 <= k < body.len() + 2 implies s[i + 2 + k] == (body
            + seq![0u8, 0u8])[k] by {
            assert(v.bytes()[2 + k] == (enc_u16(v.size) + body + seq![0u8, 0u8])[2 + k]);
        }
    }
    lemma_parse_items_of_bytes(s, i + 2, i + 2 + v.size, ds);
}

/// Appends the wire form of `v`: its budget, its items, the sentinel.
pub fn write_link_target_id_list(out: &mut Vec<u8>, v: &LinkTargetIdList)
    requires
        v.wf(),
    ensures
        final(out)@ =~= old(out)@ + v.bytes(),
{
    write_u16(out, v.size);
    let count = v.items.len();
    let mut k: usize = 0;
    while k < count
        invariant
            k <= count == v.items@.len(),
            v.wf(),
            out@ =~= old(out)@ + enc_u16(v.size) + items_bytes(
                items_datas(v.items@.subrange(0, k as int)),
            ),
        decreases count - k,
    {
        proof {
            assert(1 <= v.items@[k as int].data@.len() <= 0xFFFD) by {
                assert(items_datas(v.items@)[k as int] == v.items@[k as int].data@);
            }
        }
        write_item_id(out, &v.items[k]);
        k = k + 1;
        proof {
            assert(items_datas(v.items@.subrange(0, k as int)) =~= items_datas(
                v.items@.subrange(0, k - 1),
            ) + seq![v.items@[k - 1].data@]);
            lemma_items_bytes_app(
                items_datas(v.items@.subrange(0, k - 1)),
                v.items@[k - 1].data@,
            );
        }
    }
    out.push(0);
    out.push(0);
    proof {
        assert(v.items@.subrange(0, count as int) =~= v.items@);
        assert(final(out)@ =~= old(out)@ + v.bytes());
    }
}

} // verus!
