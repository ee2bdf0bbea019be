//! The creator discovery stage's pure core: merging the followed and
//! supported creator lists into one deduplicated set, the sorted overview
//! table printed at run start, and the per-creator candidate-post selection.

use vstd::prelude::*;
use vstd::multiset::Multiset;
use vstd::string::StrSliceExecFns;
use vstd::string::StringExecFns;
use crate::config::Config;
use crate::config::Strategy;
use crate::config::spec_filter_post;
use crate::fanbox::Creator;
use crate::fanbox::PostListItem;
use crate::strings::spec_dec;
use crate::strings::spec_repeat;
use crate::strings::repeat_str;
use crate::strings::u32_to_string;
use crate::strings::str_eq;
use crate::strings::views;
use crate::sync::ArchiveIndex;
use crate::sync::spec_archived;
use crate::sync::spec_source_link;

verus! {

/// A creator snapshot's view: identifier, name, fee.
pub open spec fn creator_view(c: Creator) -> (Seq<char>, Seq<char>, u32) {
    (c.creator_id@, c.name@, c.fee)
}

/// The views of a creator list.
pub open spec fn creator_views(s: Seq<Creator>) -> Seq<(Seq<char>, Seq<char>, u32)> {
    s.map_values(|c: Creator| creator_view(c))
}

/// Insert or replace by creator id: a later snapshot of the same creator
/// replaces the stored one in place, so the last-seen fee wins while keys
/// keep their first-seen order.
pub open spec fn spec_upsert_creator(
    list: Seq<(Seq<char>, Seq<char>, u32)>,
    c: (Seq<char>, Seq<char>, u32),
) -> Seq<(Seq<char>, Seq<char>, u32)>
    decreases list.len(),
{
    if list.len() == 0 {
        seq![c]
    } else if list[0].0 == c.0 {
        seq![c] + list.drop_first()
    } else {
        seq![list[0]] + spec_upsert_creator(list.drop_first(), c)
    }
}

/// The deduplicated creator set a snapshot sequence folds into.
pub open spec fn spec_merge(input: Seq<(Seq<char>, Seq<char>, u32)>) -> Seq<
    (Seq<char>, Seq<char>, u32),
>
    decreases input.len(),
{
    if input.len() == 0 {
        Seq::empty()
    } else {
        spec_upsert_creator(spec_merge(input.drop_last()), input.last())
    }
}

proof fn lemma_upsert_creator_found(
    list: Seq<(Seq<char>, Seq<char>, u32)>,
    c: (Seq<char>, Seq<char>, u32),
    i: int,
)
    requires
        0 <= i < list.len(),
        list[i].0 == c.0,
        forall|j: int| 0 <= j < i ==> (#[trigger] list[j]).0 != c.0,
    ensures
        spec_upsert_creator(list, c) == list.update(i, c),
    decreases i,
{
    if i == 0 {
        assert(spec_upsert_creator(list, c) =~= list.update(0, c));
    } else {
        assert(list.drop_first()[i - 1] == list[i]);
        assert forall|j: int| 0 <= j < i - 1 implies (#[trigger] list.drop_first()[j]).0 != c.0 by {
            assert(list.drop_first()[j] == list[j + 1]);
        }
        lemma_upsert_creator_found(list.drop_first(), c, i - 1);
        assert(list.update(i, c).drop_first() =~= list.drop_first().update(i - 1, c));
        assert(spec_upsert_creator(list, c) =~= list.update(i, c));
    }
}

proof fn lemma_upsert_creator_missing(
    list: Seq<(Seq<char>, Seq<char>, u32)>,
    c: (Seq<char>, Seq<char>, u32),
)
    requires
        forall|j: int| 0 <= j < list.len() ==> (#[trigger] list[j]).0 != c.0,
    ensures
        spec_upsert_creator(list, c) == list.push(c),
    decreases list.len(),
{
    if list.len() == 0 {
        assert(spec_upsert_creator(list, c) =~= list.push(c));
    } else {
        assert forall|j: int| 0 <= j < list.drop_first().len() implies (#[trigger] list.drop_first()[j]).0
            != c.0 by {
            assert(list.drop_first()[j] == list[j + 1]);
        }
        lemma_upsert_creator_missing(list.drop_first(), c);
        assert(spec_upsert_creator(list, c) =~= list.push(c));
    }
}

/// Store one creator snapshot into the merged list: replace the snapshot
/// stored under the same id, or append.
fn upsert_creator(list: &mut Vec<Creator>, c: Creator)
    ensures
        creator_views(final(list)@) == spec_upsert_creator(
            creator_views(old(list)@),
            creator_view(c),
        ),
{
    let mut i: usize = 0;
    while i < list.len()
        invariant
            i <= list@.len(),
            list@ == old(list)@,
            forall|j: int| 0 <= j < i ==> (#[trigger] creator_views(list@)[j]).0 != c.creator_id@,
        decreases list@.len() - i,
    {
        if str_eq(list[i].creator_id.as_str(), c.creator_id.as_str()) {
            proof {
                lemma_upsert_creator_found(creator_views(list@), creator_view(c), i as int);
            }
            let ghost before = creator_views(list@);
            list.set(i, c);
            proof {
                assert(creator_views(list@) =~= before.update(i as int, creator_view(c)));
            }
            return ;
        }
        i += 1;
    }
    proof {
        lemma_upsert_creator_missing(creator_views(list@), creator_view(c));
    }
    let ghost before = creator_views(list@);
    list.push(c);
    proof {
        assert(creator_views(list@) =~= before.push(creator_view(c)));
    }
}

/// Merge the followed and supported creator lists into one set: creators
/// are deduplicated by identifier, and when the same creator appears twice
/// the later snapshot — so the supporting list's fee — wins.
pub fn merge_creators(following: Vec<Creator>, supporting: Vec<Creator>) -> (r: Vec<Creator>)
    ensures
        creator_views(r@) == spec_merge(creator_views(following@) + creator_views(supporting@)),
{
    let ghost all = creator_views(following@) + creator_views(supporting@);
    let mut out: Vec<Creator> = Vec::new();
    let mut rest = following;
    let mut rest2 = supporting;
    let initial_len = rest.len();
    let initial_len2 = rest2.len();
    let mut i: usize = 0;
    proof {
        assert(all.take(0) =~= Seq::<(Seq<char>, Seq<char>, u32)>::empty());
        assert(creator_views(out@) =~= spec_merge(all.take(0)));
        assert(creator_views(rest@) =~= all.subrange(0, initial_len as int));
    }
    while rest.len() > 0
        invariant
            i + rest@.len() == initial_len,
            initial_len + initial_len2 == all.len(),
            creator_views(rest@) == all.subrange(i as int, initial_len as int),
            creator_views(out@) == spec_merge(all.take(i as int)),
        decreases rest@.len(),
    {
        let ghost old_vec = rest@;
        let ghost old_rest = creator_views(rest@);
        let c = rest.remove(0);
        proof {
            assert(creator_view(c) == old_rest[0]);
            assert(old_rest[0] == all[i as int]);
            assert(rest@ =~= old_vec.drop_first());
            assert(creator_views(rest@) =~= old_rest.skip(1));
            assert(creator_views(rest@) =~= all.subrange(i + 1, initial_len as int));
            assert(all.take(i + 1).drop_last() =~= all.take(i as int));
            assert(all.take(i + 1).last() == all[i as int]);
        }
        upsert_creator(&mut out, c);
        i += 1;
    }
    proof {
        assert(creator_views(rest2@) =~= all.subrange(initial_len as int, all.len() as int));
    }
    let mut j: usize = 0;
    while rest2.len() > 0
        invariant
            j + rest2@.len() == initial_len2,
            initial_len + initial_len2 == all.len(),
            creator_views(rest2@) == all.subrange(initial_len + j, all.len() as int),
            creator_views(out@) == spec_merge(all.take(initial_len + j)),
        decreases rest2@.len(),
    {
        let ghost k: int = initial_len + j;
        let ghost old_vec = rest2@;
        let ghost old_rest = creator_views(rest2@);
        let c = rest2.remove(0);
        proof {
            assert(creator_view(c) == old_rest[0]);
            assert(old_rest[0] == all[k]);
            assert(rest2@ =~= old_vec.drop_first());
            assert(creator_views(rest2@) =~= old_rest.skip(1));
            assert(creator_views(rest2@) =~= all.subrange(k + 1, all.len() as int));
            assert(all.take(k + 1).drop_last() =~= all.take(k));
            assert(all.take(k + 1).last() == all[k]);
        }
        upsert_creator(&mut out, c);
        j += 1;
    }
    proof {
        assert(all.take(initial_len + j) =~= all);
    }
    out
}

/// Lexicographic order on character sequences, by code point.
pub open spec fn lex_le(a: Seq<char>, b: Seq<char>) -> bool
    decreases a.len(),
{
    if a.len() == 0 {
        true
    } else if b.len() == 0 {
        false
    } else if (a[0] as u32) != (b[0] as u32) {
        (a[0] as u32) < (b[0] as u32)
    } else {
        lex_le(a.drop_first(), b.drop_first())
    }
}

proof fn lemma_lex_refl(a: Seq<char>)
    ensures
        lex_le(a, a),
    decreases a.len(),
{
    if a.len() > 0 {
        lemma_lex_refl(a.drop_first());
    }
}

proof fn lemma_lex_total(a: Seq<char>, b: Seq<char>)
    ensures
        lex_le(a, b) || lex_le(b, a),
    decreases a.len(),
{
    if a.len() > 0 && b.len() > 0 && (a[0] as u32) == (b[0] as u32) {
        lemma_lex_total(a.drop_first(), b.drop_first());
    }
}

proof fn lemma_lex_trans(a: Seq<char>, b: Seq<char>, c: Seq<char>)
    requires
        lex_le(a, b),
        lex_le(b, c),
    ensures
        lex_le(a, c),
    decreases a.len(),
{
    if a.len() > 0 && b.len() > 0 && c.len() > 0 && (a[0] as u32) == (b[0] as u32) && (b[0] as u32)
        == (c[0] as u32) {
        lemma_lex_trans(a.drop_first(), b.drop_first(), c.drop_first());
    }
}

/// Compare two strings in lexicographic code-point order.
pub fn str_lex_le(a: &str, b: &str) -> (r: bool)
    ensures
        r == lex_le(a@, b@),
{
    let a_len = a.unicode_len();
    let b_len = b.unicode_len();
    let mut i: usize = 0;
    proof {
        assert(a@.skip(0) =~= a@);
        assert(b@.skip(0) =~= b@);
    }
    while i < a_len && i < b_len
        invariant
            i <= a_len,
            i <= b_len,
            a_len == a@.len(),
            b_len == b@.len(),
            lex_le(a@, b@) == lex_le(a@.skip(i as int), b@.skip(i as int)),
        decreases a_len - i,
    {
        proof {
            assert(a@.skip(i as int)[0] == a@[i as int]);
            assert(b@.skip(i as int)[0] == b@[i as int]);
            assert(a@.skip(i as int).drop_first() =~= a@.skip(i + 1));
            assert(b@.skip(i as int).drop_first() =~= b@.skip(i + 1));
        }
        let ca = a.get_char(i);
        let cb = b.get_char(i);
        if (ca as u32) != (cb as u32) {
            return (ca as u32) < (cb as u32);
        }
        i += 1;
    }
    proof {
        if i == a_len {
            assert(a@.skip(i as int).len() == 0);
        } else {
            assert(b@.skip(i as int).len() == 0);
            assert(a@.skip(i as int).len() > 0);
        }
    }
    a_len <= b_len
}

/// The creator list is ordered by identifier.
pub open spec fn sorted_by_id(s: Seq<Creator>) -> bool {
    forall|x: int, y: int|
        0 <= x < y < s.len() ==> lex_le(
            (#[trigger] s[x]).creator_id@,
            (#[trigger] s[y]).creator_id@,
        )
}

/// Sort creators by identifier: same snapshots, ordered.
pub fn sort_creators_by_id(v: Vec<Creator>) -> (r: Vec<Creator>)
    ensures
        r@.to_multiset() == v@.to_multiset(),
        r@.len() == v@.len(),
        sorted_by_id(r@),
{
    let mut rest = v;
    let mut out: Vec<Creator> = Vec::new();
    proof {
        broadcast use vstd::seq_lib::group_to_multiset_ensures;

        assert(out@.to_multiset().add(rest@.to_multiset()) =~= rest@.to_multiset());
    }
    let ghost orig = rest@;
    while rest.len() > 0
        invariant
            out@.to_multiset().add(rest@.to_multiset()) == orig.to_multiset(),
            out@.len() + rest@.len() == orig.len(),
            sorted_by_id(out@),
            forall|x: int, y: int|
                0 <= x < out@.len() && 0 <= y < rest@.len() ==> lex_le(
                    (#[trigger] out@[x]).creator_id@,
                    (#[trigger] rest@[y]).creator_id@,
                ),
        decreases rest@.len(),
    {
        let mut m: usize = 0;
        let mut j: usize = 1;
        proof {
            lemma_lex_refl(rest@[0].creator_id@);
        }
        while j < rest.len()
            invariant
                m < j,
                1 <= j <= rest@.len(),
                forall|k: int|
                    0 <= k < j ==> lex_le(
                        rest@[m as int].creator_id@,
                        (#[trigger] rest@[k]).creator_id@,
                    ),
            decreases rest@.len() - j,
        {
            if !str_lex_le(rest[m].creator_id.as_str(), rest[j].creator_id.as_str()) {
                proof {
                    lemma_lex_total(rest@[m as int].creator_id@, rest@[j as int].creator_id@);
                    assert forall|k: int| 0 <= k < j + 1 implies lex_le(
                        rest@[j as int].creator_id@,
                        (#[trigger] rest@[k]).creator_id@,
                    ) by {
                        if k < j {
                            lemma_lex_trans(
                                rest@[j as int].creator_id@,
                                rest@[m as int].creator_id@,
                                rest@[k].creator_id@,
                            );
                        } else {
                            lemma_lex_refl(rest@[j as int].creator_id@);
                        }
                    }
                }
                m = j;
            }
            j += 1;
        }
        let ghost old_rest = rest@;
        let ghost old_out = out@;
        let c = rest.remove(m);
        proof {
            broadcast use vstd::seq_lib::group_to_multiset_ensures;

            assert(rest@.to_multiset() =~= old_rest.to_multiset().remove(old_rest[m as int]));
            assert(old_rest.to_multiset().count(old_rest[m as int]) > 0);
        }
        out.push(c);
        proof {
            broadcast use vstd::seq_lib::group_to_multiset_ensures;

            assert(out@.to_multiset() =~= old_out.to_multiset().insert(c));
            assert(out@.to_multiset().add(rest@.to_multiset()) =~= orig.to_multiset());
            assert(out@ =~= old_out.push(c));
            assert forall|x: int, y: int|
                0 <= x < y < out@.len() implies lex_le(
                (#[trigger] out@[x]).creator_id@,
                (#[trigger] out@[y]).creator_id@,
            ) by {
                if y == out@.len() - 1 {
                    assert(out@[x] == old_out[x]);
                    assert(lex_le(old_out[x].creator_id@, old_rest[m as int].creator_id@));
                }
            }
            assert forall|x: int, y: int|
                0 <= x < out@.len() && 0 <= y < rest@.len() implies lex_le(
                (#[trigger] out@[x]).creator_id@,
                (#[trigger] rest@[y]).creator_id@,
            ) by {
                let z: int = if y < m { y } else { y + 1 };
                assert(rest@[y] == old_rest[z]);
                if x < out@.len() - 1 {
                    assert(lex_le(old_out[x].creator_id@, old_rest[z].creator_id@));
                } else {
                    assert(lex_le(old_rest[m as int].creator_id@, old_rest[z].creator_id@));
                }
            }
        }
    }
    proof {
        broadcast use vstd::seq_lib::group_to_multiset_ensures;

        assert(rest@.to_multiset() =~= Multiset::<Creator>::empty());
        assert(out@.to_multiset().add(rest@.to_multiset()) =~= out@.to_multiset());
    }
    out
}

/// The id column's width: at least the banner label's width, wide enough
/// for every id.
pub open spec fn spec_id_width(s: Seq<Creator>) -> int
    decreases s.len(),
{
    if s.len() == 0 {
        11
    } else {
        let prev = spec_id_width(s.drop_last());
        if s.last().creator_id@.len() > prev {
            s.last().creator_id@.len() as int
        } else {
            prev
        }
    }
}

/// The fee column's width: at least the banner label's width, wide enough
/// for every fee's decimal rendering.
pub open spec fn spec_fee_width(s: Seq<Creator>) -> int
    decreases s.len(),
{
    if s.len() == 0 {
        5
    } else {
        let prev = spec_fee_width(s.drop_last());
        if spec_dec(s.last().fee as u64).len() > prev {
            spec_dec(s.last().fee as u64).len() as int
        } else {
            prev
        }
    }
}

/// Pad `s` on the right with `fill` up to `w` characters.
pub open spec fn spec_pad_right(s: Seq<char>, fill: Seq<char>, w: int) -> Seq<char> {
    if s.len() < w {
        s + spec_repeat(fill, (w - s.len()) as nat)
    } else {
        s
    }
}

/// Pad `s` on the left with spaces up to `w` characters.
pub open spec fn spec_pad_left(s: Seq<char>, w: int) -> Seq<char> {
    if s.len() < w {
        spec_repeat(" "@, (w - s.len()) as nat) + s
    } else {
        s
    }
}

/// The table's header line.
pub open spec fn spec_table_header(idw: int, feew: int) -> Seq<char> {
    "+-"@ + spec_pad_right(" CreatorId "@, "-"@, idw) + "-+-"@ + spec_pad_right(
        " Fee "@,
        "-"@,
        feew,
    ) + "--+- Name ------- - -"@
}

/// One creator's table row.
pub open spec fn spec_table_row(c: Creator, idw: int, feew: int) -> Seq<char> {
    "| "@ + spec_pad_right(c.creator_id@, " "@, idw) + " | "@ + spec_pad_left(
        spec_dec(c.fee as u64),
        feew,
    ) + "$ | "@ + c.name@
}

/// The table's footer line.
pub open spec fn spec_table_footer(idw: int, feew: int) -> Seq<char> {
    "+-"@ + spec_repeat("-"@, idw as nat) + "-+-"@ + spec_repeat("-"@, feew as nat)
        + "--+-------------- - -"@
}

/// Right-pad a string with a one-character fill.
fn pad_right(s: &str, fill: &str, w: usize) -> (r: String)
    ensures
        r@ == spec_pad_right(s@, fill@, w as int),
{
    let len = s.unicode_len();
    let mut out = crate::strings::to_owned_str(s);
    if len < w {
        let pad = repeat_str(fill, w - len);
        out.append(pad.as_str());
    }
    out
}

/// Left-pad a string with spaces.
fn pad_left(s: &str, w: usize) -> (r: String)
    ensures
        r@ == spec_pad_left(s@, w as int),
{
    let len = s.unicode_len();
    if len < w {
        let mut out = repeat_str(" ", w - len);
        out.append(s);
        out
    } else {
        crate::strings::to_owned_str(s)
    }
}

/// Render the run-start creator overview: a header, one row per creator in
/// identifier order, a footer and a blank line. Column widths fit the
/// widest identifier and fee.
pub fn display_creators(creators: &Vec<Creator>) -> (r: Vec<String>)
    ensures
        r@.len() == creators@.len() + 3,
        exists|s: Seq<Creator>|
            {
                &&& #[trigger] s.to_multiset() == creators@.to_multiset()
                &&& sorted_by_id(s)
                &&& s.len() == creators@.len()
                &&& views(r@)[0] == spec_table_header(
                    spec_id_width(creators@),
                    spec_fee_width(creators@),
                )
                &&& (forall|i: int|
                    0 <= i < s.len() ==> views(r@)[1 + i] == spec_table_row(
                        #[trigger] s[i],
                        spec_id_width(creators@),
                        spec_fee_width(creators@),
                    ))
                &&& views(r@)[creators@.len() as int + 1] == spec_table_footer(
                    spec_id_width(creators@),
                    spec_fee_width(creators@),
                )
                &&& views(r@)[creators@.len() as int + 2] == Seq::<char>::empty()
            },
{
    let mut id_width: usize = 11;
    let mut fee_width: usize = 5;
    let mut i: usize = 0;
    while i < creators.len()
        invariant
            i <= creators@.len(),
            id_width == spec_id_width(creators@.take(i as int)),
            fee_width == spec_fee_width(creators@.take(i as int)),
        decreases creators@.len() - i,
    {
        proof {
            assert(creators@.take(i + 1).drop_last() =~= creators@.take(i as int));
            assert(creators@.take(i + 1).last() == creators@[i as int]);
        }
        let id_len = creators[i].creator_id.as_str().unicode_len();
        if id_len > id_width {
            id_width = id_len;
        }
        let fee_str = u32_to_string(creators[i].fee);
        let fee_len = fee_str.as_str().unicode_len();
        if fee_len > fee_width {
            fee_width = fee_len;
        }
        i += 1;
    }
    proof {
        assert(creators@.take(creators@.len() as int) =~= creators@);
    }
    let mut copy: Vec<Creator> = Vec::new();
    let mut k: usize = 0;
    while k < creators.len()
        invariant
            k <= creators@.len(),
            copy@ =~= creators@.subrange(0, k as int),
        decreases creators@.len() - k,
    {
        copy.push(creators[k].clone());
        k += 1;
    }
    proof {
        assert(copy@ =~= creators@);
    }
    let sorted = sort_creators_by_id(copy);
    let mut lines: Vec<String> = Vec::new();
    let mut header = String::from_str("+-");
    let padded_id = pad_right(" CreatorId ", "-", id_width);
    header.append(padded_id.as_str());
    header.append("-+-");
    let padded_fee = pad_right(" Fee ", "-", fee_width);
    header.append(padded_fee.as_str());
    header.append("--+- Name ------- - -");
    lines.push(header);
    let mut j: usize = 0;
    while j < sorted.len()
        invariant
            j <= sorted@.len(),
            sorted@.to_multiset() == creators@.to_multiset(),
            sorted@.len() == creators@.len(),
            sorted_by_id(sorted@),
            id_width == spec_id_width(creators@),
            fee_width == spec_fee_width(creators@),
            lines@.len() == 1 + j,
            views(lines@)[0] == spec_table_header(id_width as int, fee_width as int),
            forall|x: int|
                0 <= x < j ==> views(lines@)[1 + x] == spec_table_row(
                    #[trigger] sorted@[x],
                    id_width as int,
                    fee_width as int,
                ),
        decreases sorted@.len() - j,
    {
        let mut row = String::from_str("| ");
        let pid = pad_right(sorted[j].creator_id.as_str(), " ", id_width);
        row.append(pid.as_str());
        row.append(" | ");
        let fee_str = u32_to_string(sorted[j].fee);
        let pfee = pad_left(fee_str.as_str(), fee_width);
        row.append(pfee.as_str());
        row.append("$ | ");
        row.append(sorted[j].name.as_str());
        lines.push(row);
        j += 1;
    }
    let mut footer = String::from_str("+-");
    let dash_id = repeat_str("-", id_width);
    footer.append(dash_id.as_str());
    footer.append("-+-");
    let dash_fee = repeat_str("-", fee_width);
    footer.append(dash_fee.as_str());
    footer.append("--+-------------- - -");
    lines.push(footer);
    lines.push(String::new());
    proof {
        let s = sorted@;
        assert(views(lines@)[creators@.len() as int + 1] == spec_table_footer(
            id_width as int,
            fee_width as int,
        ));
        assert(views(lines@)[creators@.len() as int + 2] == Seq::<char>::empty());
        assert(s.to_multiset() == creators@.to_multiset() && sorted_by_id(s) && s.len()
            == creators@.len() && views(lines@)[0] == spec_table_header(
            spec_id_width(creators@),
            spec_fee_width(creators@),
        ) && (forall|i: int|
            0 <= i < s.len() ==> views(lines@)[1 + i] == spec_table_row(
                #[trigger] s[i],
                spec_id_width(creators@),
                spec_fee_width(creators@),
            )) && views(lines@)[creators@.len() as int + 1] == spec_table_footer(
            spec_id_width(creators@),
            spec_fee_width(creators@),
        ) && views(lines@)[creators@.len() as int + 2] == Seq::<char>::empty());
    }
    lines
}

/// A listed post survives selection when the configured post filter accepts
/// it and — unless the strategy forces re-imports — the archive does not
/// already hold it unchanged.
pub open spec fn spec_post_selected(
    p: PostListItem,
    cfg: Config,
    archived: Seq<(String, i64)>,
) -> bool {
    spec_filter_post(cfg, p) && (cfg.strategy == Strategy::Force || !spec_archived(
        archived,
        spec_source_link(p.creator_id@, p.id@),
        p.updated_datetime,
    ))
}

/// The selected candidates, in listing order.
pub open spec fn spec_select_posts(
    posts: Seq<PostListItem>,
    cfg: Config,
    archived: Seq<(String, i64)>,
) -> Seq<PostListItem>
    decreases posts.len(),
{
    if posts.len() == 0 {
        Seq::empty()
    } else {
        let prev = spec_select_posts(posts.drop_last(), cfg, archived);
        if spec_post_selected(posts.last(), cfg, archived) {
            prev.push(posts.last())
        } else {
            prev
        }
    }
}

/// Idempotent discovery at the dedup gate: everything selection lets
/// through comes from the listing and passes the selection predicate — so,
/// outside the force strategy, a post the archive already holds unchanged
/// is never a candidate again, and an unchanged second run re-imports
/// nothing.
pub proof fn lemma_selection_excludes_archived(
    posts: Seq<PostListItem>,
    cfg: Config,
    archived: Seq<(String, i64)>,
)
    ensures
        forall|i: int|
            0 <= i < spec_select_posts(posts, cfg, archived).len() ==> spec_post_selected(
                #[trigger] spec_select_posts(posts, cfg, archived)[i],
                cfg,
                archived,
            ) && posts.contains(spec_select_posts(posts, cfg, archived)[i]),
    decreases posts.len(),
{
    if posts.len() > 0 {
        lemma_selection_excludes_archived(posts.drop_last(), cfg, archived);
        let prev = spec_select_posts(posts.drop_last(), cfg, archived);
        assert forall|i: int|
            0 <= i < spec_select_posts(posts, cfg, archived).len() implies spec_post_selected(
            #[trigger] spec_select_posts(posts, cfg, archived)[i],
            cfg,
            archived,
        ) && posts.contains(spec_select_posts(posts, cfg, archived)[i]) by {
            if i < prev.len() {
                assert(spec_select_posts(posts, cfg, archived)[i] == prev[i]);
                let w = choose|w: int| 0 <= w < posts.drop_last().len() && posts.drop_last()[w]
                    == prev[i];
                assert(posts[w] == prev[i]);
            } else {
                assert(spec_select_posts(posts, cfg, archived)[i] == posts.last());
                assert(posts[posts.len() - 1] == posts.last());
            }
        }
    }
}

/// Select the candidate posts of one creator's listing: keep a post only
/// if the post filter accepts it and, outside the force strategy, the
/// archive's dedup check does not already hold it unchanged.
pub fn select_posts(posts: Vec<PostListItem>, config: &Config, archived: &ArchiveIndex) -> (r: Vec<
    PostListItem,
>)
    ensures
        r@ == spec_select_posts(posts@, *config, archived.entries@),
{
    let mut out: Vec<PostListItem> = Vec::new();
    let mut rest = posts;
    let ghost all = rest@;
    let initial_len = rest.len();
    let mut i: usize = 0;
    proof {
        assert(all.take(0) =~= Seq::<PostListItem>::empty());
        assert(out@ =~= spec_select_posts(all.take(0), *config, archived.entries@));
        assert(rest@ =~= all.subrange(0, initial_len as int));
    }
    while rest.len() > 0
        invariant
            i + rest@.len() == initial_len,
            initial_len == all.len(),
            rest@ == all.subrange(i as int, initial_len as int),
            out@ == spec_select_posts(all.take(i as int), *config, archived.entries@),
        decreases rest@.len(),
    {
        let ghost old_rest = rest@;
        let p = rest.remove(0);
        proof {
            assert(p == old_rest[0]);
            assert(old_rest[0] == all[i as int]);
            assert(rest@ =~= all.subrange(i + 1, initial_len as int));
            assert(all.take(i + 1).drop_last() =~= all.take(i as int));
            assert(all.take(i + 1).last() == all[i as int]);
        }
        let keep = config.filter_post(&p) && (matches!(config.strategy, Strategy::Force)
            || crate::sync::filter_unsynced_post(archived, &p));
        if keep {
            out.push(p);
        }
        i += 1;
    }
    proof {
        assert(all.take(i as int) =~= all);
    }
    out
}

} // verus!
