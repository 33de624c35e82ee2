//! What holds of texts and of documents, which everything else is built on.

use vstd::prelude::*;

use crate::json::{array_view, members_view, opt_json, Json, JsonView, Member};
use crate::text::{
    find, find_from, is_blank, is_white, join_spec, lex_less, lower, lower_char, occurs_at,
    opt_view, split_by, split_once_spec, starts_with, strip_prefix_spec, trim, trim_end,
    trim_start, views,
};

verus! {

broadcast use vstd::string::group_string_axioms;

/// A text consists of white space only.
pub open spec fn all_white(s: Seq<char>) -> bool {
    forall|i: int| 0 <= i < s.len() ==> is_white(#[trigger] s[i])
}

proof fn lemma_trim_start_parts(s: Seq<char>)
    ensures
        ({
            let t = trim_start(s);
            &&& t.len() <= s.len()
            &&& s.skip(s.len() - t.len()) == t
            &&& all_white(s.take(s.len() - t.len()))
            &&& t.len() > 0 ==> !is_white(t[0])
        }),
    decreases s.len(),
{
    let t = trim_start(s);
    if s.len() > 0 && is_white(s[0]) {
        let r = s.drop_first();
        lemma_trim_start_parts(r);
        let k = r.len() - t.len();
        assert(s.skip(k + 1) =~= r.skip(k));
        assert forall|i: int| 0 <= i < k + 1 implies is_white(#[trigger] s.take(k + 1)[i]) by {
            if i > 0 {
                assert(s[i] == r.take(k)[i - 1]);
            }
        }
    } else {
        assert(s.skip(0) =~= s);
    }
}

proof fn lemma_trim_end_parts(s: Seq<char>)
    ensures
        ({
            let t = trim_end(s);
            &&& t.len() <= s.len()
            &&& s.take(t.len() as int) == t
            &&& all_white(s.skip(t.len() as int))
            &&& t.len() > 0 ==> !is_white(t.last())
        }),
    decreases s.len(),
{
    let t = trim_end(s);
    if s.len() > 0 && is_white(s.last()) {
        let f = s.drop_last();
        lemma_trim_end_parts(f);
        let k = t.len() as int;
        assert(s.take(k) =~= f.take(k));
        assert forall|i: int| 0 <= i < s.skip(k).len() implies is_white(#[trigger] s.skip(k)[i]) by {
            if i < f.skip(k).len() {
                assert(s.skip(k)[i] == f.skip(k)[i]);
            }
        }
    } else {
        assert(s.take(s.len() as int) =~= s);
    }
}

/// Trimming takes white space away from both ends, all of it, and nothing else.
pub proof fn trimming_takes_white_space_only(s: Seq<char>)
    ensures
        exists|a: Seq<char>, b: Seq<char>| #[trigger]
            all_white(a) && #[trigger] all_white(b) && s == a + trim(s) + b,
        trim(s).len() > 0 ==> !is_white(trim(s)[0]) && !is_white(trim(s).last()),
        is_blank(s) <==> all_white(s),
{
    let m = trim_start(s);
    let t = trim(s);
    lemma_trim_start_parts(s);
    lemma_trim_end_parts(m);
    let a = s.take(s.len() - m.len());
    let b = m.skip(t.len() as int);
    assert(s =~= a + m);
    assert(m =~= t + b);
    assert(s =~= a + t + b);
    assert(all_white(a) && all_white(b));
    if t.len() > 0 {
        assert(t[0] == m[0]);
        assert(s[a.len() as int] == t[0]);
    } else {
        assert forall|i: int| 0 <= i < s.len() implies is_white(#[trigger] s[i]) by {
            if i < a.len() {
                assert(s[i] == a[i]);
            } else {
                assert(s[i] == b[i - a.len()]);
            }
        }
    }
}

/// The usual white space is white, and what can be seen of ASCII is not.
pub proof fn white_space_cannot_be_seen(c: char)
    ensures
        is_white(' ') && is_white('\t') && is_white('\n') && is_white('\r'),
        0x21 <= c as u32 <= 0x7e ==> !is_white(c),
{
}

/// A text in lower case has the same letters, with the capitals of ASCII replaced by
/// their small ones, and nothing else changed.
pub proof fn lower_case_changes_capitals_only(s: Seq<char>, i: int)
    requires
        0 <= i < s.len(),
    ensures
        lower(s).len() == s.len(),
        'A' <= s[i] <= 'Z' ==> lower(s)[i] as u32 == s[i] as u32 + 32,
        !('A' <= s[i] <= 'Z') ==> lower(s)[i] == s[i],
        lower(lower(s)) == lower(s),
{
    assert forall|k: int| 0 <= k < s.len() implies lower_char(lower_char(#[trigger] s[k]))
        == lower_char(s[k]) by {}
    assert(lower(lower(s)) =~= lower(s));
}

/// A prefix that is put before a text can be taken away again, and only a prefix can.
pub proof fn a_prefix_comes_off(prefix: Seq<char>, s: Seq<char>, whole: Seq<char>)
    ensures
        starts_with(prefix + s, prefix),
        strip_prefix_spec(prefix + s, prefix) == Some(s),
        strip_prefix_spec(whole, prefix) matches Some(rest) ==> whole == prefix + rest,
        strip_prefix_spec(whole, prefix) is None <==> !starts_with(whole, prefix),
{
    let both = prefix + s;
    assert(both.subrange(0, prefix.len() as int) =~= prefix);
    assert(both.subrange(prefix.len() as int, both.len() as int) =~= s);
    if starts_with(whole, prefix) {
        let n = prefix.len() as int;
        assert(whole =~= prefix + whole.subrange(n, whole.len() as int)) by {
            assert(whole.subrange(0, n) == prefix);
            assert forall|i: int| 0 <= i < n implies whole[i] == prefix[i] by {
                assert(whole.subrange(0, n)[i] == prefix[i]);
            }
        }
    }
}

proof fn lemma_found(s: Seq<char>, pat: Seq<char>, i: int)
    requires
        0 <= i,
    ensures
        match find_from(s, pat, i) {
            Some(k) => i <= k && occurs_at(s, pat, k) && forall|j: int|
                i <= j < k ==> !occurs_at(s, pat, j),
            None => forall|j: int| i <= j ==> !occurs_at(s, pat, j),
        },
    decreases s.len() + 1 - i,
{
    if i + pat.len() <= s.len() && !occurs_at(s, pat, i) {
        lemma_found(s, pat, i + 1);
    }
}

/// A text that is cut in two at a mark can be put together again, and has the mark
/// nowhere before the cut.
pub proof fn a_cut_is_at_the_first_mark(s: Seq<char>, pat: Seq<char>)
    ensures
        match split_once_spec(s, pat) {
            Some((a, b)) => s == a + pat + b && forall|j: int|
                0 <= j < a.len() ==> !occurs_at(s, pat, j),
            None => forall|j: int| 0 <= j ==> !occurs_at(s, pat, j),
        },
{
    lemma_found(s, pat, 0);
    if find(s, pat) is Some {
        let k = find(s, pat)->0;
        let a = s.subrange(0, k);
        let b = s.subrange(k + pat.len(), s.len() as int);
        let whole = a + pat + b;
        assert(s =~= whole) by {
            assert forall|i: int| 0 <= i < s.len() implies s[i] == whole[i] by {
                if k <= i < k + pat.len() {
                    assert(s.subrange(k, k + pat.len())[i - k] == s[i]);
                }
            }
        }
    }
}

/// Texts are joined one after the other with a mark between them.
pub proof fn joined_texts_keep_their_order(list: Seq<Seq<char>>, t: Seq<char>, sep: Seq<char>)
    ensures
        join_spec(Seq::empty(), sep) == Seq::<char>::empty(),
        join_spec(seq![t], sep) == t,
        list.len() > 0 ==> join_spec(list.push(t), sep) == join_spec(list, sep) + sep + t,
{
    assert(list.push(t).drop_last() =~= list);
}

proof fn lemma_pieces(s: Seq<char>)
    ensures
        split_by(s, |c: char| c == '\n').len() > 0,
        join_spec(split_by(s, |c: char| c == '\n'), seq!['\n']) == s,
    decreases s.len(),
{
    let sep = |c: char| c == '\n';
    let nl = seq!['\n'];
    if s.len() == 0 {
        assert(s =~= Seq::<char>::empty());
    } else {
        let f = s.drop_last();
        lemma_pieces(f);
        let front = split_by(f, sep);
        let all = split_by(s, sep);
        assert(s =~= f.push(s.last()));
        if s.last() == '\n' {
            assert(all.drop_last() =~= front);
            assert(join_spec(all, nl) =~= s);
        } else {
            assert(all.drop_last() =~= front.drop_last());
            assert(all.last() == front.last().push(s.last()));
            if front.len() == 1 {
                assert(join_spec(all, nl) =~= s);
            } else {
                assert(join_spec(front, nl) == join_spec(front.drop_last(), nl) + nl
                    + front.last());
                assert(join_spec(all, nl) =~= s);
            }
        }
    }
}

/// A text that is split into lines and joined again is the same.
pub proof fn lines_can_be_joined_again(s: Seq<char>)
    ensures
        join_spec(split_by(s, |c: char| c == '\n'), seq!['\n']) == s,
{
    lemma_pieces(s);
}

/// Texts are ordered by the first letter in which they differ, and a text comes after
/// those that begin it.
pub proof fn texts_are_ordered_by_letters(
    head: Seq<char>,
    a: Seq<char>,
    b: Seq<char>,
)
    ensures
        a.len() > 0 && b.len() > 0 && a[0] as u32 != b[0] as u32 ==> (lex_less(head + a, head + b)
            <==> (a[0] as u32) < (b[0] as u32)),
        b.len() > 0 ==> lex_less(head, head + b),
        !lex_less(head + b, head),
    decreases head.len(),
{
    if head.len() == 0 {
        assert(head + a =~= a);
        assert(head + b =~= b);
        assert(head =~= Seq::<char>::empty());
    } else {
        texts_are_ordered_by_letters(head.drop_first(), a, b);
        assert((head + a).drop_first() =~= head.drop_first() + a);
        assert((head + b).drop_first() =~= head.drop_first() + b);
    }
}

/// A member that is set is found under its key, and the others stay.
pub proof fn a_member_that_is_set_is_found(
    j: JsonView,
    key: Seq<char>,
    other: Seq<char>,
    value: JsonView,
)
    requires
        j is Object,
    ensures
        j.with(key, value).get(key) == Some(value),
        other != key ==> j.with(key, value).get(other) == j.get(other),
        JsonView::object().get(other) is None,
        JsonView::or_null(Some(value)) == value,
        JsonView::or_null(None) is Null,
{
}

/// A document is read as what it is: a text as a text, an integer that fits as one,
/// and nothing else as either.
pub proof fn a_document_is_read_as_what_it_is(j: JsonView, t: Seq<char>, n: i64, key: Seq<char>)
    ensures
        JsonView::Text(t).as_str() == Some(t),
        !(j is Text) ==> j.as_str() is None,
        JsonView::Int(n as int).as_i64() == Some(n),
        !(j is Int) ==> j.as_i64() is None,
        !(j is Object) ==> j.get(key) is None,
        j.get(key) matches Some(v) ==> j.get_str(key) == v.as_str() && j.get_i64(key)
            == v.as_i64(),
        j.get(key) is None ==> j.get_str(key) is None && j.get_i64(key) is None,
{
}

/// A member of a member is found step by step.
pub proof fn an_inner_member_is_found(j: JsonView, outer: Seq<char>, inner: Seq<char>, v: JsonView)
    ensures
        j.get(outer) == Some(v) ==> j.get2(outer, inner) == v.get(inner) && j.get2_str(
            outer,
            inner,
        ) == v.get_str(inner),
        j.get(outer) is None ==> j.get2(outer, inner) is None && j.get2_str(outer, inner) is None,
{
}

/// Of two members with one key the later one counts.
pub proof fn the_later_member_counts(members: Seq<Member>, m: Member, key: Seq<char>)
    ensures
        members_view(members.push(m)).contains_key(m.key@),
        members_view(members.push(m))[m.key@] == m.value@,
        key != m.key@ ==> members_view(members.push(m)).contains_key(key) == members_view(
            members,
        ).contains_key(key),
        key != m.key@ && members_view(members).contains_key(key) ==> members_view(
            members.push(m),
        )[key] == members_view(members)[key],
        members_view(Seq::empty()) == Map::<Seq<char>, JsonView>::empty(),
{
    assert(members.push(m).drop_last() =~= members);
}

/// Lists are seen item by item, in their order.
pub proof fn lists_are_seen_item_by_item(items: Seq<Json>, texts: Seq<String>, i: int)
    ensures
        array_view(items).len() == items.len(),
        0 <= i < items.len() ==> array_view(items)[i] == items[i]@,
        views(texts).len() == texts.len(),
        0 <= i < texts.len() ==> views(texts)[i] == texts[i]@,
{
}

/// What a plain value denotes.
pub proof fn plain_values_denote_themselves(b: bool, i: i64, u: u64, t: String, o: Option<String>)
    ensures
        Json::Null@ is Null,
        Json::Bool(b)@ == JsonView::Bool(b),
        Json::Int(i)@ == JsonView::Int(i as int),
        Json::UInt(u)@ == JsonView::Int(u as int),
        Json::Text(t)@ == JsonView::Text(t@),
        opt_json(None) is None,
        o matches Some(x) ==> opt_view(o) == Some(x@),
        o is None ==> opt_view(o) is None,
{
}

} // verus!
