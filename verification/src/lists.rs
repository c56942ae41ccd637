//! The lists of the file format: members separated by commas, up to a
//! closing bracket or brace. That such a list can be read in one way only.

use crate::pieces::goes_on;
use crate::pieces::lemma_cancel;
use vstd::prelude::*;

verus! {

/// What stands in front of a member: nothing in front of the first, a comma
/// in front of the others.
pub open spec fn separator(first: bool) -> Seq<char> {
    if first {
        Seq::empty()
    } else {
        seq![',']
    }
}

/// The members `ts`, separated by commas, and the closing character; with
/// `first` false, a comma in front of the first of them too.
pub open spec fn items(ts: Seq<Seq<char>>, first: bool, close: char) -> Seq<char>
    decreases ts.len(),
{
    if ts.len() == 0 {
        seq![close]
    } else {
        separator(first) + ts[0] + items(ts.skip(1), false, close)
    }
}

/// `t` starts with a comma or with the closing character.
pub open spec fn delimited(t: Seq<char>, close: char) -> bool {
    t.len() > 0 && (t[0] == ',' || t[0] == close)
}

/// Every member of `ts` is of `texts`.
pub open spec fn all_in(ts: Seq<Seq<char>>, texts: Set<Seq<char>>) -> bool {
    forall|i: int| 0 <= i < ts.len() ==> texts.contains(#[trigger] ts[i])
}

/// The texts of `texts` can be members of a list that closes with `close`:
/// in front of text of `tails` none of them can be read in two ways, what
/// follows a member in a list is of `tails`, and none of them starts like
/// the end of the list.
pub open spec fn member_kind(texts: Set<Seq<char>>, tails: Set<Seq<char>>, close: char) -> bool {
    &&& forall|a: Seq<char>, b: Seq<char>, u: Seq<char>, v: Seq<char>|
        texts.contains(a) && texts.contains(b) && tails.contains(u) && tails.contains(v)
            && #[trigger] goes_on(a + u, b, v) ==> a == b && u == v
    &&& close != ','
    &&& forall|t: Seq<char>| #[trigger] delimited(t, close) ==> tails.contains(t)
    &&& forall|a: Seq<char>| #[trigger] texts.contains(a) ==> a.len() > 0 && a[0] != close
}

/// How a list in front of `t` starts.
pub proof fn lemma_items_head(ts: Seq<Seq<char>>, first: bool, close: char, t: Seq<char>)
    ensures
        (items(ts, first, close) + t).len() > 0,
        ts.len() == 0 ==> items(ts, first, close) + t == seq![close] + t && (items(
            ts,
            first,
            close,
        ) + t)[0] == close,
        ts.len() > 0 ==> items(ts, first, close) + t == separator(first) + (ts[0] + (items(
            ts.skip(1),
            false,
            close,
        ) + t)),
        !first ==> delimited(items(ts, first, close) + t, close),
        ts.len() > 0 && !first ==> (items(ts, first, close) + t)[0] == ',',
{
    let w = items(ts, first, close) + t;
    if ts.len() == 0 {
        assert(w[0] == seq![close][0]);
    } else {
        let tail = items(ts.skip(1), false, close) + t;
        assert(w =~= separator(first) + (ts[0] + tail));
        assert(items(ts.skip(1), false, close).len() > 0) by {
            if ts.skip(1).len() > 0 {
                assert(separator(false).len() == 1);
            }
        }
        if !first {
            assert(w[0] == separator(first)[0]);
        }
    }
}

/// A list in front of any text can be read in one way only.
pub proof fn lemma_items_unique(
    ts1: Seq<Seq<char>>,
    ts2: Seq<Seq<char>>,
    u: Seq<char>,
    v: Seq<char>,
    first: bool,
    close: char,
    texts: Set<Seq<char>>,
    tails: Set<Seq<char>>,
)
    requires
        items(ts1, first, close) + u == items(ts2, first, close) + v,
        all_in(ts1, texts),
        all_in(ts2, texts),
        member_kind(texts, tails, close),
    ensures
        ts1 == ts2,
        u == v,
    decreases ts1.len(),
{
    let w = items(ts1, first, close) + u;
    lemma_items_head(ts1, first, close, u);
    lemma_items_head(ts2, first, close, v);
    if ts1.len() > 0 && ts2.len() > 0 {
        let r1 = items(ts1.skip(1), false, close) + u;
        let r2 = items(ts2.skip(1), false, close) + v;
        lemma_cancel(separator(first), ts1[0] + r1, ts2[0] + r2);
        lemma_items_head(ts1.skip(1), false, close, u);
        lemma_items_head(ts2.skip(1), false, close, v);
        assert(texts.contains(ts1[0]) && texts.contains(ts2[0]));
        assert(goes_on(ts1[0] + r1, ts2[0], r2));
        assert forall|i: int| 0 <= i < ts1.skip(1).len() implies texts.contains(
            #[trigger] ts1.skip(1)[i],
        ) by {
            assert(ts1.skip(1)[i] == ts1[i + 1]);
        }
        assert forall|i: int| 0 <= i < ts2.skip(1).len() implies texts.contains(
            #[trigger] ts2.skip(1)[i],
        ) by {
            assert(ts2.skip(1)[i] == ts2[i + 1]);
        }
        lemma_items_unique(ts1.skip(1), ts2.skip(1), u, v, false, close, texts, tails);
        assert(ts1 =~= seq![ts1[0]] + ts1.skip(1));
        assert(ts2 =~= seq![ts2[0]] + ts2.skip(1));
    } else if ts1.len() == 0 && ts2.len() == 0 {
        lemma_cancel(seq![close], u, v);
        assert(ts1 =~= ts2);
    } else {
        let ts = if ts1.len() > 0 {
            ts1
        } else {
            ts2
        };
        let t = if ts1.len() > 0 {
            u
        } else {
            v
        };
        assert(w[0] == close);
        assert(texts.contains(ts[0]));
        if first {
            assert(separator(first) + (ts[0] + (items(ts.skip(1), false, close) + t)) =~= ts[0]
                + (items(ts.skip(1), false, close) + t));
            assert(w[0] == ts[0][0]);
        }
        assert(false);
    }
}

} // verus!
