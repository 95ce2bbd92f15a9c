//! The listing page of a served folder: one list item per entry, the items
//! in the order of their text, inside a page with the folder's title and a
//! link to its parent.

use vstd::prelude::*;
use vstd::relations::{sorted_by, total_ordering};
use vstd::seq_lib::{to_multiset_build, to_multiset_insert, lemma_sorted_unique};
use crate::folder::FolderEntry;
use crate::text::{push_text, string_from_chars};

verus! {

/// The order of texts that `String`'s `Ord` gives: character by character
/// by code point (the order of their UTF-8 bytes), a prefix first.
pub open spec fn lex_le(a: Seq<char>, b: Seq<char>) -> bool
    decreases a.len(),
{
    if a.len() == 0 {
        true
    } else if b.len() == 0 {
        false
    } else if a[0] < b[0] {
        true
    } else if a[0] != b[0] {
        false
    } else {
        lex_le(a.drop_first(), b.drop_first())
    }
}

/// [`lex_le`] as a relation.
pub open spec fn text_order() -> spec_fn(Seq<char>, Seq<char>) -> bool {
    |a: Seq<char>, b: Seq<char>| lex_le(a, b)
}

proof fn lemma_lex_reflexive(a: Seq<char>)
    ensures
        lex_le(a, a),
    decreases a.len(),
{
    if a.len() > 0 {
        lemma_lex_reflexive(a.drop_first());
    }
}

proof fn lemma_lex_antisymmetric(a: Seq<char>, b: Seq<char>)
    requires
        lex_le(a, b),
        lex_le(b, a),
    ensures
        a == b,
    decreases a.len(),
{
    if a.len() == 0 {
        assert(b.len() == 0);
        assert(a =~= b);
    } else {
        assert(b.len() > 0);
        assert(a[0] == b[0]);
        lemma_lex_antisymmetric(a.drop_first(), b.drop_first());
        assert(a =~= seq![a[0]] + a.drop_first());
        assert(b =~= seq![b[0]] + b.drop_first());
    }
}

proof fn lemma_lex_transitive(a: Seq<char>, b: Seq<char>, c: Seq<char>)
    requires
        lex_le(a, b),
        lex_le(b, c),
    ensures
        lex_le(a, c),
    decreases a.len(),
{
    if a.len() > 0 && b.len() > 0 && c.len() > 0 && a[0] == b[0] && b[0] == c[0] {
        lemma_lex_transitive(a.drop_first(), b.drop_first(), c.drop_first());
    }
}

proof fn lemma_lex_total(a: Seq<char>, b: Seq<char>)
    ensures
        lex_le(a, b) || lex_le(b, a),
    decreases a.len(),
{
    if a.len() > 0 && b.len() > 0 {
        if a[0] == b[0] {
            lemma_lex_total(a.drop_first(), b.drop_first());
        }
    }
}

/// The order of texts is a total order.
pub proof fn lemma_text_order_total()
    ensures
        total_ordering(text_order()),
{
    assert forall|x: Seq<char>| #[trigger] text_order()(x, x) by {
        lemma_lex_reflexive(x);
    }
    assert forall|x: Seq<char>, y: Seq<char>| #[trigger] text_order()(x, y) && #[trigger] text_order()(y, x) implies x == y by {
        lemma_lex_antisymmetric(x, y);
    }
    assert forall|x: Seq<char>, y: Seq<char>, z: Seq<char>| #[trigger] text_order()(x, y) && #[trigger] text_order()(y, z) implies text_order()(x, z) by {
        lemma_lex_transitive(x, y, z);
    }
    assert forall|x: Seq<char>, y: Seq<char>| #[trigger] text_order()(x, y) || #[trigger] text_order()(y, x) by {
        lemma_lex_total(x, y);
    }
}

/// Whether `a` comes no later than `b`; see [`lex_le`].
fn text_le(a: &[char], b: &[char]) -> (r: bool)
    ensures
        r == lex_le(a@, b@),
{
    let mut i: usize = 0;
    assert(a@.skip(0) =~= a@);
    assert(b@.skip(0) =~= b@);
    loop
        invariant
            i <= a@.len(),
            i <= b@.len(),
            lex_le(a@, b@) == lex_le(a@.skip(i as int), b@.skip(i as int)),
        decreases a@.len() - i,
    {
        if i == a.len() {
            return true;
        }
        if i == b.len() {
            return false;
        }
        let x = a[i];
        let y = b[i];
        assert(a@.skip(i as int)[0] == x);
        assert(b@.skip(i as int)[0] == y);
        if x < y {
            return true;
        }
        if x != y {
            return false;
        }
        assert(a@.skip(i as int).drop_first() =~= a@.skip(i + 1));
        assert(b@.skip(i as int).drop_first() =~= b@.skip(i + 1));
        i = i + 1;
    }
}

/// The list item of one entry: a link to the entry's path under its name,
/// classed as a folder or a file.
pub open spec fn entry_html_spec(e: FolderEntry) -> Seq<char> {
    "<li class=\""@ + (if e.is_folder { "folder"@ } else { "file"@ }) + "\"><a href=\""@ + e.path@ + "\">"@
        + e.name@ + "</a></li>"@
}

/// The list items of the entries, in the entries' order.
pub open spec fn entry_items(es: Seq<FolderEntry>) -> Seq<Seq<char>> {
    es.map_values(|e: FolderEntry| entry_html_spec(e))
}

/// Texts written one after the other.
pub open spec fn concat_texts(s: Seq<Seq<char>>) -> Seq<char>
    decreases s.len(),
{
    if s.len() == 0 {
        Seq::empty()
    } else {
        concat_texts(s.drop_last()) + s.last()
    }
}

/// The listing page of a folder titled `title` whose parent link is
/// `parent`: the entries' list items sorted as texts, between the page's
/// head and foot.
pub open spec fn folder_page_spec(title: Seq<char>, parent: Seq<char>, es: Seq<FolderEntry>) -> Seq<char> {
    "<!DOCTYPE html><html><head><title>"@ + title + "</title></head><body><h1>"@ + title
        + "</h1><a href=\""@ + parent + "\">"@ + parent + "</a><ul>"@
        + concat_texts(entry_items(es).sort_by(text_order())) + "</ul></body></html>"@
}

/// Character sequences by their views.
pub open spec fn texts_view(v: Seq<Vec<char>>) -> Seq<Seq<char>> {
    v.map_values(|x: Vec<char>| x@)
}

fn entry_html(e: &FolderEntry) -> (v: Vec<char>)
    ensures
        v@ == entry_html_spec(*e),
{
    let mut v: Vec<char> = Vec::new();
    push_text(&mut v, "<li class=\"");
    if e.is_folder {
        push_text(&mut v, "folder");
    } else {
        push_text(&mut v, "file");
    }
    push_text(&mut v, "\"><a href=\"");
    push_text(&mut v, e.path.as_str());
    push_text(&mut v, "\">");
    push_text(&mut v, e.name.as_str());
    push_text(&mut v, "</a></li>");
    assert(v@ =~= entry_html_spec(*e));
    v
}

/// Inserting `x` after the texts no later than it and before the rest keeps
/// a sorted sequence sorted.
proof fn lemma_insert_sorted(vs: Seq<Seq<char>>, p: int, x: Seq<char>)
    requires
        total_ordering(text_order()),
        sorted_by(vs, text_order()),
        0 <= p <= vs.len(),
        forall|q: int| 0 <= q < p ==> lex_le(#[trigger] vs[q], x),
        p < vs.len() ==> !lex_le(vs[p], x),
    ensures
        sorted_by(vs.insert(p, x), text_order()),
{
    let w = vs.insert(p, x);
    assert forall|q: int| p <= q < vs.len() implies lex_le(x, #[trigger] vs[q]) by {
        assert(text_order()(vs[p], x) || text_order()(x, vs[p]));
        if q > p {
            assert(text_order()(vs[p], vs[q]));
            assert(text_order()(x, vs[p]) && text_order()(vs[p], vs[q]) ==> text_order()(x, vs[q]));
        }
    }
    assert forall|i: int, j: int| 0 <= i < j < w.len() implies #[trigger] text_order()(w[i], w[j]) by {
        if j < p {
            assert(w[i] == vs[i] && w[j] == vs[j]);
            assert(text_order()(vs[i], vs[j]));
        } else if j == p {
            assert(w[i] == vs[i] && w[j] == x);
        } else if i < p {
            assert(w[i] == vs[i] && w[j] == vs[j - 1]);
            assert(text_order()(vs[i], vs[j - 1]));
        } else if i == p {
            assert(w[i] == x && w[j] == vs[j - 1]);
        } else {
            assert(w[i] == vs[i - 1] && w[j] == vs[j - 1]);
            assert(text_order()(vs[i - 1], vs[j - 1]));
        }
    }
}

/// The list items of the entries, sorted as texts.
fn sorted_items(entries: &[FolderEntry]) -> (out: Vec<Vec<char>>)
    ensures
        texts_view(out@) == entry_items(entries@).sort_by(text_order()),
{
    proof { lemma_text_order_total(); }
    let ghost items = entry_items(entries@);
    let mut out: Vec<Vec<char>> = Vec::new();
    let mut k: usize = 0;
    assert(texts_view(out@) =~= Seq::<Seq<char>>::empty());
    assert(items.take(0) =~= Seq::<Seq<char>>::empty());
    while k < entries.len()
        invariant
            k <= entries@.len(),
            items == entry_items(entries@),
            total_ordering(text_order()),
            sorted_by(texts_view(out@), text_order()),
            texts_view(out@).to_multiset() == items.take(k as int).to_multiset(),
        decreases entries.len() - k,
    {
        let x = entry_html(&entries[k]);
        let ghost vs = texts_view(out@);
        let mut p: usize = 0;
        let mut stop = false;
        while p < out.len() && !stop
            invariant
                vs == texts_view(out@),
                p <= out@.len(),
                forall|q: int| 0 <= q < p ==> lex_le(#[trigger] vs[q], x@),
                stop ==> p < out@.len() && !lex_le(vs[p as int], x@),
            decreases out@.len() - p, (if stop { 0int } else { 1int }),
        {
            if text_le(out[p].as_slice(), x.as_slice()) {
                p = p + 1;
            } else {
                stop = true;
            }
        }
        proof {
            lemma_insert_sorted(vs, p as int, x@);
            to_multiset_insert(vs, p as int, x@);
            assert(items.take(k + 1) =~= items.take(k as int).push(x@));
            to_multiset_build(items.take(k as int), x@);
        }
        let ghost xv = x@;
        out.insert(p, x);
        assert(texts_view(out@) =~= vs.insert(p as int, xv));
        k = k + 1;
    }
    proof {
        assert(items.take(entries@.len() as int) =~= items);
        items.lemma_sort_by_ensures(text_order());
        lemma_sorted_unique(texts_view(out@), items.sort_by(text_order()), text_order());
    }
    out
}

proof fn lemma_concat_push(s: Seq<Seq<char>>, x: Seq<char>)
    ensures
        concat_texts(s.push(x)) == concat_texts(s) + x,
{
    assert(s.push(x).drop_last() =~= s);
}

/// The listing page of a folder; see [`folder_page_spec`].
pub fn folder_page(title: &str, parent: &str, entries: &[FolderEntry]) -> (page: String)
    ensures
        page@ == folder_page_spec(title@, parent@, entries@),
{
    let items = sorted_items(entries);
    let mut v: Vec<char> = Vec::new();
    push_text(&mut v, "<!DOCTYPE html><html><head><title>");
    push_text(&mut v, title);
    push_text(&mut v, "</title></head><body><h1>");
    push_text(&mut v, title);
    push_text(&mut v, "</h1><a href=\"");
    push_text(&mut v, parent);
    push_text(&mut v, "\">");
    push_text(&mut v, parent);
    push_text(&mut v, "</a><ul>");
    let ghost head = v@;
    let ghost all = texts_view(items@);
    let mut i: usize = 0;
    assert(all.take(0) =~= Seq::<Seq<char>>::empty());
    assert(v@ =~= head + concat_texts(all.take(0)));
    while i < items.len()
        invariant
            i <= items@.len(),
            all == texts_view(items@),
            v@ == head + concat_texts(all.take(i as int)),
        decreases items.len() - i,
    {
        let item = &items[i];
        let mut j: usize = 0;
        let ghost before = v@;
        while j < item.len()
            invariant
                j <= item@.len(),
                v@ == before + item@.take(j as int),
            decreases item.len() - j,
        {
            v.push(item[j]);
            assert(item@.take(j + 1) =~= item@.take(j as int).push(item@[j as int]));
            j = j + 1;
        }
        assert(item@.take(item@.len() as int) =~= item@);
        proof {
            assert(all.take(i + 1) =~= all.take(i as int).push(all[i as int]));
            lemma_concat_push(all.take(i as int), all[i as int]);
        }
        assert(v@ =~= head + concat_texts(all.take(i + 1)));
        i = i + 1;
    }
    assert(all.take(items@.len() as int) =~= all);
    push_text(&mut v, "</ul></body></html>");
    assert(v@ =~= folder_page_spec(title@, parent@, entries@));
    string_from_chars(v.as_slice())
}

} // verus!
