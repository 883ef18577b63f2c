//! Lists of components in the order of their addresses.

use crate::mcp::ComponentInfo;
use vstd::prelude::*;
use vstd::seq_lib::to_multiset_insert;

verus! {

/// Whether the text `a` is `b` or comes before it, character by character:
/// the first character that differs decides, and a text comes before every
/// longer text that begins with it.
pub open spec fn text_le(a: Seq<char>, b: Seq<char>) -> bool
    decreases a.len(),
{
    if a.len() == 0 {
        true
    } else if b.len() == 0 {
        false
    } else if a[0] != b[0] {
        (a[0] as int) < (b[0] as int)
    } else {
        text_le(a.drop_first(), b.drop_first())
    }
}

/// Of two texts, one comes before the other or they are the same.
pub proof fn lemma_text_le_total(a: Seq<char>, b: Seq<char>)
    ensures
        text_le(a, b) || text_le(b, a),
    decreases a.len(),
{
    if a.len() > 0 && b.len() > 0 {
        if a[0] == b[0] {
            lemma_text_le_total(a.drop_first(), b.drop_first());
        } else {
            assert(a[0] as int != b[0] as int);
        }
    }
}

/// A text is the same as itself.
pub proof fn lemma_text_le_reflexive(a: Seq<char>)
    ensures
        text_le(a, a),
    decreases a.len(),
{
    if a.len() > 0 {
        lemma_text_le_reflexive(a.drop_first());
    }
}

/// What comes before a text comes before everything after that text.
pub proof fn lemma_text_le_transitive(a: Seq<char>, b: Seq<char>, c: Seq<char>)
    requires
        text_le(a, b),
        text_le(b, c),
    ensures
        text_le(a, c),
    decreases a.len(),
{
    if a.len() > 0 && b.len() > 0 && c.len() > 0 && a[0] == b[0] && b[0] == c[0] {
        lemma_text_le_transitive(a.drop_first(), b.drop_first(), c.drop_first());
    }
}

/// Whether the text `a` is `b` or comes before it.
pub fn comes_first(a: &str, b: &str) -> (r: bool)
    ensures
        r == text_le(a@, b@),
{
    let n = a.unicode_len();
    let m = b.unicode_len();
    let mut i: usize = 0;
    assert(a@.skip(0) =~= a@ && b@.skip(0) =~= b@);
    while i < n && i < m
        invariant
            i <= n,
            i <= m,
            n == a@.len(),
            m == b@.len(),
            text_le(a@, b@) == text_le(a@.skip(i as int), b@.skip(i as int)),
        decreases n - i,
    {
        let x = a.get_char(i);
        let y = b.get_char(i);
        proof {
            assert(a@.skip(i as int)[0] == a@[i as int]);
            assert(b@.skip(i as int)[0] == b@[i as int]);
            assert(a@.skip(i as int).drop_first() =~= a@.skip(i + 1));
            assert(b@.skip(i as int).drop_first() =~= b@.skip(i + 1));
        }
        if x != y {
            return (x as u32) < (y as u32);
        }
        i += 1;
    }
    i == n
}

/// The address of a component, written out.
pub open spec fn url_of(info: ComponentInfo) -> Seq<char> {
    info.component@.url()
}

/// The addresses of a list of components.
pub open spec fn urls_of(list: Seq<ComponentInfo>) -> Seq<Seq<char>> {
    Seq::new(list.len(), |i: int| url_of(list[i]))
}

/// No address comes before one that stands earlier in the list.
pub open spec fn in_order(urls: Seq<Seq<char>>) -> bool {
    forall|i: int, j: int| 0 <= i < j < urls.len() ==> text_le(urls[i], urls[j])
}

/// How many addresses from the front of `urls` are `url` or come before
/// it, up to the first one that comes after it.
pub open spec fn place_for(urls: Seq<Seq<char>>, url: Seq<char>) -> int
    decreases urls.len(),
{
    if urls.len() == 0 {
        0
    } else if text_le(urls[0], url) {
        1 + place_for(urls.drop_first(), url)
    } else {
        0
    }
}

/// The list with `info` put in behind the components from the front whose
/// addresses do not come after its own.
pub open spec fn put_in(list: Seq<ComponentInfo>, info: ComponentInfo) -> Seq<ComponentInfo> {
    list.insert(place_for(urls_of(list), url_of(info)), info)
}

/// The components in the order of their addresses; components with the
/// same address stay in the order in which they came.
pub open spec fn by_url(list: Seq<ComponentInfo>) -> Seq<ComponentInfo>
    decreases list.len(),
{
    if list.len() == 0 {
        Seq::empty()
    } else {
        put_in(by_url(list.drop_last()), list.last())
    }
}

/// The place lies within the list; everything before it does not come
/// after the address, and what stands at it does.
proof fn lemma_place_for(urls: Seq<Seq<char>>, url: Seq<char>)
    ensures
        0 <= place_for(urls, url) <= urls.len(),
        forall|i: int| 0 <= i < place_for(urls, url) ==> text_le(#[trigger] urls[i], url),
        place_for(urls, url) < urls.len() ==> !text_le(urls[place_for(urls, url)], url),
    decreases urls.len(),
{
    if urls.len() > 0 && text_le(urls[0], url) {
        let rest = urls.drop_first();
        lemma_place_for(rest, url);
        assert forall|i: int| 0 <= i < place_for(urls, url) implies text_le(
            #[trigger] urls[i],
            url,
        ) by {
            if i > 0 {
                assert(rest[i - 1] == urls[i]);
            }
        }
        if place_for(urls, url) < urls.len() {
            assert(rest[place_for(rest, url)] == urls[place_for(urls, url)]);
        }
    }
}

/// Putting a component into an ordered list leaves the list ordered.
proof fn lemma_put_in_keeps_order(list: Seq<ComponentInfo>, info: ComponentInfo)
    requires
        in_order(urls_of(list)),
    ensures
        in_order(urls_of(put_in(list, info))),
{
    let urls = urls_of(list);
    let url = url_of(info);
    let at = place_for(urls, url);
    lemma_place_for(urls, url);
    let after = urls_of(put_in(list, info));
    assert forall|i: int, j: int| 0 <= i < j < after.len() implies text_le(after[i], after[j]) by {
        if j < at {
            assert(after[i] == urls[i] && after[j] == urls[j]);
        } else if j == at {
            assert(after[i] == urls[i]);
            assert(after[j] == url);
        } else if i < at {
            assert(after[i] == urls[i] && after[j] == urls[j - 1]);
        } else if i == at {
            assert(after[i] == url);
            assert(after[j] == urls[j - 1]);
            lemma_text_le_total(urls[at], url);
            if j - 1 > at {
                assert(text_le(urls[at], urls[j - 1]));
            } else {
                lemma_text_le_reflexive(urls[at]);
            }
            lemma_text_le_transitive(url, urls[at], urls[j - 1]);
        } else {
            assert(after[i] == urls[i - 1] && after[j] == urls[j - 1]);
        }
    }
}

/// The sorted list is in the order of the addresses.
pub proof fn lemma_by_url_is_in_order(list: Seq<ComponentInfo>)
    ensures
        in_order(urls_of(by_url(list))),
    decreases list.len(),
{
    if list.len() > 0 {
        lemma_by_url_is_in_order(list.drop_last());
        lemma_put_in_keeps_order(by_url(list.drop_last()), list.last());
    }
}

/// The sorted list holds the components of the list, each as often as the
/// list does.
pub proof fn lemma_by_url_keeps_components(list: Seq<ComponentInfo>)
    ensures
        by_url(list).to_multiset() == list.to_multiset(),
    decreases list.len(),
{
    if list.len() == 0 {
        assert(by_url(list) =~= list);
    } else {
        let shorter = list.drop_last();
        lemma_by_url_keeps_components(shorter);
        let sorted = by_url(shorter);
        lemma_place_for(urls_of(sorted), url_of(list.last()));
        to_multiset_insert(sorted, place_for(urls_of(sorted), url_of(list.last())), list.last());
        to_multiset_insert(shorter, shorter.len() as int, list.last());
        assert(shorter.insert(shorter.len() as int, list.last()) =~= list);
    }
}

/// Where `info` goes in the sorted list `out`.
fn find_place(out: &Vec<ComponentInfo>, info: &ComponentInfo) -> (at: usize)
    ensures
        at == place_for(urls_of(out@), url_of(*info)),
        at <= out.len(),
{
    let url = info.component.url();
    let ghost urls = urls_of(out@);
    let mut at: usize = 0;
    let mut stop = false;
    assert(urls.skip(0) =~= urls);
    while at < out.len() && !stop
        invariant
            at <= out.len(),
            urls == urls_of(out@),
            url@ == url_of(*info),
            place_for(urls, url@) == at + place_for(urls.skip(at as int), url@),
            stop ==> place_for(urls.skip(at as int), url@) == 0,
        decreases out.len() - at + if stop { 0int } else { 1int },
    {
        let other = out[at].component.url();
        proof {
            assert(urls.skip(at as int)[0] == urls[at as int]);
            assert(urls.skip(at as int).drop_first() =~= urls.skip(at + 1));
        }
        if comes_first(other.as_str(), url.as_str()) {
            at += 1;
        } else {
            stop = true;
        }
    }
    at
}

/// Puts the components in the order of their addresses; components with the
/// same address stay in the order in which they came.
pub fn sort_components(components: Vec<ComponentInfo>) -> (sorted: Vec<ComponentInfo>)
    ensures
        sorted@ == by_url(components@),
        in_order(urls_of(sorted@)),
        sorted@.to_multiset() == components@.to_multiset(),
{
    let ghost all = components@;
    let mut rest = components;
    let mut out: Vec<ComponentInfo> = Vec::new();
    let ghost mut taken: int = 0;
    assert(all.skip(0) =~= all);
    assert(all.take(0) =~= Seq::<ComponentInfo>::empty());
    while rest.len() > 0
        invariant
            0 <= taken <= all.len(),
            rest@ == all.skip(taken),
            out@ == by_url(all.take(taken)),
        decreases rest.len(),
    {
        let info = rest.remove(0);
        let at = find_place(&out, &info);
        out.insert(at, info);
        proof {
            assert(info == all[taken]);
            assert(all.skip(taken).remove(0) =~= all.skip(taken + 1));
            assert(all.take(taken + 1).drop_last() =~= all.take(taken));
            assert(all.take(taken + 1).last() == all[taken]);
            taken = taken + 1;
        }
    }
    proof {
        assert(all.take(taken) =~= all);
        lemma_by_url_is_in_order(all);
        lemma_by_url_keeps_components(all);
    }
    out
}

} // verus!
