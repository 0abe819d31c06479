//! The "organize existing files" list: every listed file of the watched
//! folder with the destination it would move to, sorted by name.
use vstd::prelude::*;
use crate::classifier::{resolve_destination, spec_resolve_destination};
use crate::config::Config;
use crate::scanner::{entry_views, listed_extension, spec_listed_extension, DirEntry, EntryView};
use crate::state::OrganizerItem;
use crate::text::{to_lowercase, unicode_lower};

verus! {

/// Whether `a` comes strictly before `b`, character by character; a proper
/// prefix comes first. This is the order of `String`'s comparison, since
/// UTF-8 keeps the order of code points.
pub open spec fn text_lt(a: Seq<char>, b: Seq<char>) -> bool
    decreases a.len(),
{
    if a.len() == 0 {
        b.len() > 0
    } else if b.len() == 0 {
        false
    } else if (a[0] as u32) < (b[0] as u32) {
        true
    } else if (a[0] as u32) > (b[0] as u32) {
        false
    } else {
        text_lt(a.drop_first(), b.drop_first())
    }
}

/// Whether `a` comes strictly before `b`.
pub fn str_lt(a: &str, b: &str) -> (r: bool)
    ensures
        r == text_lt(a@, b@),
{
    let n = a.unicode_len();
    let m = b.unicode_len();
    let mut i: usize = 0;
    assert(a@.skip(0) =~= a@);
    assert(b@.skip(0) =~= b@);
    while i < n && i < m
        invariant
            n == a@.len(),
            m == b@.len(),
            i <= n,
            i <= m,
            text_lt(a@, b@) == text_lt(a@.skip(i as int), b@.skip(i as int)),
        decreases n - i,
    {
        let x = a.get_char(i);
        let y = b.get_char(i);
        proof {
            assert(a@.skip(i as int)[0] == x);
            assert(b@.skip(i as int)[0] == y);
            assert(a@.skip(i as int).drop_first() =~= a@.skip(i + 1));
            assert(b@.skip(i as int).drop_first() =~= b@.skip(i + 1));
        }
        if (x as u32) < (y as u32) {
            return true;
        }
        if (x as u32) > (y as u32) {
            return false;
        }
        i += 1;
    }
    proof {
        assert(a@.skip(i as int).len() == n - i);
        assert(b@.skip(i as int).len() == m - i);
    }
    i == n && i < m
}

/// A listed file by the characters it holds.
pub struct ItemView {
    pub path: Seq<char>,
    pub file_name: Seq<char>,
    pub ext: Seq<char>,
    pub size: u64,
    pub suggested: Seq<char>,
}

impl View for OrganizerItem {
    type V = ItemView;

    open spec fn view(&self) -> ItemView {
        ItemView {
            path: self.path@,
            file_name: self.file_name@,
            ext: self.ext@,
            size: self.size,
            suggested: self.suggested@,
        }
    }
}

/// The listed files by the characters they hold.
pub open spec fn item_views(items: Seq<OrganizerItem>) -> Seq<ItemView> {
    items.map_values(|i: OrganizerItem| i@)
}

/// The sort key of a listed file: its name, lowercased.
pub open spec fn sort_key(item: ItemView) -> Seq<char> {
    unicode_lower(item.file_name)
}

/// `x` placed into the sorted `s`: after every file whose key is not greater.
pub open spec fn insert_sorted(s: Seq<ItemView>, x: ItemView) -> Seq<ItemView>
    decreases s.len(),
{
    if s.len() == 0 {
        seq![x]
    } else if !text_lt(sort_key(x), sort_key(s.last())) {
        s.push(x)
    } else {
        insert_sorted(s.drop_last(), x).push(s.last())
    }
}

/// `s` sorted by key, files of equal keys keeping their order: the order
/// a stable sort gives.
pub open spec fn sort_by_name(s: Seq<ItemView>) -> Seq<ItemView>
    decreases s.len(),
{
    if s.len() == 0 {
        s
    } else {
        insert_sorted(sort_by_name(s.drop_last()), s.last())
    }
}

/// The listed files of `entries`, in listing order, with their destinations.
pub open spec fn listed_items(config: Config, entries: Seq<EntryView>) -> Seq<ItemView>
    decreases entries.len(),
{
    if entries.len() == 0 {
        Seq::empty()
    } else {
        let rest = listed_items(config, entries.drop_last());
        let e = entries.last();
        match (e.name, e.facts) {
            (Some(name), Some((is_file, size, _))) => match spec_listed_extension(config, name, is_file) {
                Some(ext) => rest.push(
                    ItemView { path: e.path, file_name: name, ext, size, suggested: spec_resolve_destination(config, ext) },
                ),
                None => rest,
            },
            _ => rest,
        }
    }
}

proof fn lemma_insert_at(s: Seq<ItemView>, x: ItemView, p: int)
    requires
        0 <= p <= s.len(),
        forall|k: int| p <= k < s.len() ==> text_lt(sort_key(x), #[trigger] sort_key(s[k])),
        p > 0 ==> !text_lt(sort_key(x), sort_key(s[p - 1])),
    ensures
        insert_sorted(s, x) == s.take(p).push(x) + s.skip(p),
    decreases s.len(),
{
    if s.len() == 0 {
        assert(s.take(p).push(x) + s.skip(p) =~= seq![x]);
    } else if p == s.len() {
        assert(s.take(p) =~= s);
        assert(s.skip(p) =~= Seq::<ItemView>::empty());
        assert(s.take(p).push(x) + s.skip(p) =~= s.push(x));
    } else {
        let t = s.drop_last();
        assert(text_lt(sort_key(x), sort_key(s[s.len() - 1])));
        assert forall|k: int| p <= k < t.len() implies text_lt(sort_key(x), #[trigger] sort_key(t[k])) by {
            assert(t[k] == s[k]);
        }
        if p > 0 {
            assert(t[p - 1] == s[p - 1]);
        }
        lemma_insert_at(t, x, p);
        assert(t.take(p) =~= s.take(p));
        assert(s.take(p).push(x) + s.skip(p) =~= (t.take(p).push(x) + t.skip(p)).push(s.last()));
    }
}

/// The files of the watched folder that the organizer lists, each with the
/// destination it would move to, sorted by lowercased name.
pub fn organizer_items(config: &Config, entries: Vec<DirEntry>) -> (r: Vec<OrganizerItem>)
    requires
        config.wf(),
    ensures
        item_views(r@) == sort_by_name(listed_items(*config, entry_views(entries@))),
        forall|i: int, j: int| 0 <= i < j < r@.len()
            ==> !text_lt(unicode_lower((#[trigger] r@[j]).file_name@), unicode_lower((#[trigger] r@[i]).file_name@)),
        item_views(r@).to_multiset() == listed_items(*config, entry_views(entries@)).to_multiset(),
{
    let ghost views = entry_views(entries@);
    let mut sorted: Vec<OrganizerItem> = Vec::new();
    let mut keys: Vec<String> = Vec::new();
    for entry in it: entries.into_iter()
        invariant
            it.seq() == entries@,
            views == entry_views(entries@),
            config.wf(),
            item_views(sorted@) == sort_by_name(listed_items(*config, views.take(it.index() as int))),
            keys@.len() == sorted@.len(),
            forall|k: int| 0 <= k < keys@.len() ==> #[trigger] keys@[k]@ == sort_key(item_views(sorted@)[k]),
    {
        let ghost i = it.index();
        proof {
            assert(views.take(i + 1).drop_last() =~= views.take(i as int));
            assert(views.take(i + 1).last() == entry@);
        }
        let DirEntry { path, name, facts } = entry;
        if let (Some(name), Some(facts)) = (name, facts) {
            if let Some(ext) = listed_extension(config, name.as_str(), facts.is_file) {
                let suggested = resolve_destination(config, ext.as_str());
                let key = to_lowercase(name.as_str());
                let item = OrganizerItem { path, file_name: name, ext, size: facts.size, suggested };
                let ghost s = item_views(sorted@);
                let ghost x = item@;
                let mut p: usize = sorted.len();
                while p > 0 && str_lt(key.as_str(), keys[p - 1].as_str())
                    invariant
                        p <= sorted@.len(),
                        keys@.len() == sorted@.len(),
                        s == item_views(sorted@),
                        key@ == sort_key(x),
                        forall|k: int| 0 <= k < keys@.len() ==> #[trigger] keys@[k]@ == sort_key(s[k]),
                        forall|k: int| p <= k < s.len() ==> text_lt(sort_key(x), #[trigger] sort_key(s[k])),
                    decreases p,
                {
                    p -= 1;
                }
                proof {
                    if p > 0 {
                        assert(keys@[p - 1]@ == sort_key(s[p - 1]));
                    }
                    lemma_insert_at(s, x, p as int);
                }
                let ghost keys_before = keys@;
                sorted.insert(p, item);
                keys.insert(p, key);
                proof {
                    assert(item_views(sorted@) =~= s.take(p as int).push(x) + s.skip(p as int));
                    let l = listed_items(*config, views.take(i as int));
                    assert(l.push(x).drop_last() =~= l);
                    assert(l.push(x).last() == x);
                    assert(listed_items(*config, views.take(i + 1)) == l.push(x));
                    assert(sort_by_name(l.push(x)) == insert_sorted(sort_by_name(l), x));
                    assert forall|k: int| 0 <= k < keys@.len() implies #[trigger] keys@[k]@ == sort_key(item_views(sorted@)[k]) by {
                        if k < p {
                        } else if k > p {
                            assert(keys@[k] == keys_before[k - 1]);
                        }
                    }
                }
            }
        }
    }
    proof {
        assert(views.take(views.len() as int) =~= views);
        let listed = listed_items(*config, views);
        law_listing_is_ordered_by_lowercased_name(listed);
        assert forall|i: int, j: int| 0 <= i < j < sorted@.len()
            implies !text_lt(unicode_lower((#[trigger] sorted@[j]).file_name@), unicode_lower((#[trigger] sorted@[i]).file_name@)) by {
            assert(item_views(sorted@)[i] == sorted@[i]@);
            assert(item_views(sorted@)[j] == sorted@[j]@);
        }
    }
    sorted
}

proof fn lemma_text_lt_asym(a: Seq<char>, b: Seq<char>)
    ensures
        text_lt(a, b) ==> !text_lt(b, a),
    decreases a.len(),
{
    if a.len() > 0 && b.len() > 0 {
        lemma_text_lt_asym(a.drop_first(), b.drop_first());
    }
}

proof fn lemma_text_lt_trans(a: Seq<char>, b: Seq<char>, c: Seq<char>)
    ensures
        text_lt(a, b) && text_lt(b, c) ==> text_lt(a, c),
    decreases a.len(),
{
    if a.len() > 0 && b.len() > 0 && c.len() > 0 {
        lemma_text_lt_trans(a.drop_first(), b.drop_first(), c.drop_first());
    }
}

proof fn lemma_text_lt_total(a: Seq<char>, b: Seq<char>)
    ensures
        !text_lt(a, b) && !text_lt(b, a) ==> a == b,
    decreases a.len(),
{
    if a.len() > 0 && b.len() > 0 {
        lemma_text_lt_total(a.drop_first(), b.drop_first());
        if !text_lt(a, b) && !text_lt(b, a) {
            assert((a[0] as u32) == (b[0] as u32));
            vstd::utf8::char_u32_cast(a[0], a[0] as u32);
            vstd::utf8::char_u32_cast(b[0], b[0] as u32);
            assert(a[0] == b[0]);
            assert(a =~= seq![a[0]] + a.drop_first());
            assert(b =~= seq![b[0]] + b.drop_first());
        }
    } else if a.len() == 0 && b.len() == 0 {
        assert(a =~= b);
    }
}

/// Whether no file comes after one whose key is greater.
pub open spec fn sorted_by_key(s: Seq<ItemView>) -> bool {
    forall|i: int, j: int| 0 <= i < j < s.len() ==> !text_lt(sort_key(#[trigger] s[j]), sort_key(#[trigger] s[i]))
}

proof fn lemma_not_lt_trans(a: Seq<char>, b: Seq<char>, c: Seq<char>)
    ensures
        !text_lt(b, a) && !text_lt(c, b) ==> !text_lt(c, a),
{
    lemma_text_lt_total(a, b);
    lemma_text_lt_total(b, c);
    lemma_text_lt_trans(c, a, b);
    lemma_text_lt_trans(c, b, a);
    lemma_text_lt_asym(a, b);
    lemma_text_lt_asym(b, c);
    if !text_lt(b, a) && !text_lt(c, b) && text_lt(c, a) {
        if a == b {
        } else if b == c {
        } else {
            assert(text_lt(a, b));
            assert(text_lt(b, c));
            lemma_text_lt_trans(a, b, c);
            lemma_text_lt_asym(a, c);
        }
    }
}

proof fn lemma_insert_sorted(s: Seq<ItemView>, x: ItemView)
    requires
        sorted_by_key(s),
    ensures
        sorted_by_key(insert_sorted(s, x)),
        insert_sorted(s, x).to_multiset() == s.to_multiset().insert(x),
    decreases s.len(),
{
    broadcast use vstd::seq_lib::group_to_multiset_ensures;
    if s.len() == 0 {
        assert(seq![x] =~= Seq::<ItemView>::empty().push(x));
    } else if !text_lt(sort_key(x), sort_key(s.last())) {
        let r = s.push(x);
        assert forall|i: int, j: int| 0 <= i < j < r.len() implies !text_lt(sort_key(#[trigger] r[j]), sort_key(#[trigger] r[i])) by {
            if j == s.len() {
                if i < s.len() - 1 {
                    lemma_not_lt_trans(sort_key(s[i]), sort_key(s.last()), sort_key(x));
                }
            } else {
                assert(r[i] == s[i] && r[j] == s[j]);
            }
        }
    } else {
        let t = s.drop_last();
        assert(sorted_by_key(t)) by {
            assert forall|i: int, j: int| 0 <= i < j < t.len() implies !text_lt(sort_key(#[trigger] t[j]), sort_key(#[trigger] t[i])) by {
                assert(t[i] == s[i] && t[j] == s[j]);
            }
        }
        lemma_insert_sorted(t, x);
        let u = insert_sorted(t, x);
        let r = u.push(s.last());
        lemma_text_lt_asym(sort_key(x), sort_key(s.last()));
        assert forall|k: int| 0 <= k < u.len() implies !text_lt(sort_key(s.last()), sort_key(#[trigger] u[k])) by {
            assert(u.to_multiset().count(u[k]) > 0);
            assert(t.to_multiset().insert(x).count(u[k]) > 0);
            if u[k] != x {
                assert(t.to_multiset().count(u[k]) > 0);
                assert(t.contains(u[k]));
                let m = choose|m: int| 0 <= m < t.len() && t[m] == u[k];
                assert(s[m] == t[m]);
                assert(!text_lt(sort_key(s[s.len() - 1]), sort_key(s[m])));
            }
        }
        assert forall|i: int, j: int| 0 <= i < j < r.len() implies !text_lt(sort_key(#[trigger] r[j]), sort_key(#[trigger] r[i])) by {
            if j == u.len() {
                assert(r[i] == u[i]);
            } else {
                assert(r[i] == u[i] && r[j] == u[j]);
            }
        }
        assert(s =~= t.push(s.last()));
        assert(r.to_multiset() == u.to_multiset().insert(s.last()));
        assert(s.to_multiset() == t.to_multiset().insert(s.last()));
        assert(r.to_multiset() =~= s.to_multiset().insert(x));
    }
}

/// The organizer's list is in order of lowercased names and holds exactly
/// the listed files, each as often as it was listed.
pub proof fn law_listing_is_sorted_permutation(s: Seq<ItemView>)
    ensures
        sorted_by_key(sort_by_name(s)),
        sort_by_name(s).to_multiset() == s.to_multiset(),
    decreases s.len(),
{
    broadcast use vstd::seq_lib::group_to_multiset_ensures;
    if s.len() > 0 {
        law_listing_is_sorted_permutation(s.drop_last());
        lemma_insert_sorted(sort_by_name(s.drop_last()), s.last());
        assert(s =~= s.drop_last().push(s.last()));
    }
}

/// The listing is ordered by the whole lowercased file name (Unicode
/// lowercase, compared character by character), and holds exactly the files
/// it was given, each as often as given.
pub proof fn law_listing_is_ordered_by_lowercased_name(s: Seq<ItemView>)
    ensures
        forall|i: int, j: int| 0 <= i < j < sort_by_name(s).len()
            ==> !text_lt(unicode_lower((#[trigger] sort_by_name(s)[j]).file_name),
                unicode_lower((#[trigger] sort_by_name(s)[i]).file_name)),
        sort_by_name(s).to_multiset() == s.to_multiset(),
{
    law_listing_is_sorted_permutation(s);
    let t = sort_by_name(s);
    assert forall|i: int, j: int| 0 <= i < j < t.len()
        implies !text_lt(unicode_lower((#[trigger] t[j]).file_name), unicode_lower((#[trigger] t[i]).file_name)) by {
        assert(!text_lt(sort_key(t[j]), sort_key(t[i])));
    }
}

} // verus!
