//! The line protocol of the external chooser: the items it is fed, what its
//! answer means, the order in which wallpapers are offered, and how a chosen
//! name is matched back to a catalog entry.
use vstd::prelude::*;
use crate::catalog::{Wallpaper, WallpaperView, entries_view};
use crate::text::{
    lemma_split_nonempty, lex_le, lower_of, lowercase, split, split_seq, str_eq, str_le, trim, trimmed,
};

verus! {

/// Items joined by newlines, one per line, with no newline after the last.
pub open spec fn joined_lines(items: Seq<Seq<char>>) -> Seq<char>
    decreases items.len(),
{
    if items.len() == 0 {
        Seq::empty()
    } else if items.len() == 1 {
        items[0]
    } else {
        joined_lines(items.drop_last()) + "\n"@ + items.last()
    }
}

/// The text fed to the chooser on its standard input.
pub fn chooser_input(items: &Vec<String>) -> (r: String)
    ensures
        r@ == joined_lines(items@.map_values(|s: String| s@)),
{
    let ghost iv = items@.map_values(|s: String| s@);
    let mut out = String::new();
    let mut i: usize = 0;
    assert(iv.take(0) =~= Seq::<Seq<char>>::empty());
    while i < items.len()
        invariant
            i <= items@.len(),
            iv == items@.map_values(|s: String| s@),
            out@ == joined_lines(iv.take(i as int)),
        decreases items@.len() - i,
    {
        assert(iv.take(i + 1).drop_last() =~= iv.take(i as int));
        assert(iv.take(i + 1).last() == items@[i as int]@);
        if i > 0 {
            out.append("\n");
        } else {
            assert(iv.take(1) =~= seq![items@[0]@]);
        }
        out.append(items[i].as_str());
        i = i + 1;
    }
    assert(iv.take(items@.len() as int) =~= iv);
    out
}

/// The marker between a display name and the thumbnail that the chooser
/// shows beside it: a null byte, the word `icon`, a unit separator.
pub open spec fn icon_marker() -> Seq<char> {
    "\0icon\u{1f}"@
}

/// The chooser line of a catalog entry: its name with its thumbnail as icon.
pub open spec fn item_line(w: WallpaperView) -> Seq<char> {
    w.name + icon_marker() + w.thumb_path
}

pub fn wallpaper_item(w: &Wallpaper) -> (r: String)
    ensures
        r@ == item_line(w@),
{
    let mut s = w.name.clone();
    s.append("\0icon\u{1f}");
    s.append(w.thumb_path.as_str());
    s
}

/// The chooser lines of a list of entries, in order.
pub fn wallpaper_items(entries: &Vec<Wallpaper>) -> (r: Vec<String>)
    ensures
        r@.len() == entries@.len(),
        forall|i: int| 0 <= i < entries@.len() ==> (#[trigger] r@[i])@ == item_line(entries@[i]@),
{
    let mut out: Vec<String> = Vec::new();
    let mut i: usize = 0;
    while i < entries.len()
        invariant
            i <= entries@.len(),
            out@.len() == i,
            forall|k: int| 0 <= k < i ==> (#[trigger] out@[k])@ == item_line(entries@[k]@),
        decreases entries@.len() - i,
    {
        out.push(wallpaper_item(&entries[i]));
        i = i + 1;
    }
    out
}

/// The display name in one answer line: what precedes the first null
/// byte, so that a line `name\0icon\x1f/path/to/thumbnail` names `name`;
/// a bare line names itself.
pub open spec fn display_name(line: Seq<char>) -> Seq<char> {
    split_seq(line, '\0')[0]
}

/// The selection that a chooser run reports: the display name of its
/// trimmed output, or nothing when it exited unsuccessfully or printed only
/// white space (both mean that the user cancelled).
pub open spec fn selection_of(success: bool, output: Seq<char>) -> Option<Seq<char>> {
    if !success || trimmed(output).len() == 0 {
        None
    } else {
        Some(display_name(trimmed(output)))
    }
}

pub fn chooser_selection(success: bool, output: &str) -> (r: Option<String>)
    ensures
        match r {
            Some(s) => selection_of(success, output@) == Some(s@),
            None => selection_of(success, output@) is None,
        },
{
    if !success {
        return None;
    }
    let t = trim(output);
    if t.unicode_len() == 0 {
        None
    } else {
        let pieces = split(t, '\0');
        proof {
            lemma_split_nonempty(t@, '\0');
            assert(pieces@.map_values(|p: &str| p@)[0] == pieces@[0]@);
        }
        Some(pieces[0].to_owned())
    }
}

/// The key by which entries are ordered for display: the lower-cased name.
pub open spec fn sort_key(w: Wallpaper) -> Seq<char> {
    lower_of(w.name@)
}

pub open spec fn sort_keys(s: Seq<Wallpaper>) -> Seq<Seq<char>> {
    s.map_values(|w: Wallpaper| sort_key(w))
}

/// `order` lists each position of `keys` once, in nondecreasing key order,
/// and positions with equal keys keep their relative order.
pub open spec fn is_stable_order(keys: Seq<Seq<char>>, order: Seq<int>) -> bool {
    &&& order.len() == keys.len()
    &&& forall|a: int| 0 <= a < order.len() ==> 0 <= #[trigger] order[a] < keys.len()
    &&& forall|a: int, b: int| 0 <= a < b < order.len() ==> #[trigger] order[a] != #[trigger] order[b]
    &&& forall|a: int, b: int|
        0 <= a < b < order.len() ==> lex_le(keys[#[trigger] order[a]], keys[#[trigger] order[b]])
    &&& forall|a: int, b: int|
        0 <= a < b < order.len() && keys[#[trigger] order[a]] == keys[#[trigger] order[b]] ==> order[a]
            < order[b]
}

/// `r` is `entries` sorted by `keys` without reordering entries of equal
/// key.
pub open spec fn stably_sorted(entries: Seq<Wallpaper>, keys: Seq<Seq<char>>, r: Seq<Wallpaper>) -> bool {
    exists|order: Seq<int>|
        is_stable_order(keys, order) && r.len() == entries.len() && forall|k: int|
            0 <= k < r.len() ==> #[trigger] r[k] == entries[order[k]]
}

proof fn lemma_lex_total(a: Seq<char>, b: Seq<char>)
    ensures
        lex_le(a, b) || lex_le(b, a),
    decreases a.len(),
{
    if a.len() > 0 && b.len() > 0 && a[0] == b[0] {
        lemma_lex_total(a.drop_first(), b.drop_first());
    }
}

proof fn lemma_lex_refl(a: Seq<char>)
    ensures
        lex_le(a, a),
    decreases a.len(),
{
    if a.len() > 0 {
        lemma_lex_refl(a.drop_first());
    }
}

proof fn lemma_lex_trans(a: Seq<char>, b: Seq<char>, c: Seq<char>)
    requires
        lex_le(a, b),
        lex_le(b, c),
    ensures
        lex_le(a, c),
    decreases a.len(),
{
    if a.len() > 0 && b.len() > 0 && c.len() > 0 && a[0] == b[0] && b[0] == c[0] {
        lemma_lex_trans(a.drop_first(), b.drop_first(), c.drop_first());
    }
}

/// The positions of `keys` in stable sorted order.
fn stable_order(keys: &Vec<String>) -> (r: Vec<usize>)
    ensures
        is_stable_order(keys@.map_values(|k: String| k@), r@.map_values(|i: usize| i as int)),
{
    let ghost kv = keys@.map_values(|k: String| k@);
    let mut order: Vec<usize> = Vec::new();
    let mut i: usize = 0;
    while i < keys.len()
        invariant
            i <= keys@.len(),
            kv == keys@.map_values(|k: String| k@),
            order@.len() == i,
            forall|a: int| 0 <= a < order@.len() ==> #[trigger] order@[a] < i,
            forall|a: int, b: int|
                0 <= a < b < order@.len() ==> #[trigger] order@[a] != #[trigger] order@[b],
            forall|a: int, b: int|
                0 <= a < b < order@.len() ==> lex_le(
                    kv[#[trigger] order@[a] as int],
                    kv[#[trigger] order@[b] as int],
                ),
            forall|a: int, b: int|
                0 <= a < b < order@.len() && kv[#[trigger] order@[a] as int] == kv[#[trigger] order@[b] as int]
                    ==> order@[a] < order@[b],
        decreases keys@.len() - i,
    {
        let key = keys[i].as_str();
        assert(key@ == kv[i as int]);
        let mut p: usize = 0;
        while p < order.len() && str_le(keys[order[p]].as_str(), key)
            invariant
                p <= order@.len(),
                i < keys@.len(),
                key@ == kv[i as int],
                kv == keys@.map_values(|k: String| k@),
                forall|a: int| 0 <= a < order@.len() ==> #[trigger] order@[a] < i,
                forall|a: int| 0 <= a < p ==> lex_le(kv[#[trigger] order@[a] as int], key@),
            decreases order@.len() - p,
        {
            assert(keys@[order@[p as int] as int]@ == kv[order@[p as int] as int]);
            p = p + 1;
        }
        proof {
            if p < order@.len() {
                assert(keys@[order@[p as int] as int]@ == kv[order@[p as int] as int]);
                lemma_lex_total(key@, kv[order@[p as int] as int]);
            }
        }
        let ghost old_order = order@;
        order.insert(p, i);
        proof {
            assert forall|a: int| 0 <= a < order@.len() implies #[trigger] order@[a] < i + 1 by {
                if a < p {
                    assert(order@[a] == old_order[a]);
                } else if a > p {
                    assert(order@[a] == old_order[a - 1]);
                }
            }
            assert forall|a: int, b: int| 0 <= a < b < order@.len() implies (#[trigger] order@[a]
                != #[trigger] order@[b] && lex_le(kv[order@[a] as int], kv[order@[b] as int]) && (kv[order@[a] as int]
                == kv[order@[b] as int] ==> order@[a] < order@[b])) by {
                let oa = if a < p { old_order[a] } else if a == p { i } else { old_order[a - 1] };
                let ob = if b < p { old_order[b] } else if b == p { i } else { old_order[b - 1] };
                assert(order@[a] == oa && order@[b] == ob);
                if b < p {
                } else if b == p {
                    assert(lex_le(kv[old_order[a] as int], key@));
                } else if a < p {
                    // ob comes after the insertion point: its key is above key.
                    let op = old_order[p as int];
                    assert(!lex_le(kv[op as int], key@));
                    if b - 1 > p {
                        assert(lex_le(kv[op as int], kv[ob as int]));
                    } else {
                        lemma_lex_refl(kv[op as int]);
                    }
                    assert(lex_le(kv[oa as int], key@));
                    lemma_lex_trans(kv[oa as int], key@, kv[op as int]);
                    lemma_lex_trans(kv[oa as int], kv[op as int], kv[ob as int]);
                } else if a == p {
                    let op = old_order[p as int];
                    assert(!lex_le(kv[op as int], key@));
                    if b - 1 > p {
                        assert(lex_le(kv[op as int], kv[ob as int]));
                        lemma_lex_trans(key@, kv[op as int], kv[ob as int]);
                        if kv[ob as int] == key@ {
                            lemma_lex_trans(kv[op as int], kv[ob as int], key@);
                            lemma_lex_refl(key@);
                        }
                    } else {
                        lemma_lex_refl(key@);
                    }
                } else {
                }
            }
        }
        i = i + 1;
    }
    let ghost ov = order@.map_values(|x: usize| x as int);
    assert forall|a: int, b: int| 0 <= a < b < ov.len() implies #[trigger] ov[a] != #[trigger] ov[b] by {
        assert(order@[a] != order@[b]);
    }
    order
}

/// `entries` ordered by the given keys, one per entry; entries of equal
/// key keep their relative order.
pub fn sort_by_keys(entries: &Vec<Wallpaper>, keys: &Vec<String>) -> (r: Vec<Wallpaper>)
    requires
        keys@.len() == entries@.len(),
    ensures
        stably_sorted(entries@, keys@.map_values(|k: String| k@), r@),
{
    let order = stable_order(keys);
    let ghost ov = order@.map_values(|x: usize| x as int);
    let mut out: Vec<Wallpaper> = Vec::new();
    let mut k: usize = 0;
    while k < order.len()
        invariant
            k <= order@.len(),
            order@.len() == entries@.len(),
            ov == order@.map_values(|x: usize| x as int),
            is_stable_order(keys@.map_values(|k: String| k@), ov),
            out@.len() == k,
            forall|j: int| 0 <= j < k ==> #[trigger] out@[j] == entries@[ov[j]],
        decreases order@.len() - k,
    {
        assert(ov[k as int] == order@[k as int] as int);
        out.push(entries[order[k]].clone());
        k = k + 1;
    }
    out
}

/// The entries ordered by their lower-cased names (code point order, which
/// does not depend on the locale); entries whose lower-cased names are
/// equal keep their order.
pub fn sort_by_name(entries: Vec<Wallpaper>) -> (r: Vec<Wallpaper>)
    ensures
        stably_sorted(entries@, sort_keys(entries@), r@),
{
    let mut keys: Vec<String> = Vec::new();
    let mut i: usize = 0;
    while i < entries.len()
        invariant
            i <= entries@.len(),
            keys@.len() == i,
            forall|j: int| 0 <= j < i ==> (#[trigger] keys@[j])@ == sort_key(entries@[j]),
        decreases entries@.len() - i,
    {
        keys.push(lowercase(entries[i].name.as_str()));
        i = i + 1;
    }
    assert(keys@.map_values(|k: String| k@) =~= sort_keys(entries@));
    sort_by_keys(&entries, &keys)
}

/// The position of the first entry named exactly `name`, if any.
pub open spec fn resolve(entries: Seq<WallpaperView>, name: Seq<char>) -> Option<int>
    decreases entries.len(),
{
    if entries.len() == 0 {
        None
    } else {
        match resolve(entries.drop_last(), name) {
            Some(i) => Some(i),
            None => if entries.last().name == name {
                Some(entries.len() - 1)
            } else {
                None
            },
        }
    }
}

proof fn lemma_resolve_first(entries: Seq<WallpaperView>, name: Seq<char>)
    ensures
        match resolve(entries, name) {
            Some(i) => 0 <= i < entries.len() && entries[i].name == name && forall|k: int|
                0 <= k < i ==> entries[k].name != name,
            None => forall|k: int| 0 <= k < entries.len() ==> entries[k].name != name,
        },
    decreases entries.len(),
{
    if entries.len() > 0 {
        let init = entries.drop_last();
        lemma_resolve_first(init, name);
        assert forall|k: int| 0 <= k < init.len() implies init[k] == entries[k] by {}
    }
}

/// The entry whose name is exactly the chooser's answer; the first such
/// entry when several share it.
pub fn find_by_name(entries: &Vec<Wallpaper>, name: &str) -> (r: Option<usize>)
    ensures
        match r {
            Some(i) => i < entries@.len() && resolve(entries_view(entries@), name@) == Some(
                i as int,
            ),
            None => resolve(entries_view(entries@), name@) is None,
        },
{
    let ghost ev = entries_view(entries@);
    let mut i: usize = 0;
    assert(ev.take(0) =~= Seq::<WallpaperView>::empty());
    while i < entries.len()
        invariant
            i <= entries@.len(),
            ev == entries_view(entries@),
            resolve(ev.take(i as int), name@) is None,
        decreases entries@.len() - i,
    {
        assert(ev.take(i + 1).drop_last() =~= ev.take(i as int));
        if str_eq(entries[i].name.as_str(), name) {
            assert(ev.take(i + 1).last().name == name@);
            proof {
                lemma_resolve_prefix(ev, name@, i as int);
            }
            return Some(i);
        }
        i = i + 1;
    }
    assert(ev.take(entries@.len() as int) =~= ev);
    None
}

proof fn lemma_resolve_prefix(entries: Seq<WallpaperView>, name: Seq<char>, i: int)
    requires
        0 <= i < entries.len(),
        resolve(entries.take(i + 1), name) == Some(i),
    ensures
        resolve(entries, name) == Some(i),
    decreases entries.len(),
{
    if entries.len() > i + 1 {
        let init = entries.drop_last();
        assert(init.take(i + 1) =~= entries.take(i + 1));
        lemma_resolve_prefix(init, name, i);
    } else {
        assert(entries.take(i + 1) =~= entries);
    }
}

/// In a catalog whose names are unique, the chooser's answer resolves to
/// the entry named exactly so (case counts), whenever there is one.
pub proof fn lemma_resolve_unique(entries: Seq<WallpaperView>, name: Seq<char>)
    requires
        forall|i: int, j: int|
            0 <= i < entries.len() && 0 <= j < entries.len() && i != j ==> entries[i].name
                != entries[j].name,
    ensures
        forall|i: int|
            0 <= i < entries.len() && #[trigger] entries[i].name == name ==> resolve(entries, name)
                == Some(i),
        (forall|i: int| 0 <= i < entries.len() ==> #[trigger] entries[i].name != name) ==> resolve(
            entries,
            name,
        ) is None,
{
    lemma_resolve_first(entries, name);
}

} // verus!
