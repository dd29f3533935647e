//! The wallpaper catalog: which files of the source tree get a thumbnail,
//! which entries a rebuild records, and which thumbnails it deletes.
//!
//! A rebuild runs in three steps around the file system. The caller lists the
//! regular files of the source tree and asks [`plan_thumbnails`] for the
//! entry each file would become. It then makes sure that each planned
//! thumbnail exists (reusing one that is already there, else decoding and
//! resizing the source) and reports which succeeded to [`assemble_catalog`].
//! After writing the catalog it lists the thumbnail directory and deletes
//! what [`stale_thumbnails`] returns.
use vstd::prelude::*;
use crate::paths::{
    extension, extension_of, file_name, file_name_of, file_stem, file_stem_of, is_component, join,
    joined, lemma_joined_injective,
};
use crate::text::{lower_of, lowercase, str_eq};

verus! {

/// Width in pixels of every thumbnail; the height keeps the aspect ratio.
pub const THUMB_WIDTH: u32 = 500;

/// One catalog entry: a display name (the file stem), the source image and
/// its thumbnail.
pub struct Wallpaper {
    pub name: String,
    pub path: String,
    pub thumb_path: String,
}

pub struct WallpaperView {
    pub name: Seq<char>,
    pub path: Seq<char>,
    pub thumb_path: Seq<char>,
}

impl View for Wallpaper {
    type V = WallpaperView;

    open spec fn view(&self) -> WallpaperView {
        WallpaperView { name: self.name@, path: self.path@, thumb_path: self.thumb_path@ }
    }
}

impl Clone for Wallpaper {
    fn clone(&self) -> (r: Self)
        ensures
            r == *self,
    {
        Wallpaper {
            name: self.name.clone(),
            path: self.path.clone(),
            thumb_path: self.thumb_path.clone(),
        }
    }
}

pub open spec fn opt_entry_view(o: Option<Wallpaper>) -> Option<WallpaperView> {
    match o {
        Some(w) => Some(w@),
        None => None,
    }
}

pub open spec fn entries_view(s: Seq<Wallpaper>) -> Seq<WallpaperView> {
    s.map_values(|w: Wallpaper| w@)
}

pub open spec fn strings_view(s: Seq<String>) -> Seq<Seq<char>> {
    s.map_values(|p: String| p@)
}

/// Lower-cased extensions of the video containers that a separate
/// mechanism plays; they never enter the catalog.
pub open spec fn is_video_extension(e: Seq<char>) -> bool {
    e == "mp4"@ || e == "webm"@ || e == "mkv"@
}

/// Whether the extension of `p`, compared without regard to case, is a
/// video container.
pub open spec fn is_video(p: Seq<char>) -> bool {
    match extension_of(p) {
        Some(e) => is_video_extension(lower_of(e)),
        None => false,
    }
}

/// The thumbnail of `p`: the file name of `p` inside `dir`.
pub open spec fn thumb_for(p: Seq<char>, dir: Seq<char>) -> Option<Seq<char>> {
    match file_name_of(p) {
        Some(n) => Some(joined(dir, n)),
        None => None,
    }
}

/// The entry that the source file `p` becomes if its thumbnail can be had.
pub open spec fn candidate(p: Seq<char>, dir: Seq<char>) -> Option<WallpaperView> {
    if is_video(p) {
        None
    } else {
        match (file_name_of(p), file_stem_of(p)) {
            (Some(n), Some(stem)) => Some(
                WallpaperView { name: stem, path: p, thumb_path: joined(dir, n) },
            ),
            _ => None,
        }
    }
}

/// The candidate of each source file, in their order.
pub open spec fn candidates(files: Seq<Seq<char>>, dir: Seq<char>) -> Seq<Option<WallpaperView>> {
    files.map_values(|p: Seq<char>| candidate(p, dir))
}

/// Every source file has a file name of its own, a single path component.
pub open spec fn names_distinct(files: Seq<Seq<char>>) -> bool {
    &&& forall|i: int|
        0 <= i < files.len() ==> (#[trigger] file_name_of(files[i]) matches Some(n) ==> is_component(n))
    &&& forall|i: int, j: int|
        0 <= i < files.len() && 0 <= j < files.len() && i != j && file_name_of(files[i]) is Some
            ==> #[trigger] file_name_of(files[i]) != #[trigger] file_name_of(files[j])
}

/// Distinct file names give distinct thumbnail paths.
proof fn lemma_thumbs_distinct(files: Seq<Seq<char>>, dir: Seq<char>)
    requires
        names_distinct(files),
    ensures
        forall|i: int, j: int|
            0 <= i < files.len() && 0 <= j < files.len() && i != j && thumb_for(files[i], dir) is Some
                ==> #[trigger] thumb_for(files[i], dir) != #[trigger] thumb_for(files[j], dir),
{
    assert forall|i: int, j: int|
        0 <= i < files.len() && 0 <= j < files.len() && i != j && thumb_for(files[i], dir) is Some
            implies #[trigger] thumb_for(files[i], dir) != #[trigger] thumb_for(files[j], dir) by {
        if thumb_for(files[j], dir) is Some && thumb_for(files[i], dir) == thumb_for(files[j], dir) {
            let a = file_name_of(files[i])->Some_0;
            let b = file_name_of(files[j])->Some_0;
            lemma_joined_injective(dir, a, b);
            assert(file_name_of(files[i]) == file_name_of(files[j]));
        }
    }
}

/// The candidates whose thumbnail was made, in their order.
pub open spec fn catalog_of(cands: Seq<Option<WallpaperView>>, made: Seq<bool>) -> Seq<
    WallpaperView,
>
    decreases cands.len(),
{
    if cands.len() == 0 {
        Seq::empty()
    } else {
        let p = catalog_of(cands.drop_last(), made.drop_last());
        match cands.last() {
            Some(w) => if made.last() {
                p.push(w)
            } else {
                p
            },
            None => p,
        }
    }
}

/// The thumbnail paths that a catalog refers to.
pub open spec fn thumb_set(c: Seq<WallpaperView>) -> Set<Seq<char>> {
    Set::new(|t: Seq<char>| exists|i: int| 0 <= i < c.len() && #[trigger] c[i].thumb_path == t)
}

/// The paths of `listing` that `keep` does not hold, in their order.
pub open spec fn stale(listing: Seq<Seq<char>>, keep: Set<Seq<char>>) -> Seq<Seq<char>>
    decreases listing.len(),
{
    if listing.len() == 0 {
        Seq::empty()
    } else {
        let p = stale(listing.drop_last(), keep);
        if keep.contains(listing.last()) {
            p
        } else {
            p.push(listing.last())
        }
    }
}

/// What a directory listed as `listing` holds once the stale files are gone.
pub open spec fn left_after_gc(listing: Seq<Seq<char>>, keep: Set<Seq<char>>) -> Set<Seq<char>> {
    Set::new(|p: Seq<char>| listing.contains(p) && !stale(listing, keep).contains(p))
}

/// Whether a lower-cased extension is that of a video container.
pub fn is_video_extension_str(e: &str) -> (r: bool)
    ensures
        r == is_video_extension(e@),
{
    str_eq(e, "mp4") || str_eq(e, "webm") || str_eq(e, "mkv")
}

/// Whether `p` is a video file, judged by its extension in any case.
pub fn is_video_path(p: &str) -> (r: bool)
    ensures
        r == is_video(p@),
{
    match extension(p) {
        Some(e) => {
            let lower = lowercase(e.as_str());
            is_video_extension_str(lower.as_str())
        },
        None => false,
    }
}

/// The entry that the source file `p` becomes, with its thumbnail in
/// `thumb_dir`; nothing for a video or a path without a file name.
pub fn thumbnail_candidate(p: &str, thumb_dir: &str) -> (r: Option<Wallpaper>)
    ensures
        opt_entry_view(r) == candidate(p@, thumb_dir@),
{
    if is_video_path(p) {
        return None;
    }
    match (file_name(p), file_stem(p)) {
        (Some(n), Some(stem)) => {
            let thumb = join(thumb_dir, n.as_str());
            Some(Wallpaper { name: stem, path: p.to_owned(), thumb_path: thumb })
        },
        _ => None,
    }
}

/// For each source file, the entry it becomes if its thumbnail can be had.
pub fn plan_thumbnails(files: &Vec<String>, thumb_dir: &str) -> (r: Vec<Option<Wallpaper>>)
    ensures
        r@.len() == files@.len(),
        forall|i: int|
            0 <= i < files@.len() ==> opt_entry_view(#[trigger] r@[i]) == candidate(
                files@[i]@,
                thumb_dir@,
            ),
{
    let mut out: Vec<Option<Wallpaper>> = Vec::new();
    let mut i: usize = 0;
    while i < files.len()
        invariant
            i <= files@.len(),
            out@.len() == i,
            forall|k: int|
                0 <= k < i ==> opt_entry_view(#[trigger] out@[k]) == candidate(
                    files@[k]@,
                    thumb_dir@,
                ),
        decreases files@.len() - i,
    {
        let c = thumbnail_candidate(files[i].as_str(), thumb_dir);
        out.push(c);
        i = i + 1;
    }
    out
}

/// The catalog of a rebuild: the planned entries whose thumbnail was made,
/// in the order of the source files.
pub fn assemble_catalog(cands: &Vec<Option<Wallpaper>>, made: &Vec<bool>) -> (r: Vec<Wallpaper>)
    requires
        cands@.len() == made@.len(),
    ensures
        entries_view(r@) == catalog_of(cands@.map_values(|o: Option<Wallpaper>| opt_entry_view(o)), made@),
{
    let ghost cv = cands@.map_values(|o: Option<Wallpaper>| opt_entry_view(o));
    let mut out: Vec<Wallpaper> = Vec::new();
    let mut i: usize = 0;
    assert(cv.take(0) =~= Seq::<Option<WallpaperView>>::empty());
    assert(entries_view(out@) =~= Seq::<WallpaperView>::empty());
    while i < cands.len()
        invariant
            i <= cands@.len(),
            cands@.len() == made@.len(),
            cv == cands@.map_values(|o: Option<Wallpaper>| opt_entry_view(o)),
            entries_view(out@) == catalog_of(cv.take(i as int), made@.take(i as int)),
        decreases cands@.len() - i,
    {
        proof {
            assert(cv.take(i + 1).drop_last() =~= cv.take(i as int));
            assert(made@.take(i + 1).drop_last() =~= made@.take(i as int));
        }
        match &cands[i] {
            Some(w) => {
                if made[i] {
                    out.push(w.clone());
                }
            },
            None => {},
        }
        i = i + 1;
        assert(entries_view(out@) =~= catalog_of(cv.take(i as int), made@.take(i as int)));
    }
    assert(cv.take(cands@.len() as int) =~= cv);
    assert(made@.take(made@.len() as int) =~= made@);
    out
}

/// Whether some entry of `catalog` has `p` as its thumbnail.
pub fn references_thumbnail(catalog: &Vec<Wallpaper>, p: &str) -> (r: bool)
    ensures
        r == thumb_set(entries_view(catalog@)).contains(p@),
{
    let ghost c = entries_view(catalog@);
    let mut j: usize = 0;
    while j < catalog.len()
        invariant
            j <= catalog@.len(),
            c == entries_view(catalog@),
            forall|k: int| 0 <= k < j ==> c[k].thumb_path != p@,
        decreases catalog@.len() - j,
    {
        if str_eq(catalog[j].thumb_path.as_str(), p) {
            assert(c[j as int].thumb_path == p@);
            return true;
        }
        j = j + 1;
    }
    false
}

/// The files of the thumbnail directory (listed as `listing`) that no entry
/// of `catalog` refers to, in the order of the listing.
pub fn stale_thumbnails(catalog: &Vec<Wallpaper>, listing: &Vec<String>) -> (r: Vec<String>)
    ensures
        strings_view(r@) == stale(strings_view(listing@), thumb_set(entries_view(catalog@))),
{
    let ghost keep = thumb_set(entries_view(catalog@));
    let ghost lv = strings_view(listing@);
    let mut out: Vec<String> = Vec::new();
    let mut i: usize = 0;
    assert(lv.take(0) =~= Seq::<Seq<char>>::empty());
    assert(strings_view(out@) =~= Seq::<Seq<char>>::empty());
    while i < listing.len()
        invariant
            i <= listing@.len(),
            keep == thumb_set(entries_view(catalog@)),
            lv == strings_view(listing@),
            strings_view(out@) == stale(lv.take(i as int), keep),
        decreases listing@.len() - i,
    {
        proof {
            assert(lv.take(i + 1).drop_last() =~= lv.take(i as int));
        }
        if !references_thumbnail(catalog, listing[i].as_str()) {
            out.push(listing[i].clone());
        }
        i = i + 1;
        assert(strings_view(out@) =~= stale(lv.take(i as int), keep));
    }
    assert(lv.take(listing@.len() as int) =~= lv);
    out
}

proof fn lemma_stale_contains(listing: Seq<Seq<char>>, keep: Set<Seq<char>>, p: Seq<char>)
    ensures
        stale(listing, keep).contains(p) <==> (listing.contains(p) && !keep.contains(p)),
    decreases listing.len(),
{
    if listing.len() > 0 {
        let init = listing.drop_last();
        lemma_stale_contains(init, keep, p);
        assert(listing =~= init.push(listing.last()));
        if init.contains(p) {
            let k = choose|k: int| 0 <= k < init.len() && init[k] == p;
            assert(listing[k] == p);
        }
        if listing.contains(p) && p != listing.last() {
            let k = choose|k: int| 0 <= k < listing.len() && listing[k] == p;
            assert(init[k] == p);
        }
        let sp = stale(init, keep);
        if !keep.contains(listing.last()) {
            assert(sp.push(listing.last())[sp.len() as int] == listing.last());
            if sp.push(listing.last()).contains(p) && p != listing.last() {
                let k = choose|k: int| 0 <= k < sp.len() + 1 && sp.push(listing.last())[k] == p;
                assert(sp[k] == p);
            }
            if sp.contains(p) {
                let k = choose|k: int| 0 <= k < sp.len() && sp[k] == p;
                assert(sp.push(listing.last())[k] == p);
            }
        }
    }
}

/// Garbage collection is exact: when the thumbnail directory is listed after
/// the catalog's thumbnails were written, deleting the stale files leaves
/// the directory holding precisely the thumbnails that the catalog refers to.
pub proof fn lemma_gc_leaves_exactly_catalog(catalog: Seq<WallpaperView>, listing: Seq<Seq<char>>)
    requires
        forall|t: Seq<char>| thumb_set(catalog).contains(t) ==> listing.contains(t),
    ensures
        left_after_gc(listing, thumb_set(catalog)) == thumb_set(catalog),
{
    let keep = thumb_set(catalog);
    assert forall|p: Seq<char>| left_after_gc(listing, keep).contains(p) == keep.contains(p) by {
        lemma_stale_contains(listing, keep, p);
    }
    assert(left_after_gc(listing, keep) =~= keep);
}

proof fn lemma_catalog_thumbs(cands: Seq<Option<WallpaperView>>, made: Seq<bool>, t: Seq<char>)
    requires
        cands.len() == made.len(),
    ensures
        thumb_set(catalog_of(cands, made)).contains(t) <==> exists|i: int|
            0 <= i < cands.len() && #[trigger] cands[i] is Some && made[i] && cands[i]->Some_0.thumb_path
                == t,
    decreases cands.len(),
{
    if cands.len() > 0 {
        let ic = cands.drop_last();
        let im = made.drop_last();
        let n = cands.len() - 1;
        lemma_catalog_thumbs(ic, im, t);
        let p = catalog_of(ic, im);
        let c = catalog_of(cands, made);
        if thumb_set(c).contains(t) {
            let k = choose|k: int| 0 <= k < c.len() && #[trigger] c[k].thumb_path == t;
            if k < p.len() {
                assert(c[k] == p[k]);
                assert(thumb_set(p).contains(t));
                let i = choose|i: int|
                    0 <= i < ic.len() && #[trigger] ic[i] is Some && im[i] && ic[i]->Some_0.thumb_path
                        == t;
                assert(cands[i] == ic[i]);
            } else {
                assert(cands[n] is Some && made[n]);
                assert(cands[n]->Some_0.thumb_path == t);
            }
        }
        if exists|i: int|
            0 <= i < cands.len() && #[trigger] cands[i] is Some && made[i] && cands[i]->Some_0.thumb_path
                == t {
            let i = choose|i: int|
                0 <= i < cands.len() && #[trigger] cands[i] is Some && made[i] && cands[i]->Some_0.thumb_path
                    == t;
            if i < n {
                assert(ic[i] == cands[i]);
                assert(thumb_set(p).contains(t));
                let k = choose|k: int| 0 <= k < p.len() && #[trigger] p[k].thumb_path == t;
                assert(c[k] == p[k]);
            } else {
                assert(c[p.len() as int] == cands[n]->Some_0);
            }
        }
    }
}

proof fn lemma_thumbnail_of_file(
    files: Seq<Seq<char>>,
    dir: Seq<char>,
    made: Seq<bool>,
    listing: Seq<Seq<char>>,
    i: int,
)
    requires
        made.len() == files.len(),
        0 <= i < files.len(),
        thumb_for(files[i], dir) is Some,
        forall|i: int, j: int|
            0 <= i < files.len() && 0 <= j < files.len() && i != j && thumb_for(files[i], dir) is Some
                ==> #[trigger] thumb_for(files[i], dir) != #[trigger] thumb_for(files[j], dir),
        forall|t: Seq<char>|
            thumb_set(catalog_of(candidates(files, dir), made)).contains(t) ==> listing.contains(t),
    ensures
        left_after_gc(listing, thumb_set(catalog_of(candidates(files, dir), made))).contains(
            thumb_for(files[i], dir)->Some_0,
        ) <==> (candidate(files[i], dir) is Some && made[i]),
{
    let cands = candidates(files, dir);
    let c = catalog_of(cands, made);
    lemma_gc_leaves_exactly_catalog(c, listing);
    let t = thumb_for(files[i], dir)->Some_0;
    lemma_catalog_thumbs(cands, made, t);
    if thumb_set(c).contains(t) {
        let j = choose|j: int|
            0 <= j < cands.len() && #[trigger] cands[j] is Some && made[j] && cands[j]->Some_0.thumb_path
                == t;
        assert(cands[j] == candidate(files[j], dir));
        assert(thumb_for(files[j], dir) == Some(t));
        assert(j == i);
    }
    assert(cands[i] == candidate(files[i], dir));
    if candidate(files[i], dir) is Some && made[i] {
        assert(cands[i]->Some_0.thumb_path == t);
        assert(thumb_set(c).contains(t));
    }
}

/// A thumbnail is left after a rebuild exactly for the files that are not
/// videos and whose thumbnail could be made, provided no two source files
/// share a file name and the thumbnail directory was listed after the
/// thumbnails were written.
pub proof fn lemma_thumbnail_iff_image(
    files: Seq<Seq<char>>,
    dir: Seq<char>,
    made: Seq<bool>,
    listing: Seq<Seq<char>>,
)
    requires
        made.len() == files.len(),
        names_distinct(files),
        forall|t: Seq<char>|
            thumb_set(catalog_of(candidates(files, dir), made)).contains(t) ==> listing.contains(t),
    ensures
        forall|i: int|
            0 <= i < files.len() && thumb_for(files[i], dir) is Some ==> (left_after_gc(
                listing,
                thumb_set(catalog_of(candidates(files, dir), made)),
            ).contains(thumb_for(#[trigger] files[i], dir)->Some_0) <==> (candidate(files[i], dir) is Some
                && made[i])),
{
    lemma_thumbs_distinct(files, dir);
    assert forall|i: int| 0 <= i < files.len() && thumb_for(files[i], dir) is Some implies (left_after_gc(
        listing,
        thumb_set(catalog_of(candidates(files, dir), made)),
    ).contains(thumb_for(#[trigger] files[i], dir)->Some_0) <==> (candidate(files[i], dir) is Some
        && made[i])) by {
        lemma_thumbnail_of_file(files, dir, made, listing, i);
    }
}

proof fn lemma_catalog_same_outcomes(cands: Seq<Option<WallpaperView>>, m1: Seq<bool>, m2: Seq<bool>)
    requires
        cands.len() == m1.len(),
        cands.len() == m2.len(),
        forall|i: int| 0 <= i < cands.len() && #[trigger] cands[i] is Some ==> m1[i] == m2[i],
    ensures
        catalog_of(cands, m1) == catalog_of(cands, m2),
    decreases cands.len(),
{
    if cands.len() > 0 {
        let ic = cands.drop_last();
        assert forall|i: int| 0 <= i < ic.len() && #[trigger] ic[i] is Some implies m1.drop_last()[i]
            == m2.drop_last()[i] by {
            assert(cands[i] == ic[i]);
        }
        lemma_catalog_same_outcomes(ic, m1.drop_last(), m2.drop_last());
        assert(cands[cands.len() - 1] == cands.last());
    }
}

/// Rebuilding an unchanged tree is stable. On the first rebuild a file's
/// thumbnail is made when it already existed (`existed`) or its source
/// decodes (`decoded`); on the second, when it is in the directory that the
/// first rebuild left, or its source decodes as before. Then both rebuilds
/// record the same catalog, and the second deletes nothing from a directory
/// holding exactly the first catalog's thumbnails.
pub proof fn lemma_rebuild_is_stable(
    files: Seq<Seq<char>>,
    dir: Seq<char>,
    existed: Seq<bool>,
    decoded: Seq<bool>,
    made1: Seq<bool>,
    made2: Seq<bool>,
    listing: Seq<Seq<char>>,
)
    requires
        existed.len() == files.len(),
        decoded.len() == files.len(),
        made1.len() == files.len(),
        made2.len() == files.len(),
        names_distinct(files),
        forall|i: int| 0 <= i < files.len() ==> #[trigger] made1[i] == (existed[i] || decoded[i]),
        forall|i: int|
            0 <= i < files.len() ==> #[trigger] made2[i] == ((thumb_for(files[i], dir) is Some
                && thumb_set(catalog_of(candidates(files, dir), made1)).contains(
                thumb_for(files[i], dir)->Some_0,
            )) || decoded[i]),
        forall|t: Seq<char>|
            listing.contains(t) <==> thumb_set(
                catalog_of(candidates(files, dir), made1),
            ).contains(t),
    ensures
        catalog_of(candidates(files, dir), made2) == catalog_of(
            candidates(files, dir),
            made1,
        ),
        stale(listing, thumb_set(catalog_of(candidates(files, dir), made2)))
            == Seq::<Seq<char>>::empty(),
        left_after_gc(
            listing,
            thumb_set(catalog_of(candidates(files, dir), made2)),
        ) == listing.to_set(),
{
    lemma_thumbs_distinct(files, dir);
    let cands = candidates(files, dir);
    let c1 = catalog_of(cands, made1);
    assert forall|i: int| 0 <= i < cands.len() && #[trigger] cands[i] is Some implies made1[i]
        == made2[i] by {
        let t = thumb_for(files[i], dir)->Some_0;
        lemma_catalog_thumbs(cands, made1, t);
        if thumb_set(c1).contains(t) {
            let j = choose|j: int|
                0 <= j < cands.len() && #[trigger] cands[j] is Some && made1[j] && cands[j]->Some_0.thumb_path
                    == t;
            assert(thumb_for(files[j], dir) == Some(t));
            assert(j == i);
        }
        if made1[i] {
            assert(cands[i]->Some_0.thumb_path == t);
        }
    }
    lemma_catalog_same_outcomes(cands, made1, made2);
    let keep = thumb_set(c1);
    let st = stale(listing, keep);
    if st.len() > 0 {
        lemma_stale_contains(listing, keep, st[0]);
        assert(st.contains(st[0]));
    }
    assert(st =~= Seq::<Seq<char>>::empty());
    assert forall|p: Seq<char>| left_after_gc(listing, keep).contains(p) == listing.to_set().contains(p) by {
        lemma_stale_contains(listing, keep, p);
    }
    assert(left_after_gc(listing, keep) =~= listing.to_set());
}

proof fn lemma_catalog_from_candidates(cands: Seq<Option<WallpaperView>>, made: Seq<bool>, k: int)
    requires
        cands.len() == made.len(),
        0 <= k < catalog_of(cands, made).len(),
    ensures
        exists|i: int| 0 <= i < cands.len() && #[trigger] cands[i] == Some(catalog_of(cands, made)[k]),
    decreases cands.len(),
{
    let init = cands.drop_last();
    let p = catalog_of(init, made.drop_last());
    if k < p.len() {
        lemma_catalog_from_candidates(init, made.drop_last(), k);
        let i = choose|i: int| 0 <= i < init.len() && #[trigger] init[i] == Some(p[k]);
        assert(cands[i] == init[i]);
    } else {
        assert(cands[cands.len() - 1] == Some(catalog_of(cands, made)[k]));
    }
}

/// No two catalog entries share a source path when the listed source files
/// are distinct.
pub proof fn lemma_catalog_paths_unique(files: Seq<Seq<char>>, dir: Seq<char>, made: Seq<bool>)
    requires
        made.len() == files.len(),
        files.no_duplicates(),
    ensures
        forall|i: int, j: int|
            0 <= i < j < catalog_of(candidates(files, dir), made).len() ==> (#[trigger] catalog_of(
                candidates(files, dir),
                made,
            )[i]).path != (#[trigger] catalog_of(candidates(files, dir), made)[j]).path,
    decreases files.len(),
{
    if files.len() > 0 {
        let init = files.drop_last();
        let m = made.drop_last();
        assert(init.no_duplicates());
        lemma_catalog_paths_unique(init, dir, m);
        assert(candidates(files, dir).drop_last() =~= candidates(init, dir));
        let c = catalog_of(candidates(files, dir), made);
        let p = catalog_of(candidates(init, dir), m);
        let last = files.len() - 1;
        assert forall|i: int, j: int| 0 <= i < j < c.len() implies (#[trigger] c[i]).path != (
        #[trigger] c[j]).path by {
            if j >= p.len() {
                lemma_catalog_from_candidates(candidates(init, dir), m, i);
                let k = choose|k: int|
                    0 <= k < init.len() && #[trigger] candidates(init, dir)[k] == Some(p[i]);
                assert(c[i] == p[i]);
                assert(p[i].path == init[k]);
                assert(c[j] == candidate(files[last], dir)->Some_0);
                assert(c[j].path == files[last]);
                assert(init[k] == files[k]);
            } else {
                assert(c[i] == p[i] && c[j] == p[j]);
            }
        }
    }
}

} // verus!
