use wallkit::catalog::{
    assemble_catalog, is_video_extension_str, is_video_path, plan_thumbnails, references_thumbnail,
    stale_thumbnails, thumbnail_candidate, Wallpaper, THUMB_WIDTH,
};

fn strings(items: &[&str]) -> Vec<String> {
    items.iter().map(|s| s.to_string()).collect()
}

fn entry(name: &str, path: &str, thumb: &str) -> Wallpaper {
    Wallpaper { name: name.to_string(), path: path.to_string(), thumb_path: thumb.to_string() }
}

#[test]
fn scenario_one_image_one_video_one_corrupt() {
    let files = strings(&["/w/beach.jpg", "/w/clip.mp4", "/w/corrupt.png"]);
    let plan = plan_thumbnails(&files, "/t");
    assert_eq!(plan.len(), 3);
    assert!(plan[1].is_none());
    let beach = plan[0].as_ref().unwrap();
    assert_eq!(beach.name, "beach");
    assert_eq!(beach.path, "/w/beach.jpg");
    assert_eq!(beach.thumb_path, "/t/beach.jpg");
    let corrupt = plan[2].as_ref().unwrap();
    assert_eq!(corrupt.thumb_path, "/t/corrupt.png");

    // The truncated file fails to decode; only the beach thumbnail is made.
    let made = vec![true, false, false];
    let catalog = assemble_catalog(&plan, &made);
    assert_eq!(catalog.len(), 1);
    assert_eq!(catalog[0].name, "beach");

    let listing = strings(&["/t/beach.jpg"]);
    assert!(stale_thumbnails(&catalog, &listing).is_empty());
}

#[test]
fn video_extensions_in_any_case_are_skipped() {
    assert!(is_video_path("/w/a.mp4"));
    assert!(is_video_path("/w/a.MP4"));
    assert!(is_video_path("/w/b.WebM"));
    assert!(is_video_path("/w/c.mkv"));
    assert!(!is_video_path("/w/d.png"));
    assert!(!is_video_path("/w/mp4"));
    assert!(!is_video_path("/w/e.mp4.png"));
    assert!(thumbnail_candidate("/w/Clip.MKV", "/t").is_none());
}

#[test]
fn video_extension_words() {
    assert!(is_video_extension_str("mp4"));
    assert!(is_video_extension_str("webm"));
    assert!(is_video_extension_str("mkv"));
    assert!(!is_video_extension_str("MP4"));
    assert!(!is_video_extension_str("png"));
    assert!(!is_video_extension_str(""));
}

#[test]
fn candidate_name_is_the_stem() {
    let c = thumbnail_candidate("/home/u/walls/sub/Mountain.Lake.JPG", "/home/u/.cache/thumbs").unwrap();
    assert_eq!(c.name, "Mountain.Lake");
    assert_eq!(c.path, "/home/u/walls/sub/Mountain.Lake.JPG");
    assert_eq!(c.thumb_path, "/home/u/.cache/thumbs/Mountain.Lake.JPG");
}

#[test]
fn candidate_without_extension() {
    let c = thumbnail_candidate("/w/README", "/t").unwrap();
    assert_eq!(c.name, "README");
    assert_eq!(c.thumb_path, "/t/README");
}

#[test]
fn path_without_file_name_has_no_candidate() {
    assert!(thumbnail_candidate("/w/..", "/t").is_none());
    assert!(thumbnail_candidate("/", "/t").is_none());
}

#[test]
fn catalog_keeps_source_order() {
    let files = strings(&["/w/z.png", "/w/a.png", "/w/m.png"]);
    let plan = plan_thumbnails(&files, "/t");
    let catalog = assemble_catalog(&plan, &vec![true, true, true]);
    let names: Vec<&str> = catalog.iter().map(|w| w.name.as_str()).collect();
    assert_eq!(names, vec!["z", "a", "m"]);
    let paths: Vec<&str> = catalog.iter().map(|w| w.path.as_str()).collect();
    assert_eq!(paths, vec!["/w/z.png", "/w/a.png", "/w/m.png"]);
}

#[test]
fn empty_tree_gives_empty_catalog() {
    let plan = plan_thumbnails(&Vec::new(), "/t");
    assert!(plan.is_empty());
    let catalog = assemble_catalog(&plan, &Vec::new());
    assert!(catalog.is_empty());
    let listing = strings(&["/t/old.png", "/t/older.jpg"]);
    assert_eq!(stale_thumbnails(&catalog, &listing), listing);
}

#[test]
fn gc_leaves_exactly_the_catalog_thumbnails() {
    let catalog = vec![entry("a", "/w/a.png", "/t/a.png"), entry("b", "/w/b.jpg", "/t/b.jpg")];
    let listing = strings(&["/t/old.png", "/t/a.png", "/t/gone.jpg", "/t/b.jpg"]);
    let stale = stale_thumbnails(&catalog, &listing);
    assert_eq!(stale, strings(&["/t/old.png", "/t/gone.jpg"]));
    let mut left: Vec<String> = listing.into_iter().filter(|p| !stale.contains(p)).collect();
    left.sort();
    assert_eq!(left, strings(&["/t/a.png", "/t/b.jpg"]));
}

#[test]
fn thumbnail_exists_iff_decodable_image() {
    let files = strings(&["/w/a.png", "/w/b.webm", "/w/c.jpg", "/w/d.gif"]);
    let plan = plan_thumbnails(&files, "/t");
    let made = vec![true, false, false, true];
    let catalog = assemble_catalog(&plan, &made);
    let listing = strings(&["/t/a.png", "/t/d.gif", "/t/c.jpg"]);
    let stale = stale_thumbnails(&catalog, &listing);
    let left: Vec<&String> = listing.iter().filter(|p| !stale.contains(p)).collect();
    assert_eq!(left, vec!["/t/a.png", "/t/d.gif"]);
    assert!(!left.iter().any(|p| p.as_str() == "/t/b.webm"));
}

#[test]
fn rebuild_of_unchanged_tree_is_stable() {
    let files = strings(&["/w/a.png", "/w/b.png", "/w/c.mp4"]);
    // First rebuild: a decodes, b does not, nothing existed before.
    let plan1 = plan_thumbnails(&files, "/t");
    let catalog1 = assemble_catalog(&plan1, &vec![true, false, false]);
    let listing1 = strings(&["/t/a.png", "/t/stale.png"]);
    let stale1 = stale_thumbnails(&catalog1, &listing1);
    assert_eq!(stale1, strings(&["/t/stale.png"]));
    // Second rebuild: a's thumbnail exists, b still does not decode.
    let left: Vec<String> = listing1.into_iter().filter(|p| !stale1.contains(p)).collect();
    let plan2 = plan_thumbnails(&files, "/t");
    let made2: Vec<bool> = plan2
        .iter()
        .map(|c| c.as_ref().map_or(false, |w| left.contains(&w.thumb_path)))
        .collect();
    let catalog2 = assemble_catalog(&plan2, &made2);
    assert_eq!(catalog2.len(), catalog1.len());
    for (x, y) in catalog1.iter().zip(catalog2.iter()) {
        assert_eq!(x.name, y.name);
        assert_eq!(x.path, y.path);
        assert_eq!(x.thumb_path, y.thumb_path);
    }
    assert!(stale_thumbnails(&catalog2, &left).is_empty());
}

#[test]
fn references_thumbnail_matches_exactly() {
    let catalog = vec![entry("a", "/w/a.png", "/t/a.png")];
    assert!(references_thumbnail(&catalog, "/t/a.png"));
    assert!(!references_thumbnail(&catalog, "/t/A.png"));
    assert!(!references_thumbnail(&catalog, "/t/a.png "));
}

#[test]
fn wallpaper_clone_keeps_fields() {
    let w = entry("n", "/p", "/t/p");
    let c = w.clone();
    assert_eq!(c.name, "n");
    assert_eq!(c.path, "/p");
    assert_eq!(c.thumb_path, "/t/p");
}

#[test]
fn thumbnails_are_five_hundred_pixels_wide() {
    assert_eq!(THUMB_WIDTH, 500);
}

#[test]
fn thumbnail_path_joins_like_std() {
    assert_eq!(thumbnail_candidate("/w/beach.jpg", "/t/").unwrap().thumb_path, "/t/beach.jpg");
    assert_eq!(thumbnail_candidate("/w/beach.jpg", "").unwrap().thumb_path, "beach.jpg");
    assert_eq!(thumbnail_candidate("rel/beach.jpg", "thumbs").unwrap().thumb_path, "thumbs/beach.jpg");
}
