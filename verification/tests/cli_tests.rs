use webworm::base::bookmark::{Bookmark, Bookmarks, Url};
use webworm::cli::ReturnFormatting;
use webworm::text::join;
use webworm::js_bookmark::JsBookmark;
use webworm::pattern::patterns;

fn bookmark(name: &str, url: &str, can_advance: bool) -> Bookmark {
    Bookmark { name: name.to_string(), url: Url(url.to_string()), can_advance }
}

#[test]
fn format_from_the_command_line() {
    assert_eq!(ReturnFormatting::from(None), ReturnFormatting::Name);
    assert_eq!(ReturnFormatting::from(Some("URL".to_string())), ReturnFormatting::Url);
    assert_eq!(ReturnFormatting::from(Some("Links".to_string())), ReturnFormatting::Url);
    assert_eq!(ReturnFormatting::from(Some("Episode".to_string())), ReturnFormatting::Episode);
    assert_eq!(ReturnFormatting::from(Some("anything".to_string())), ReturnFormatting::Name);
    assert_eq!(ReturnFormatting::default(), ReturnFormatting::Name);
}

#[test]
fn print_formats_a_bookmark() {
    let b = bookmark("show", "https://x.org/{{7}}/a", false);
    assert_eq!(ReturnFormatting::Name.print(&b), "show");
    assert_eq!(ReturnFormatting::Url.print(&b), "https://x.org/7/a");
    assert_eq!(ReturnFormatting::Episode.print(&b), "show, 7");
}

#[test]
fn join_puts_the_separator_between_parts() {
    assert_eq!(join(&[], " ; "), "");
    assert_eq!(join(&["a".to_string()], " ; "), "a");
    assert_eq!(join(&["a".to_string(), "b".to_string(), "c".to_string()], " ; "), "a ; b ; c");
}

#[test]
fn print_selection_lists_the_bookmarks_that_can_advance() {
    let mut bs = Bookmarks(vec![
        bookmark("alpha", "https://a/{{1}}", false),
        bookmark("beta", "https://b/{{1}}", true),
        bookmark("gamma", "https://c/{{1}}", false),
    ]);
    let titles = vec![Some("Episode 2".to_string()), None, Some("404".to_string())];
    let out = bs.print_selection(&[], false, ReturnFormatting::Name, &titles);
    assert_eq!(out, Some("alpha ; beta".to_string()));
    assert!(bs.0[0].can_advance);
    assert!(bs.0[1].can_advance);
    assert!(!bs.0[2].can_advance);
}

#[test]
fn print_selection_with_all_lists_every_picked_bookmark() {
    let mut bs = Bookmarks(vec![
        bookmark("alpha", "https://a/{{1}}", false),
        bookmark("beta", "https://b/{{2}}", false),
    ]);
    let ps = patterns(&vec!["b*".to_string()]).unwrap();
    let titles = vec![None, None];
    let out = bs.print_selection(&ps, true, ReturnFormatting::Episode, &titles);
    assert_eq!(out, Some("beta, 2".to_string()));
    assert!(!bs.0[1].can_advance);
}

#[test]
fn print_selection_fails_on_an_episode_it_cannot_read() {
    let mut bs = Bookmarks(vec![bookmark("odd", "https://a/no-marker", true)]);
    let titles = vec![None];
    assert_eq!(bs.print_selection(&[], true, ReturnFormatting::Episode, &titles), None);
    assert_eq!(
        bs.print_selection(&[], true, ReturnFormatting::Url, &titles),
        Some("https://a/no-marker".to_string())
    );
}

#[test]
fn advance_selection_moves_the_bookmarks_that_can_advance() {
    let mut bs = Bookmarks(vec![
        bookmark("alpha", "https://a/{{1}}", false),
        bookmark("beta", "https://b/{{5}}", true),
        bookmark("gamma", "https://c/{{1}}", false),
    ]);
    let titles = vec![Some("fine".to_string()), None, None];
    assert!(bs.advance_selection(&[], &titles));
    assert_eq!(bs.0[0].url.0, "https://a/{{2}}");
    assert_eq!(bs.0[1].url.0, "https://b/{{6}}");
    assert_eq!(bs.0[2].url.0, "https://c/{{1}}");
    assert!(!bs.0[0].can_advance && !bs.0[1].can_advance);
}

#[test]
fn advance_selection_refuses_an_url_without_episode() {
    let mut bs = Bookmarks(vec![bookmark("odd", "https://a/none", true)]);
    assert!(!bs.advance_selection(&[], &[None]));
    assert_eq!(bs.0[0].url.0, "https://a/none");
    assert!(bs.0[0].can_advance);
}

#[test]
fn js_bookmark_round_trip() {
    let b = bookmark("show", "https://x.org/s1/ep{{12}}", true);
    let js = JsBookmark::from_bookmark(&b);
    assert_eq!(js.name, "show");
    assert_eq!(js.episode(), 12);
    assert_eq!(js.url(), "https://x.org/s1/ep12");
    assert!(js.has_new());
    let back = js.into_bookmark().unwrap();
    assert_eq!(back.url.0, "https://x.org/s1/ep{{12}}");
    assert_eq!(back.name, "show");
    assert!(!back.can_advance);
}

#[test]
fn js_bookmark_marks_every_occurrence_of_the_episode() {
    let js = JsBookmark::new("s".to_string(), 1, "https://x1.org/e1".to_string(), false);
    assert_eq!(js.into_bookmark().unwrap().url.0, "https://x{{1}}.org/e{{1}}");
}

#[test]
fn js_bookmark_without_the_episode_is_refused() {
    let js = JsBookmark::new("s".to_string(), 4, "https://x.org/e5".to_string(), false);
    assert_eq!(js.into_bookmark().err(), Some("episode was not found in url".to_string()));
}

#[test]
fn a_shown_bookmark_is_inserted_once() {
    let mut bs = Bookmarks(Vec::new());
    let js = JsBookmark::new("show".to_string(), 3, "https://x.org/ep3".to_string(), false);
    assert_eq!(bs.insert_shown(&js), Ok(()));
    assert_eq!(bs.0[0].url.0, "https://x.org/ep{{3}}");
    assert_eq!(bs.insert_shown(&js), Err("the name show already exists".to_string()));
    let lost = JsBookmark::new("other".to_string(), 3, "https://x.org/ep4".to_string(), false);
    assert_eq!(bs.insert_shown(&lost), Err("episode was not found in url".to_string()));
    assert_eq!(bs.0.len(), 1);
}

#[test]
fn probe_urls_name_the_pages_to_fetch() {
    let bs = Bookmarks(vec![
        bookmark("alpha", "https://a/{{1}}", false),
        bookmark("beta", "https://b/{{5}}", true),
        bookmark("gamma", "https://c/{{9}}/x", false),
    ]);
    let ps = patterns(&vec!["*a".to_string()]).unwrap();
    assert_eq!(
        bs.probe_urls(&ps, false),
        Some(vec![Some("https://a/2".to_string()), None, Some("https://c/10/x".to_string())])
    );
    assert_eq!(bs.probe_urls(&ps, true), Some(vec![None, None, None]));
    let odd = Bookmarks(vec![bookmark("odd", "https://a/none", false)]);
    assert_eq!(odd.probe_urls(&[], false), None);
    assert_eq!(odd.probe_urls(&[], true), Some(vec![None]));
}
