use webworm::base::bookmark::{Bookmark, BookmarkInsertError, Bookmarks, Url};
use webworm::pattern::{patterns, GlobPattern};

fn bookmark(name: &str, url: &str) -> Bookmark {
    Bookmark { name: name.to_string(), url: Url(url.to_string()), can_advance: false }
}

#[test]
fn url_get_removes_the_markers() {
    let u = Url("https://example.org/show/ep{{12}}/watch".to_string());
    assert_eq!(u.get(), "https://example.org/show/ep12/watch");
}

#[test]
fn url_episode_reads_the_marker() {
    let u = Url("https://example.org/show/ep{{12}}/watch".to_string());
    assert_eq!(u.episode(), 12);
    assert_eq!(u.try_episode(), Some(12));
    assert_eq!(Url("https://example.org/{{x}}".to_string()).try_episode(), None);
    assert_eq!(Url("https://example.org/}}3{{".to_string()).try_episode(), None);
    assert_eq!(Url("https://example.org/7".to_string()).try_episode(), None);
}

#[test]
fn url_next_and_previous_step_the_episode() {
    let u = Url("https://x.org/{{9}}/a".to_string());
    let n = u.next();
    assert_eq!(n.0, "https://x.org/{{10}}/a");
    let p = n.previous();
    assert_eq!(p.0, "https://x.org/{{9}}/a");
    let padded = Url("https://x.org/{{09}}".to_string());
    assert_eq!(padded.next().0, "https://x.org/{{10}}");
    assert_eq!(padded.next().previous().0, "https://x.org/{{9}}");
}

#[test]
fn can_advance_reads_the_page_title() {
    let mut b = bookmark("show", "https://x.org/{{1}}");
    assert_eq!(b.probe_url(), Some("https://x.org/2".to_string()));
    assert!(!b.can_advance(Some("404 Not Found".to_string())));
    assert!(!b.can_advance);
    assert!(!b.can_advance(None));
    assert!(b.can_advance(Some("Episode 2".to_string())));
    assert!(b.can_advance);
    assert_eq!(b.probe_url(), None);
    assert!(b.can_advance(Some("404".to_string())));
}

#[test]
fn advance_and_previous_move_the_bookmark() {
    let mut b = bookmark("show", "https://x.org/{{4}}");
    b.can_advance = true;
    b.advance();
    assert_eq!(b.url.0, "https://x.org/{{5}}");
    assert!(!b.can_advance);
    b.previous();
    b.previous();
    assert_eq!(b.url.0, "https://x.org/{{3}}");
}

#[test]
fn push_refuses_a_taken_name() {
    let mut bs = Bookmarks(Vec::new());
    assert!(bs.push(Some(bookmark("a", "https://x.org/{{1}}"))).is_ok());
    assert!(matches!(
        bs.push(Some(bookmark("a", "https://y.org/{{1}}"))),
        Err(BookmarkInsertError::NameAlreadyFound)
    ));
    assert!(matches!(bs.push(None), Err(BookmarkInsertError::WrongFormat)));
    assert_eq!(bs.0.len(), 1);
    assert_eq!(bs.get("a").unwrap().url.0, "https://x.org/{{1}}");
    assert!(bs.get("b").is_none());
}

#[test]
fn push_entry_then_get_gives_the_bookmark() {
    let mut bs = Bookmarks(Vec::new());
    assert!(bs.push_entry(bookmark("b", "https://b.org/{{2}}")).is_ok());
    assert_eq!(bs.get("b").unwrap().url.0, "https://b.org/{{2}}");
}

#[test]
fn remove_takes_the_named_bookmark_out() {
    let mut bs = Bookmarks(vec![bookmark("a", "https://a/{{1}}"), bookmark("b", "https://b/{{1}}")]);
    bs.remove("a");
    assert!(bs.get("a").is_none());
    assert_eq!(bs.0.len(), 1);
    bs.remove("zzz");
    assert_eq!(bs.0.len(), 1);
}

#[test]
fn bookmarks_advance_and_previous_by_name() {
    let mut bs = Bookmarks(vec![bookmark("a", "https://a/{{1}}")]);
    assert_eq!(bs.advance("a").unwrap().url.0, "https://a/{{2}}");
    assert_eq!(bs.previous("a").unwrap().url.0, "https://a/{{1}}");
    assert!(bs.advance("none").is_none());
}

#[test]
fn update_probes_the_named_bookmark() {
    let mut bs = Bookmarks(vec![bookmark("a", "https://a/{{1}}")]);
    assert!(bs.update("a", Some("Episode".to_string())));
    assert!(bs.0[0].can_advance);
    assert!(!bs.update("zzz", Some("Episode".to_string())));
}

#[test]
fn glob_patterns_pick_by_name() {
    assert!(GlobPattern::new("[").is_none());
    let p = GlobPattern::new("the *").unwrap();
    assert!(p.matches("the office"));
    assert!(!p.matches("office"));
    assert!(patterns(&vec!["a*".to_string(), "[".to_string()]).is_none());
    let ps = patterns(&vec!["a*".to_string(), "b?".to_string()]).unwrap();
    assert!(bookmark("bx", "https://x/{{1}}").matches(&ps));
    assert!(!bookmark("cx", "https://x/{{1}}").matches(&ps));
    assert!(bookmark("cx", "https://x/{{1}}").matches(&[]));
}

#[test]
fn filter_keeps_the_matching_bookmarks_in_order() {
    let mut bs = Bookmarks(vec![
        bookmark("alpha", "https://a/{{1}}"),
        bookmark("beta", "https://b/{{1}}"),
        bookmark("also", "https://c/{{1}}"),
    ]);
    let ps = patterns(&vec!["al*".to_string()]).unwrap();
    bs.filter(&ps);
    let names: Vec<&str> = bs.0.iter().map(|b| b.name.as_str()).collect();
    assert_eq!(names, vec!["alpha", "also"]);
    bs.filter(&[]);
    assert_eq!(bs.0.len(), 2);
}

#[test]
fn url_steps_undo_each_other() {
    let u = Url("https://x.org/watch{{5}}/rest".to_string());
    assert_eq!(u.episode(), 5);
    assert_eq!(u.previous().episode(), 4);
    assert_eq!(u.next().previous().0, u.0);
    assert_eq!(u.previous().next().0, u.0);
    let first = Url("a{{1}}".to_string());
    assert_eq!(first.previous().0, "a{{0}}");
    assert_eq!(first.previous().next().0, "a{{1}}");
}
