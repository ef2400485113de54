use webworm::filter::Filter;
use webworm::icons::Icon;
use webworm::id::{bookmark_position, MovieId};
use webworm::keyed_map::KeyedMap;
use webworm::messages::Message;
use webworm::save::{trace_io_error, SaveError};
use webworm::task::{Task, TaskMessage, TaskState};

#[test]
fn movie_ids_are_shown_with_their_number() {
    assert_eq!(MovieId(42).id(), 42);
    assert_eq!(MovieId(42).display(), "Id 42");
}

#[test]
fn empty_lists_say_why() {
    assert_eq!(Filter::Bookmarks.empty_message(), "You have no bookmarks yet");
    assert_eq!(Filter::Search.empty_message(), "Type in a search  term");
    assert_eq!(Filter::Completed.empty_message(), "You have no completed movies yet");
    assert_eq!(Filter::Details(MovieId(1)).empty_message(), "Selected movie has not details");
    assert_eq!(Filter::default(), Filter::Bookmarks);
}

#[test]
fn keyed_map_reads_back_what_was_written() {
    let mut m: KeyedMap<MovieId, String> = KeyedMap::new();
    assert_eq!(m.len(), 0);
    m.insert(MovieId(1), "one".to_string());
    m.insert(MovieId(2), "two".to_string());
    m.insert(MovieId(1), "uno".to_string());
    assert_eq!(m.len(), 2);
    assert_eq!(m.get(&MovieId(1)), Some(&"uno".to_string()));
    assert!(m.contains_key(&MovieId(2)));
    assert_eq!(m.remove(&MovieId(2)), Some("two".to_string()));
    assert_eq!(m.remove(&MovieId(2)), None);
    assert!(!m.contains_key(&MovieId(2)));
    let entries = m.entries();
    assert_eq!(entries.len(), 1);
    assert_eq!((entries[0].0, entries[0].1.as_str()), (MovieId(1), "uno"));
}

#[test]
fn editor_messages_that_change_the_list_need_saving() {
    assert!(Message::IncrementEntry(0).needs_saving());
    assert!(Message::AddEntryBuilder.needs_saving());
    assert!(Message::RemoveEntry(1).needs_saving());
    assert!(!Message::UrlChanged("u".to_string()).needs_saving());
    assert!(!Message::NameChanged("n".to_string()).needs_saving());
    assert!(!Message::Fetch(0).needs_saving());
    assert!(!Message::CopyLink(0).needs_saving());
}

#[test]
fn icons_name_their_images() {
    assert_eq!(Icon::Trash.data(), "assets/feather/trash.svg");
    assert_eq!(Icon::ArrowLeft.data(), "assets/feather/arrow-left.svg");
}

#[test]
fn io_errors_pass_through_unchanged() {
    assert_eq!(trace_io_error(SaveError::Write), SaveError::Write);
}

#[test]
fn tasks_are_edited_and_done() {
    let mut t = Task::new(uuid::Uuid::new_v4(), "write tests".to_string());
    assert!(!t.is_completed());
    t.update(TaskMessage::Completed(true));
    assert!(t.is_completed());
    t.update(TaskMessage::Edit);
    t.update(TaskMessage::DescriptionEdited(String::new()));
    t.update(TaskMessage::FinishEdition);
    t.update(TaskMessage::DescriptionEdited("again".to_string()));
    t.update(TaskMessage::FinishEdition);
    t.update(TaskMessage::Delete);
    assert!(t.is_completed());
    assert_eq!(Task::text_input_id(7), "task-7");
    assert_eq!(TaskState::default(), TaskState::Idle);
}

#[test]
fn tasks_keep_the_id_they_are_given() {
    let id = uuid::Uuid::new_v4();
    let a = Task::new(id, "a".to_string());
    assert_eq!(a.id, id);
    assert_eq!(a.id.get_version_num(), 4);
}

#[test]
fn bookmark_positions_are_found_by_movie() {
    assert_eq!(bookmark_position(&Vec::new(), MovieId(1)), None);
}

#[test]
fn a_given_bookmark_file_is_used_as_it_is() {
    assert_eq!(
        webworm::args::load_path(Some("x.ron".to_string()), Some("/home/u".to_string())),
        "x.ron"
    );
}

#[test]
fn the_default_bookmark_file_lies_under_home() {
    assert_eq!(
        webworm::args::load_path(None, Some("/home/u".to_string())),
        "/home/u/.local/share/webworm/bookmarks.ron"
    );
    assert_eq!(
        webworm::args::load_path(None, Some("/home/u/".to_string())),
        "/home/u/.local/share/webworm/bookmarks.ron"
    );
    assert_eq!(
        webworm::args::load_path(None, Some("home//u".to_string())),
        "/home/u/.local/share/webworm/bookmarks.ron"
    );
}

#[test]
fn without_home_the_bookmark_file_lies_under_the_current_directory() {
    assert_eq!(
        webworm::args::load_path(None, None),
        "/./.local/share/webworm/bookmarks.ron"
    );
}
