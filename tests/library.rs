use sneaky_reader::library::{
    new_and_standardize_books, standardize_new_books, Book, BooksAux, ReaderBookInfo,
    SUMMARY_LENGTH,
};

fn book(title: &str, progress: usize) -> Book {
    Book {
        title: String::from(title),
        summary: String::new(),
        total_character_count: 0,
        progress,
        last_read_time: 0,
    }
}

fn library(titles: &[&str]) -> BooksAux {
    BooksAux {
        books: titles.iter().enumerate().map(|(i, t)| book(t, i * 10)).collect(),
        old_progress: 0,
    }
}

fn titles(aux: &BooksAux) -> Vec<String> {
    aux.books.iter().map(|b| b.title.clone()).collect()
}

fn info(title: &str, content: &str) -> ReaderBookInfo {
    ReaderBookInfo { title: String::from(title), content: String::from(content), progress: 0 }
}

#[test]
fn book_from_text_counts_characters_and_keeps_summary() {
    let text: String = "é".repeat(250);
    let b = Book::from_text(String::from("T"), &text, 1_700_000_000);
    assert_eq!(b.title, "T");
    assert_eq!(b.total_character_count, 250);
    assert_eq!(b.summary.chars().count(), SUMMARY_LENGTH);
    assert_eq!(b.summary, "é".repeat(200));
    assert_eq!(b.progress, 0);
    assert_eq!(b.last_read_time, 1_700_000_000);

    let short = Book::from_text(String::from("S"), "abc\n", 5);
    assert_eq!(short.summary, "abc\n");
    assert_eq!(short.total_character_count, 4);
}

#[test]
fn reader_info_of_book() {
    let b = book("Lorem", 42);
    let r = ReaderBookInfo::new(&b, String::from("text"));
    assert_eq!(r.title, "Lorem");
    assert_eq!(r.content, "text");
    assert_eq!(r.progress, 42);
}

#[test]
fn import_refuses_taken_unstored_and_repeated_titles() {
    let aux = library(&["A", "B"]);
    let infos = vec![
        info("A", "x"),
        info("C", "  line one\nline two\n"),
        info("D", "d"),
        info("C", "again"),
        info("E", "e"),
    ];
    let texts = standardize_new_books(&infos, &aux);
    assert_eq!(texts.len(), 5);
    assert!(texts[0].is_none());
    assert_eq!(texts[1].as_deref(), Some("line one\nline two\n"));
    assert_eq!(texts[4].as_deref(), Some("e\n"));

    let times = vec![None, Some(100), None, Some(101), Some(102)];
    let r = new_and_standardize_books(&infos, &aux, &times);
    let ok: Vec<&str> = r.successful.iter().map(|b| b.title.as_str()).collect();
    assert_eq!(ok, vec!["C", "E"]);
    assert_eq!(r.failed, vec!["A", "D", "C"]);
    assert_eq!(r.successful[0].summary, "line one\nline two\n");
    assert_eq!(r.successful[0].total_character_count, 18);
    assert_eq!(r.successful[0].last_read_time, 100);
    assert_eq!(r.successful[1].last_read_time, 102);
}

#[test]
fn later_book_of_a_title_is_added_when_the_first_was_not_stored() {
    let aux = library(&["A"]);
    let infos = vec![info("C", "one"), info("C", "two")];
    let r = new_and_standardize_books(&infos, &aux, &[None, Some(7)]);
    assert_eq!(r.successful.len(), 1);
    assert_eq!(r.successful[0].summary, "two\n");
    assert_eq!(r.failed, vec!["C"]);
}

#[test]
fn change_book_moves_it_to_the_front() {
    let mut aux = library(&["A", "B", "C", "D"]);
    assert_eq!(aux.change_book(&String::from("C")), Some(2));
    assert_eq!(titles(&aux), vec!["C", "A", "B", "D"]);
    assert_eq!(aux.old_progress, 20);
    assert_eq!(aux.change_book(&String::from("C")), Some(0));
    assert_eq!(titles(&aux), vec!["C", "A", "B", "D"]);
    assert_eq!(aux.change_book(&String::from("Z")), None);
    assert_eq!(aux.index_of(&String::from("D")), Some(3));
}

#[test]
fn progress_and_rename() {
    let mut aux = library(&["A", "B"]);
    assert!(aux.update_progress(&String::from("B"), 77));
    assert_eq!(aux.books[1].progress, 77);
    assert_eq!(aux.old_progress, 0);
    assert!(!aux.update_progress(&String::from("Z"), 1));
    assert!(aux.rename_book(&String::from("A"), String::from("A2")));
    assert_eq!(titles(&aux), vec!["A2", "B"]);
    assert!(!aux.rename_book(&String::from("A"), String::from("A3")));
}

#[test]
fn remove_keeps_the_last_book() {
    let mut aux = library(&["A", "B", "C"]);
    assert_eq!(aux.remove_book(&String::from("B")), Some(1));
    assert_eq!(titles(&aux), vec!["A", "C"]);
    assert_eq!(aux.remove_book(&String::from("Z")), None);
    assert_eq!(aux.remove_book(&String::from("A")), Some(0));
    assert_eq!(aux.remove_book(&String::from("C")), None);
    assert_eq!(titles(&aux), vec!["C"]);
}

#[test]
fn added_books_follow_the_one_being_read() {
    let mut aux = library(&["A", "B"]);
    aux.add_books(vec![book("X", 0), book("Y", 0)]);
    assert_eq!(titles(&aux), vec!["A", "X", "Y", "B"]);
    let mut empty = library(&[]);
    empty.add_books(vec![book("X", 0)]);
    assert_eq!(titles(&empty), vec!["X"]);
}

#[test]
fn stored_progress_follows_the_first_book() {
    let aux = BooksAux::new(vec![book("A", 12), book("B", 3)]);
    assert_eq!(aux.old_progress, 12);
    assert_eq!(BooksAux::new(Vec::new()).old_progress, usize::MAX);

    let mut aux = aux;
    assert!(!aux.take_unsaved_progress());
    assert!(aux.update_progress(&String::from("A"), 40));
    assert!(aux.take_unsaved_progress());
    assert_eq!(aux.old_progress, 40);
    assert!(!aux.take_unsaved_progress());
    assert!(!BooksAux::new(Vec::new()).take_unsaved_progress());
}
