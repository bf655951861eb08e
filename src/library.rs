use vstd::prelude::*;

use crate::text::{chars_of, standardize_text, standardized};

verus! {

/// How many characters of a book its summary keeps.
pub const SUMMARY_LENGTH: usize = 200;

/// A book of the library; its text is stored apart, under its title.
#[derive(Debug, Clone)]
pub struct Book {
    pub title: String,
    pub summary: String,
    pub total_character_count: usize,
    pub progress: usize,
    pub last_read_time: u64,
}

pub struct BookModel {
    pub title: Seq<char>,
    pub summary: Seq<char>,
    pub total_character_count: nat,
    pub progress: nat,
    pub last_read_time: u64,
}

impl View for Book {
    type V = BookModel;

    open spec fn view(&self) -> BookModel {
        BookModel {
            title: self.title@,
            summary: self.summary@,
            total_character_count: self.total_character_count as nat,
            progress: self.progress as nat,
            last_read_time: self.last_read_time,
        }
    }
}

/// The first `SUMMARY_LENGTH` characters of a text.
pub open spec fn summary_of(text: Seq<char>) -> Seq<char> {
    if text.len() <= SUMMARY_LENGTH {
        text
    } else {
        text.take(SUMMARY_LENGTH as int)
    }
}

/// A new, unread book holding `text`, last read at `time` (seconds since
/// the epoch).
pub open spec fn new_book_model(title: Seq<char>, text: Seq<char>, time: u64) -> BookModel {
    BookModel {
        title,
        summary: summary_of(text),
        total_character_count: text.len(),
        progress: 0,
        last_read_time: time,
    }
}

impl Book {
    /// The record of a book whose standardized text is `standardized_text`,
    /// stored at `last_read_time`.
    pub fn from_text(title: String, standardized_text: &str, last_read_time: u64) -> (r: Book)
        ensures
            r@ == new_book_model(title@, standardized_text@, last_read_time),
    {
        let chars = chars_of(standardized_text);
        let mut summary = String::new();
        let mut i: usize = 0;
        while i < chars.len() && i < SUMMARY_LENGTH
            invariant
                i <= chars@.len(),
                i <= SUMMARY_LENGTH,
                summary@ == chars@.take(i as int),
            decreases chars@.len() - i,
        {
            summary.push(chars[i]);
            assert(chars@.take(i + 1) =~= chars@.take(i as int).push(chars@[i as int]));
            i = i + 1;
        }
        assert(summary@ =~= summary_of(chars@));
        Book {
            title,
            summary,
            total_character_count: chars.len(),
            progress: 0,
            last_read_time,
        }
    }
}

/// What the reader window shows: a book's title, its text and where the
/// reader stands in it.
#[derive(Debug, Clone)]
pub struct ReaderBookInfo {
    pub title: String,
    pub content: String,
    pub progress: usize,
}

impl ReaderBookInfo {
    /// The reader's view of `book`, whose stored text is `content`.
    pub fn new(book: &Book, content: String) -> (r: ReaderBookInfo)
        ensures
            r.title@ == book.title@,
            r.content@ == content@,
            r.progress == book.progress,
    {
        ReaderBookInfo { title: book.title.clone(), content, progress: book.progress }
    }
}

/// The outcome of an import: the books added, and the titles refused.
#[derive(Debug, Clone)]
pub struct NewBooksResult {
    pub successful: Vec<Book>,
    pub failed: Vec<String>,
}

/// The books of the library, the one being read first, and the progress in
/// it when the list was last stored.
#[derive(Debug, Clone)]
pub struct BooksAux {
    pub books: Vec<Book>,
    pub old_progress: usize,
}

pub open spec fn titles(books: Seq<Book>) -> Seq<Seq<char>> {
    books.map_values(|b: Book| b.title@)
}

/// `i` is where `title` first stands among `books`.
pub open spec fn is_first_index(books: Seq<Book>, title: Seq<char>, i: int) -> bool {
    &&& 0 <= i < books.len()
    &&& books[i].title@ == title
    &&& forall|j: int| 0 <= j < i ==> books[j].title@ != title
}

/// An imported book may be added: its title is not in the library, and its
/// text was stored.
pub open spec fn candidate(
    infos: Seq<ReaderBookInfo>,
    taken: Seq<Seq<char>>,
    times: Seq<Option<u64>>,
    i: int,
) -> bool {
    !taken.contains(infos[i].title@) && times[i] is Some
}

/// An imported book is added: it may be, and no earlier one of the same
/// title may be.
pub open spec fn accepted(
    infos: Seq<ReaderBookInfo>,
    taken: Seq<Seq<char>>,
    times: Seq<Option<u64>>,
    i: int,
) -> bool {
    &&& candidate(infos, taken, times, i)
    &&& forall|j: int|
        0 <= j < i && #[trigger] infos[j].title@ == infos[i].title@ ==> !candidate(
            infos,
            taken,
            times,
            j,
        )
}

/// The books added by an import, in order, and the titles refused, in order.
pub open spec fn import_result(
    infos: Seq<ReaderBookInfo>,
    taken: Seq<Seq<char>>,
    times: Seq<Option<u64>>,
) -> (Seq<BookModel>, Seq<Seq<char>>)
    decreases infos.len(),
{
    if infos.len() == 0 {
        (Seq::empty(), Seq::empty())
    } else {
        let i = infos.len() - 1;
        let (ok, failed) = import_result(infos.drop_last(), taken, times);
        if accepted(infos, taken, times, i) {
            (
                ok.push(
                    new_book_model(
                        infos[i].title@,
                        standardized(infos[i].content@),
                        times[i]->0,
                    ),
                ),
                failed,
            )
        } else {
            (ok, failed.push(infos[i].title@))
        }
    }
}

fn contains_title(books: &Vec<Book>, title: &String) -> (r: bool)
    ensures
        r == titles(books@).contains(title@),
{
    let mut i: usize = 0;
    while i < books.len()
        invariant
            i <= books@.len(),
            forall|j: int| 0 <= j < i ==> books@[j].title@ != title@,
        decreases books@.len() - i,
    {
        if books[i].title == *title {
            assert(titles(books@)[i as int] == title@);
            return true;
        }
        i = i + 1;
    }
    assert forall|j: int| 0 <= j < titles(books@).len() implies titles(books@)[j] != title@ by {
        assert(books@[j].title@ != title@);
    }
    false
}

impl BooksAux {
    /// The library holding `books`, with the progress of the first as the
    /// stored one (`usize::MAX` when there is none).
    pub fn new(books: Vec<Book>) -> (r: BooksAux)
        ensures
            r.books@ == books@,
            r.old_progress == if books@.len() > 0 {
                books@[0].progress
            } else {
                usize::MAX
            },
    {
        let old_progress = if books.len() > 0 {
            books[0].progress
        } else {
            usize::MAX
        };
        BooksAux { books, old_progress }
    }

    /// Whether the progress in the book being read changed since it was last
    /// stored; if so, it counts as stored from now on.
    pub fn take_unsaved_progress(&mut self) -> (r: bool)
        ensures
            final(self).books@ == old(self).books@,
            r == (old(self).books@.len() > 0 && old(self).books@[0].progress != old(
                self,
            ).old_progress),
            final(self).old_progress == if r {
                old(self).books@[0].progress
            } else {
                old(self).old_progress
            },
    {
        if self.books.len() > 0 && self.books[0].progress != self.old_progress {
            self.old_progress = self.books[0].progress;
            true
        } else {
            false
        }
    }

    /// Where the book titled `title` stands, the first one if several do.
    pub fn index_of(&self, title: &String) -> (r: Option<usize>)
        ensures
            match r {
                Some(i) => is_first_index(self.books@, title@, i as int),
                None => !titles(self.books@).contains(title@),
            },
    {
        let mut i: usize = 0;
        while i < self.books.len()
            invariant
                i <= self.books@.len(),
                forall|j: int| 0 <= j < i ==> self.books@[j].title@ != title@,
            decreases self.books@.len() - i,
        {
            if self.books[i].title == *title {
                return Some(i);
            }
            i = i + 1;
        }
        assert forall|j: int| 0 <= j < titles(self.books@).len() implies titles(self.books@)[j]
            != title@ by {
            assert(self.books@[j].title@ != title@);
        }
        None
    }

    /// Brings the book titled `title` to the front, the others keeping their
    /// order, and remembers its progress as the stored one. Returns where it
    /// stood, or none, changing nothing, when no book has that title.
    pub fn change_book(&mut self, title: &String) -> (r: Option<usize>)
        ensures
            match r {
                None => !titles(old(self).books@).contains(title@) && *final(self) == *old(self),
                Some(i) => {
                    &&& is_first_index(old(self).books@, title@, i as int)
                    &&& i == 0 ==> *final(self) == *old(self)
                    &&& i > 0 ==> final(self).books@ == seq![old(self).books@[i as int]] + old(
                        self,
                    ).books@.take(i as int) + old(self).books@.skip(i + 1)
                    &&& i > 0 ==> final(self).old_progress == old(self).books@[i as int].progress
                },
            },
    {
        let i = match self.index_of(title) {
            None => return None,
            Some(i) => i,
        };
        if i == 0 {
            return Some(0);
        }
        let ghost before = self.books@;
        let book = self.books.remove(i);
        self.old_progress = book.progress;
        self.books.insert(0, book);
        assert(self.books@ =~= seq![before[i as int]] + before.take(i as int) + before.skip(i + 1));
        Some(i)
    }

    /// Sets the progress of the book titled `title`; returns false, changing
    /// nothing, when no book has that title. The stored progress is kept.
    pub fn update_progress(&mut self, title: &String, progress: usize) -> (r: bool)
        ensures
            r == titles(old(self).books@).contains(title@),
            !r ==> *final(self) == *old(self),
            r ==> exists|i: int|
                is_first_index(old(self).books@, title@, i) && final(self).books@ == old(
                    self,
                ).books@.update(i, Book { progress, ..old(self).books@[i] }),
            final(self).old_progress == old(self).old_progress,
    {
        match self.index_of(title) {
            None => false,
            Some(i) => {
                let ghost before = self.books@;
                let mut book = self.books.remove(i);
                book.progress = progress;
                self.books.insert(i, book);
                assert(self.books@ =~= before.update(
                    i as int,
                    Book { progress, ..before[i as int] },
                ));
                assert(is_first_index(before, title@, i as int));
                assert(titles(before)[i as int] == title@);
                true
            },
        }
    }

    /// Gives the book titled `original_title` the title `new_title`; returns
    /// false, changing nothing, when no book has the first title.
    pub fn rename_book(&mut self, original_title: &String, new_title: String) -> (r: bool)
        ensures
            r == titles(old(self).books@).contains(original_title@),
            !r ==> *final(self) == *old(self),
            r ==> exists|i: int|
                is_first_index(old(self).books@, original_title@, i) && final(self).books@ == old(
                    self,
                ).books@.update(i, Book { title: new_title, ..old(self).books@[i] }),
            final(self).old_progress == old(self).old_progress,
    {
        match self.index_of(original_title) {
            None => false,
            Some(i) => {
                let ghost before = self.books@;
                let mut book = self.books.remove(i);
                book.title = new_title;
                self.books.insert(i, book);
                assert(self.books@ =~= before.update(
                    i as int,
                    Book { title: new_title, ..before[i as int] },
                ));
                assert(is_first_index(before, original_title@, i as int));
                assert(titles(before)[i as int] == original_title@);
                true
            },
        }
    }

    /// Removes the book titled `title`, unless it is the only book left.
    /// Returns where it stood, or none when nothing was removed.
    pub fn remove_book(&mut self, title: &String) -> (r: Option<usize>)
        ensures
            match r {
                None => (old(self).books@.len() <= 1 || !titles(old(self).books@).contains(
                    title@,
                )) && *final(self) == *old(self),
                Some(i) => {
                    &&& old(self).books@.len() > 1
                    &&& is_first_index(old(self).books@, title@, i as int)
                    &&& final(self).books@ == old(self).books@.remove(i as int)
                    &&& final(self).old_progress == old(self).old_progress
                },
            },
    {
        if self.books.len() <= 1 {
            return None;
        }
        match self.index_of(title) {
            None => None,
            Some(i) => {
                self.books.remove(i);
                Some(i)
            },
        }
    }

    /// Adds books right after the one being read (at the front of an empty
    /// library), in their order.
    pub fn add_books(&mut self, new_books: Vec<Book>)
        ensures
            ({
                let k = if old(self).books@.len() == 0 {
                    0
                } else {
                    1int
                };
                final(self).books@ == old(self).books@.take(k) + new_books@ + old(
                    self,
                ).books@.skip(k)
            }),
            final(self).old_progress == old(self).old_progress,
    {
        let ghost before = self.books@;
        let k: usize = if self.books.len() == 0 {
            0
        } else {
            1
        };
        let mut rest = self.books.split_off(k);
        let mut added = new_books;
        self.books.append(&mut added);
        self.books.append(&mut rest);
        assert(self.books@ =~= before.take(k as int) + new_books@ + before.skip(k as int));
    }
}

/// The standardized text of each book to import, none where the library
/// already holds its title: the texts to store before calling
/// `new_and_standardize_books`.
pub fn standardize_new_books(book_infos: &[ReaderBookInfo], library: &BooksAux) -> (r: Vec<
    Option<String>,
>)
    ensures
        r@.len() == book_infos@.len(),
        forall|i: int|
            0 <= i < r@.len() ==> match #[trigger] r@[i] {
                None => titles(library.books@).contains(book_infos@[i].title@),
                Some(text) => !titles(library.books@).contains(book_infos@[i].title@) && text@
                    == standardized(book_infos@[i].content@),
            },
{
    let mut r: Vec<Option<String>> = Vec::new();
    let mut i: usize = 0;
    while i < book_infos.len()
        invariant
            i <= book_infos@.len(),
            r@.len() == i,
            forall|k: int|
                0 <= k < i ==> match #[trigger] r@[k] {
                    None => titles(library.books@).contains(book_infos@[k].title@),
                    Some(text) => !titles(library.books@).contains(book_infos@[k].title@)
                        && text@ == standardized(book_infos@[k].content@),
                },
        decreases book_infos@.len() - i,
    {
        let info = &book_infos[i];
        if contains_title(&library.books, &info.title) {
            r.push(None);
        } else {
            r.push(Some(standardize_text(info.content.as_str())));
        }
        i = i + 1;
    }
    r
}

/// Imports books: a book whose title the library holds is refused; so is
/// one whose text could not be stored (`write_times[i]` is none; else it
/// is the time of storing, in seconds since the epoch), and one whose title
/// an earlier book of the same import was added under.
pub fn new_and_standardize_books(
    book_infos: &[ReaderBookInfo],
    library: &BooksAux,
    write_times: &[Option<u64>],
) -> (r: NewBooksResult)
    requires
        write_times@.len() == book_infos@.len(),
    ensures
        ({
            let (ok, failed) = import_result(
                book_infos@,
                titles(library.books@),
                write_times@,
            );
            &&& r.successful@.map_values(|b: Book| b@) == ok
            &&& r.failed@.map_values(|s: String| s@) == failed
        }),
{
    let ghost infos = book_infos@;
    let ghost taken = titles(library.books@);
    let ghost times = write_times@;
    let mut successful: Vec<Book> = Vec::new();
    let mut failed: Vec<String> = Vec::new();
    let mut i: usize = 0;
    while i < book_infos.len()
        invariant
            i <= infos.len(),
            infos == book_infos@,
            times == write_times@,
            taken == titles(library.books@),
            times.len() == infos.len(),
            ({
                let (ok, f) = import_result(infos.take(i as int), taken, times);
                &&& successful@.map_values(|b: Book| b@) == ok
                &&& failed@.map_values(|s: String| s@) == f
            }),
            forall|t: Seq<char>|
                titles(successful@).contains(t) <==> exists|j: int|
                    0 <= j < i && #[trigger] infos[j].title@ == t && candidate(
                        infos,
                        taken,
                        times,
                        j,
                    ),
        decreases infos.len() - i,
    {
        let info = &book_infos[i];
        let ghost pre = infos.take(i + 1);
        proof {
            assert(pre.drop_last() =~= infos.take(i as int));
            assert forall|j: int| 0 <= j <= i implies #[trigger] candidate(pre, taken, times, j)
                == candidate(infos, taken, times, j) by {
                assert(pre[j] == infos[j]);
            }
            assert(accepted(pre, taken, times, i as int) == accepted(
                infos,
                taken,
                times,
                i as int,
            )) by {
                assert forall|j: int| 0 <= j < i implies pre[j] == infos[j] by {}
            }
        }
        let ghost s0 = successful@;
        let ghost f0 = failed@;
        let in_library = contains_title(&library.books, &info.title);
        let already = contains_title(&successful, &info.title);
        proof {
            // an earlier candidate of the same title exists exactly when one
            // was added under it
            if already {
                let j = choose|j: int|
                    0 <= j < i && #[trigger] infos[j].title@ == infos[i as int].title@ && candidate(
                        infos,
                        taken,
                        times,
                        j,
                    );
                assert(!accepted(infos, taken, times, i as int));
            } else {
                assert forall|j: int|
                    0 <= j < i && #[trigger] infos[j].title@ == infos[i as int].title@ implies !candidate(
                    infos,
                    taken,
                    times,
                    j,
                ) by {
                    if candidate(infos, taken, times, j) {
                        assert(titles(successful@).contains(infos[i as int].title@));
                    }
                }
            }
        }
        let stored = if in_library {
            None
        } else {
            write_times[i]
        };
        match stored {
            Some(time) if !already => {
                let text = standardize_text(info.content.as_str());
                let book = Book::from_text(info.title.clone(), text.as_str(), time);
                successful.push(book);
                proof {
                    assert(accepted(infos, taken, times, i as int));
                    assert(successful@.map_values(|b: Book| b@) =~= s0.map_values(|b: Book| b@).push(
                        book@,
                    ));
                    assert forall|t: Seq<char>|
                        titles(successful@).contains(t) <==> exists|j: int|
                            0 <= j < i + 1 && #[trigger] infos[j].title@ == t && candidate(
                                infos,
                                taken,
                                times,
                                j,
                            ) by {
                        if titles(successful@).contains(t) {
                            let k = choose|k: int|
                                0 <= k < titles(successful@).len() && titles(successful@)[k] == t;
                            if k < s0.len() {
                                assert(titles(s0)[k] == t);
                                assert(titles(s0).contains(t));
                            } else {
                                assert(infos[i as int].title@ == t);
                            }
                        }
                        if exists|j: int|
                            0 <= j < i + 1 && #[trigger] infos[j].title@ == t && candidate(
                                infos,
                                taken,
                                times,
                                j,
                            ) {
                            let j = choose|j: int|
                                0 <= j < i + 1 && #[trigger] infos[j].title@ == t && candidate(
                                    infos,
                                    taken,
                                    times,
                                    j,
                                );
                            if j < i {
                                assert(titles(s0).contains(t));
                                let k = choose|k: int|
                                    0 <= k < titles(s0).len() && titles(s0)[k] == t;
                                assert(titles(successful@)[k] == t);
                            } else {
                                assert(titles(successful@)[s0.len() as int] == t);
                            }
                        }
                    }
                }
            },
            _ => {
                failed.push(info.title.clone());
                proof {
                    assert(!accepted(infos, taken, times, i as int));
                    assert(failed@.map_values(|s: String| s@) =~= f0.map_values(|s: String| s@).push(
                        infos[i as int].title@,
                    ));
                    assert(titles(successful@) == titles(s0));
                    assert forall|t: Seq<char>|
                        titles(successful@).contains(t) <==> exists|j: int|
                            0 <= j < i + 1 && #[trigger] infos[j].title@ == t && candidate(
                                infos,
                                taken,
                                times,
                                j,
                            ) by {
                        if exists|j: int|
                            0 <= j < i + 1 && #[trigger] infos[j].title@ == t && candidate(
                                infos,
                                taken,
                                times,
                                j,
                            ) {
                            let j = choose|j: int|
                                0 <= j < i + 1 && #[trigger] infos[j].title@ == t && candidate(
                                    infos,
                                    taken,
                                    times,
                                    j,
                                );
                            if j == i {
                                assert(already);
                            }
                        }
                    }
                }
            },
        }
        i = i + 1;
    }
    assert(infos.take(infos.len() as int) =~= infos);
    NewBooksResult { successful, failed }
}

} // verus!
