use vstd::prelude::*;

verus! {

/// The Unicode White_Space property (PropList.txt), by which
/// `char::is_whitespace`, `str::trim` and `str::split_whitespace` go.
pub open spec fn white_space(c: char) -> bool {
    let u = c as u32;
    ||| 0x9 <= u <= 0xd
    ||| u == 0x20
    ||| u == 0x85
    ||| u == 0xa0
    ||| u == 0x1680
    ||| 0x2000 <= u <= 0x200a
    ||| u == 0x2028
    ||| u == 0x2029
    ||| u == 0x202f
    ||| u == 0x205f
    ||| u == 0x3000
}

pub fn is_white_space(c: char) -> (r: bool)
    ensures
        r == white_space(c),
{
    let u = c as u32;
    (0x9 <= u && u <= 0xd) || u == 0x20 || u == 0x85 || u == 0xa0 || u == 0x1680 || (0x2000 <= u
        && u <= 0x200a) || u == 0x2028 || u == 0x2029 || u == 0x202f || u == 0x205f || u == 0x3000
}

/// The pieces of `s` between line feeds; a text without one is one piece.
pub open spec fn split_lines(s: Seq<char>) -> Seq<Seq<char>>
    decreases s.len(),
{
    if s.len() == 0 {
        seq![Seq::empty()]
    } else {
        let rest = split_lines(s.drop_first());
        if s[0] == '\n' {
            seq![Seq::empty()] + rest
        } else {
            rest.update(0, seq![s[0]] + rest[0])
        }
    }
}

pub open spec fn trim_start(l: Seq<char>) -> Seq<char>
    decreases l.len(),
{
    if l.len() > 0 && white_space(l[0]) {
        trim_start(l.drop_first())
    } else {
        l
    }
}

pub open spec fn trim_end(l: Seq<char>) -> Seq<char>
    decreases l.len(),
{
    if l.len() > 0 && white_space(l.last()) {
        trim_end(l.drop_last())
    } else {
        l
    }
}

/// A line without its leading and trailing white space.
pub open spec fn trim(l: Seq<char>) -> Seq<char> {
    trim_end(trim_start(l))
}

/// The lines of a text, each trimmed. Splitting at `\n` and trimming gives
/// the trimmed lines of `str::lines`: a `\r` before the `\n` is white space,
/// and the empty last piece after a final `\n` is an empty line.
pub open spec fn text_lines(s: Seq<char>) -> Seq<Seq<char>> {
    split_lines(s).map_values(|l: Seq<char>| trim(l))
}

proof fn lemma_split_lines_nonempty(s: Seq<char>)
    ensures
        split_lines(s).len() >= 1,
    decreases s.len(),
{
    if s.len() > 0 {
        lemma_split_lines_nonempty(s.drop_first());
    }
}

/// A prefix without line feed joins the first piece of what follows it.
proof fn lemma_split_lines_prefix(s: Seq<char>, j: int)
    requires
        0 <= j <= s.len(),
        forall|i: int| 0 <= i < j ==> s[i] != '\n',
    ensures
        split_lines(s) == split_lines(s.skip(j)).update(0, s.take(j) + split_lines(s.skip(j))[0]),
    decreases j,
{
    lemma_split_lines_nonempty(s.skip(j));
    if j == 0 {
        assert(s.skip(0) =~= s);
        assert(s.take(0) + split_lines(s)[0] =~= split_lines(s)[0]);
        assert(split_lines(s).update(0, split_lines(s)[0]) =~= split_lines(s));
    } else {
        let t = s.drop_first();
        assert forall|i: int| 0 <= i < j - 1 implies t[i] != '\n' by {
            assert(t[i] == s[i + 1]);
        }
        lemma_split_lines_prefix(t, j - 1);
        assert(t.skip(j - 1) =~= s.skip(j));
        assert(seq![s[0]] + t.take(j - 1) =~= s.take(j));
        let r = split_lines(s.skip(j));
        lemma_split_lines_nonempty(t);
        let st = split_lines(t);
        assert(s[0] != '\n');
        assert(split_lines(s) == st.update(0, seq![s[0]] + st[0]));
        assert(st[0] == t.take(j - 1) + r[0]);
        assert(seq![s[0]] + st[0] =~= s.take(j) + r[0]);
        assert(split_lines(s) =~= r.update(0, s.take(j) + r[0]));
    }
}

/// Splitting at the first line feed.
proof fn lemma_split_lines_at(s: Seq<char>, j: int)
    requires
        0 <= j <= s.len(),
        forall|i: int| 0 <= i < j ==> s[i] != '\n',
        j == s.len() || s[j] == '\n',
    ensures
        j == s.len() ==> split_lines(s) == seq![s],
        j < s.len() ==> split_lines(s) == seq![s.take(j)] + split_lines(s.skip(j + 1)),
{
    lemma_split_lines_prefix(s, j);
    if j == s.len() {
        assert(s.skip(j).len() == 0);
        assert(s.take(j) =~= s);
        assert(s.take(j) + Seq::<char>::empty() =~= s);
        assert(split_lines(s) =~= seq![s]);
    } else {
        let u = s.skip(j);
        assert(u[0] == '\n');
        assert(u.drop_first() =~= s.skip(j + 1));
        assert(s.take(j) + Seq::<char>::empty() =~= s.take(j));
        assert(split_lines(s) =~= seq![s.take(j)] + split_lines(s.skip(j + 1)));
    }
}

proof fn lemma_text_lines_at(s: Seq<char>, j: int)
    requires
        0 <= j <= s.len(),
        forall|i: int| 0 <= i < j ==> s[i] != '\n',
        j == s.len() || s[j] == '\n',
    ensures
        j == s.len() ==> text_lines(s) == seq![trim(s)],
        j < s.len() ==> text_lines(s) == seq![trim(s.take(j))] + text_lines(s.skip(j + 1)),
{
    lemma_split_lines_at(s, j);
    if j == s.len() {
        assert(text_lines(s) =~= seq![trim(s)]);
    } else {
        assert(text_lines(s) =~= seq![trim(s.take(j))] + text_lines(s.skip(j + 1)));
    }
}

/// Ranges `[start, end)` that end no later than `n`, each ending no later
/// than the next one starts.
pub open spec fn ranges_within(r: Seq<(usize, usize)>, n: int) -> bool {
    &&& forall|k: int| 0 <= k < r.len() ==> #[trigger] r[k].0 <= r[k].1 <= n
    &&& forall|k: int| 0 <= k < r.len() - 1 ==> #[trigger] r[k].1 <= r[k + 1].0
}

pub open spec fn slices(s: Seq<char>, r: Seq<(usize, usize)>) -> Seq<Seq<char>> {
    r.map_values(|p: (usize, usize)| s.subrange(p.0 as int, p.1 as int))
}

/// Where each trimmed line of `chars` stands in it.
pub fn line_ranges(chars: &Vec<char>) -> (r: Vec<(usize, usize)>)
    ensures
        ranges_within(r@, chars@.len() as int),
        slices(chars@, r@) == text_lines(chars@),
{
    let ghost s = chars@;
    let n = chars.len();
    let mut ranges: Vec<(usize, usize)> = Vec::new();
    let mut start: usize = 0;
    assert(s.skip(0) =~= s);
    assert(slices(s, ranges@) + text_lines(s.skip(0)) =~= text_lines(s));
    loop
        invariant_except_break
            start <= n,
            n == s.len(),
            chars@ == s,
            ranges_within(ranges@, start as int),
            slices(s, ranges@) + text_lines(s.skip(start as int)) == text_lines(s),
        ensures
            ranges_within(ranges@, n as int),
            slices(s, ranges@) == text_lines(s),
        decreases n - start,
    {
        let mut j = start;
        while j < n && chars[j] != '\n'
            invariant
                start <= j <= n,
                n == s.len(),
                chars@ == s,
                forall|i: int| start <= i < j ==> s[i] != '\n',
            decreases n - j,
        {
            j = j + 1;
        }
        let mut a = start;
        while a < j && is_white_space(chars[a])
            invariant
                start <= a <= j <= n,
                n == s.len(),
                chars@ == s,
                trim_start(s.subrange(start as int, j as int)) == trim_start(
                    s.subrange(a as int, j as int),
                ),
            decreases j - a,
        {
            assert(s.subrange(a as int, j as int).drop_first() =~= s.subrange(a + 1, j as int));
            a = a + 1;
        }
        assert(trim_start(s.subrange(a as int, j as int)) == s.subrange(a as int, j as int));
        let mut b = j;
        while b > a && is_white_space(chars[b - 1])
            invariant
                start <= a <= b <= j <= n,
                n == s.len(),
                chars@ == s,
                trim_end(s.subrange(a as int, j as int)) == trim_end(
                    s.subrange(a as int, b as int),
                ),
            decreases b - a,
        {
            assert(s.subrange(a as int, b as int).drop_last() =~= s.subrange(a as int, b - 1));
            b = b - 1;
        }
        assert(trim_end(s.subrange(a as int, b as int)) == s.subrange(a as int, b as int));
        proof {
            let t = s.skip(start as int);
            let jj = j - start;
            assert forall|i: int| 0 <= i < jj implies t[i] != '\n' by {
                assert(t[i] == s[start + i]);
            }
            lemma_text_lines_at(t, jj);
            assert(t.take(jj) =~= s.subrange(start as int, j as int));
            if j < n {
                assert(t.skip(jj + 1) =~= s.skip(j + 1));
            }
            if j == n {
                assert(t =~= s.subrange(start as int, j as int));
            }
        }
        let ghost old_ranges = ranges@;
        ranges.push((a, b));
        assert(slices(s, ranges@) =~= slices(s, old_ranges).push(s.subrange(a as int, b as int)));
        assert forall|k: int| 0 <= k < ranges@.len() - 1 implies #[trigger] ranges@[k].1 <= ranges@[k
            + 1].0 by {
            if k < old_ranges.len() - 1 {
                assert(old_ranges[k].1 <= old_ranges[k + 1].0);
            } else {
                assert(old_ranges[k].0 <= old_ranges[k].1 <= start);
            }
        }
        assert(ranges_within(ranges@, j as int));
        if j == n {
            assert(slices(s, ranges@) =~= text_lines(s));
            break;
        }
        start = j + 1;
        assert(slices(s, ranges@) + text_lines(s.skip(start as int)) =~= text_lines(s));
    }
    ranges
}

/// Appends one character.
pub assume_specification[ String::push ](s: &mut String, ch: char)
    ensures
        final(s)@ == old(s)@.push(ch),
;

/// The number of words of a line: maximal runs of characters that are not
/// white space, as `str::split_whitespace` yields them.
pub open spec fn word_count(l: Seq<char>) -> nat
    decreases l.len(),
{
    if l.len() == 0 {
        0
    } else {
        word_count(l.drop_last()) + if !white_space(l.last()) && (l.len() == 1 || white_space(
            l[l.len() - 2],
        )) {
            1nat
        } else {
            0nat
        }
    }
}

proof fn lemma_word_count_le(l: Seq<char>)
    ensures
        word_count(l) <= l.len(),
    decreases l.len(),
{
    if l.len() > 0 {
        lemma_word_count_le(l.drop_last());
    }
}

/// Counts over the non-empty lines that follow the first non-empty one:
/// how many there are, how many come right after an empty line, and their
/// words and characters. `seen` tells whether a non-empty line was met.
pub struct LineStats {
    pub seen: bool,
    pub valid: nat,
    pub after_empty: nat,
    pub words: nat,
    pub chars: nat,
}

pub open spec fn line_stats(lines: Seq<Seq<char>>) -> LineStats
    decreases lines.len(),
{
    if lines.len() == 0 {
        LineStats { seen: false, valid: 0, after_empty: 0, words: 0, chars: 0 }
    } else {
        let s = line_stats(lines.drop_last());
        let l = lines.last();
        if l.len() == 0 {
            s
        } else if !s.seen {
            LineStats { seen: true, ..s }
        } else {
            LineStats {
                seen: true,
                valid: s.valid + 1,
                after_empty: s.after_empty + if lines[lines.len() - 2].len() == 0 {
                    1nat
                } else {
                    0nat
                },
                words: s.words + word_count(l),
                chars: s.chars + l.len(),
            }
        }
    }
}

/// Paragraphs span several lines and are set apart by empty lines: more
/// than 5% and less than 95% of the counted lines follow an empty one.
pub open spec fn is_multi_line_paragraphs(st: LineStats) -> bool {
    20 * st.after_empty > st.valid && 20 * st.after_empty < 19 * st.valid
}

/// The language puts spaces between words: more than four words a line,
/// and fewer than twelve characters a word.
pub open spec fn uses_spaces(st: LineStats) -> bool {
    st.words > 4 * st.valid && st.chars < 12 * st.words
}

/// Lines joined into paragraphs: the lines of one paragraph are joined,
/// with a space where `spaced`, and each paragraph ends at the first empty
/// line after it with a line feed. The flag tells whether the last
/// paragraph is still open.
pub open spec fn join_paragraphs(lines: Seq<Seq<char>>, spaced: bool) -> (Seq<char>, bool)
    decreases lines.len(),
{
    if lines.len() == 0 {
        (Seq::empty(), false)
    } else {
        let (o, open) = join_paragraphs(lines.drop_last(), spaced);
        let l = lines.last();
        if l.len() > 0 {
            (o + (if open && spaced {
                seq![' ']
            } else {
                Seq::empty()
            }) + l, true)
        } else if open {
            (o.push('\n'), false)
        } else {
            (o, false)
        }
    }
}

/// The non-empty lines, each ended by a line feed.
pub open spec fn keep_lines(lines: Seq<Seq<char>>) -> Seq<char>
    decreases lines.len(),
{
    if lines.len() == 0 {
        Seq::empty()
    } else {
        keep_lines(lines.drop_last()) + if lines.last().len() > 0 {
            lines.last().push('\n')
        } else {
            Seq::empty()
        }
    }
}

/// A text in the library's form: one paragraph a line, trimmed, without
/// empty lines. Texts with multi-line paragraphs have them joined; others
/// keep their non-empty lines.
pub open spec fn standardized(text: Seq<char>) -> Seq<char> {
    let lines = text_lines(text);
    let st = line_stats(lines);
    if is_multi_line_paragraphs(st) {
        let (o, open) = join_paragraphs(lines, uses_spaces(st));
        if open {
            o.push('\n')
        } else {
            o
        }
    } else {
        keep_lines(lines)
    }
}

fn push_range(out: &mut String, chars: &Vec<char>, a: usize, b: usize)
    requires
        a <= b <= chars@.len(),
    ensures
        final(out)@ == old(out)@ + chars@.subrange(a as int, b as int),
{
    let mut i = a;
    while i < b
        invariant
            a <= i <= b <= chars@.len(),
            out@ == old(out)@ + chars@.subrange(a as int, i as int),
        decreases b - i,
    {
        out.push(chars[i]);
        assert(chars@.subrange(a as int, i + 1) =~= chars@.subrange(a as int, i as int).push(
            chars@[i as int],
        ));
        i = i + 1;
    }
}

fn count_words(chars: &Vec<char>, a: usize, b: usize) -> (r: usize)
    requires
        a <= b <= chars@.len(),
    ensures
        r == word_count(chars@.subrange(a as int, b as int)),
{
    let mut i = a;
    let mut n: usize = 0;
    while i < b
        invariant
            a <= i <= b <= chars@.len(),
            n == word_count(chars@.subrange(a as int, i as int)),
        decreases b - i,
    {
        proof {
            let l = chars@.subrange(a as int, i + 1);
            assert(l.drop_last() =~= chars@.subrange(a as int, i as int));
            lemma_word_count_le(chars@.subrange(a as int, i as int));
        }
        if !is_white_space(chars[i]) && (i == a || is_white_space(chars[i - 1])) {
            n = n + 1;
        }
        i = i + 1;
    }
    n
}

/// Brings an imported text into the library's form (see `standardized`).
pub fn standardize_text(text: &str) -> (r: String)
    ensures
        r@ == standardized(text@),
{
    let chars = chars_of(text);
    let ranges = line_ranges(&chars);
    let ghost lines = slices(chars@, ranges@);
    let ghost n = chars@.len();
    let mut seen = false;
    let mut valid: usize = 0;
    let mut after_empty: usize = 0;
    let mut words: usize = 0;
    let mut nchars: usize = 0;
    for k in 0..ranges.len()
        invariant
            lines == slices(chars@, ranges@),
            ranges_within(ranges@, n as int),
            n == chars@.len(),
            ({
                let st = line_stats(lines.take(k as int));
                &&& st.seen == seen
                &&& st.valid == valid
                &&& st.after_empty == after_empty
                &&& st.words == words
                &&& st.chars == nchars
            }),
            after_empty <= valid <= nchars,
            words <= nchars,
            nchars <= if k == 0 {
                0
            } else {
                ranges@[k - 1].1 as int
            },
    {
        let (a, b) = ranges[k];
        proof {
            assert(lines.take(k + 1).drop_last() =~= lines.take(k as int));
            assert(lines.take(k + 1).last() == chars@.subrange(a as int, b as int));
            assert(ranges@[k as int].0 <= ranges@[k as int].1 <= n);
            if k > 0 {
                assert(ranges@[k - 1].1 <= ranges@[(k - 1) + 1].0);
                assert(lines.take(k + 1)[k - 1] == chars@.subrange(
                    ranges@[k - 1].0 as int,
                    ranges@[k - 1].1 as int,
                ));
                assert(ranges@[k - 1].0 <= ranges@[k - 1].1);
            }
            lemma_word_count_le(chars@.subrange(a as int, b as int));
        }
        if b > a {
            if !seen {
                seen = true;
            } else {
                let (pa, pb) = ranges[k - 1];
                valid = valid + 1;
                if pb == pa {
                    after_empty = after_empty + 1;
                }
                words = words + count_words(&chars, a, b);
                nchars = nchars + (b - a);
            }
        }
    }
    assert(lines.take(ranges@.len() as int) =~= lines);
    let multi = (after_empty as u128) * 20 > valid as u128 && (after_empty as u128) * 20 < (
    valid as u128) * 19;
    let spaced = words as u128 > (valid as u128) * 4 && (nchars as u128) < (words as u128) * 12;
    let mut out = String::new();
    if multi {
        let mut open = false;
        for k in 0..ranges.len()
            invariant
                lines == slices(chars@, ranges@),
                ranges_within(ranges@, n as int),
                n == chars@.len(),
                (out@, open) == join_paragraphs(lines.take(k as int), spaced),
        {
            let (a, b) = ranges[k];
            proof {
                assert(lines.take(k + 1).drop_last() =~= lines.take(k as int));
                assert(lines.take(k + 1).last() == chars@.subrange(a as int, b as int));
                assert(ranges@[k as int].0 <= ranges@[k as int].1 <= n);
            }
            if b > a {
                if open && spaced {
                    out.push(' ');
                }
                push_range(&mut out, &chars, a, b);
                open = true;
                assert(out@ =~= join_paragraphs(lines.take(k + 1), spaced).0);
            } else if open {
                out.push('\n');
                open = false;
            }
        }
        if open {
            out.push('\n');
        }
    } else {
        for k in 0..ranges.len()
            invariant
                lines == slices(chars@, ranges@),
                ranges_within(ranges@, n as int),
                n == chars@.len(),
                out@ == keep_lines(lines.take(k as int)),
        {
            let (a, b) = ranges[k];
            proof {
                assert(lines.take(k + 1).drop_last() =~= lines.take(k as int));
                assert(lines.take(k + 1).last() == chars@.subrange(a as int, b as int));
                assert(ranges@[k as int].0 <= ranges@[k as int].1 <= n);
            }
            if b > a {
                push_range(&mut out, &chars, a, b);
                out.push('\n');
                assert(out@ =~= keep_lines(lines.take(k + 1)));
            } else {
                assert(out@ =~= keep_lines(lines.take(k + 1)));
            }
        }
    }
    out
}

/// The characters of `text`, in order.
pub fn chars_of(text: &str) -> (r: Vec<char>)
    ensures
        r@ == text@,
{
    let mut r: Vec<char> = Vec::new();
    for c in it: text.chars()
        invariant
            r@ == it.seq().take(it.index() as int),
    {
        r.push(c);
        assert(r@ =~= it.seq().take(it.index() + 1));
    }
    r
}

} // verus!
