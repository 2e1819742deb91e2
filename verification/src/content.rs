//! The text of a document as the content source reads it: an optional
//! header between two fences of three dashes, then the body.

use vstd::prelude::*;
use vstd::string::StringExecFns;
use crate::page::{optional_text, Page};
use crate::text::{chars_of, same_chars, string_of};

verus! {

/// Whether a character is white space to `char::is_whitespace`: whether it
/// has the Unicode property `White_Space`.
pub uninterp spec fn unicode_whitespace(c: char) -> bool;

/// Calls `char::is_whitespace`. The contract only names the result.
#[verifier::external_body]
fn is_whitespace(c: char) -> (white: bool)
    ensures
        white == unicode_whitespace(c),
{
    c.is_whitespace()
}

/// Number of characters before the first line feed, or the length of the
/// text where it holds none.
pub open spec fn line_end(text: Seq<char>) -> nat
    decreases text.len(),
{
    if text.len() == 0 || text[0] == '\n' {
        0
    } else {
        1 + line_end(text.drop_first())
    }
}

/// A line without the carriage return that ends it, if one does.
pub open spec fn without_cr(line: Seq<char>) -> Seq<char> {
    if line.len() > 0 && line.last() == '\r' {
        line.drop_last()
    } else {
        line
    }
}

/// The lines of a text. A line ends at a line feed or at a carriage return
/// followed by one; the end of the last line may be missing, and an empty
/// text has no line.
pub open spec fn lines_of(text: Seq<char>) -> Seq<Seq<char>>
    decreases text.len(),
{
    if text.len() == 0 {
        Seq::empty()
    } else if line_end(text) >= text.len() {
        seq![text]
    } else {
        seq![without_cr(text.take(line_end(text) as int))] + lines_of(
            text.skip(line_end(text) as int + 1),
        )
    }
}

/// The lines put together again, each followed by a line feed.
pub open spec fn joined(lines: Seq<Seq<char>>) -> Seq<char>
    decreases lines.len(),
{
    if lines.len() == 0 {
        Seq::empty()
    } else {
        joined(lines.drop_last()) + lines.last().push('\n')
    }
}

/// A text without the white space at its start.
pub open spec fn trimmed_start(text: Seq<char>) -> Seq<char>
    decreases text.len(),
{
    if text.len() > 0 && unicode_whitespace(text[0]) {
        trimmed_start(text.drop_first())
    } else {
        text
    }
}

/// A text without the white space at its end.
pub open spec fn trimmed_end(text: Seq<char>) -> Seq<char>
    decreases text.len(),
{
    if text.len() > 0 && unicode_whitespace(text.last()) {
        trimmed_end(text.drop_last())
    } else {
        text
    }
}

/// A text without the white space at its start and at its end.
pub open spec fn trimmed(text: Seq<char>) -> Seq<char> {
    trimmed_end(trimmed_start(text))
}

/// The line that opens and closes a header.
pub open spec fn fence() -> Seq<char> {
    "---"@
}

/// Number of lines before the first fence, or the number of lines where
/// none is a fence.
pub open spec fn fence_at(lines: Seq<Seq<char>>) -> nat
    decreases lines.len(),
{
    if lines.len() == 0 || lines[0] == fence() {
        0
    } else {
        1 + fence_at(lines.drop_first())
    }
}

/// The lines after the line at `position`; none where there is no such
/// line.
pub open spec fn lines_after(lines: Seq<Seq<char>>, position: nat) -> Seq<Seq<char>> {
    if position < lines.len() {
        lines.skip(position as int + 1)
    } else {
        Seq::empty()
    }
}

/// The header and the body of a document.
///
/// A document whose first line is not a fence has no header and is all
/// body, untouched. Otherwise the header is the lines up to the next fence,
/// or all further lines where no fence follows, and the body is the lines
/// after that fence, without white space at either end.
pub open spec fn split_of(content: Seq<char>) -> (Option<Seq<char>>, Seq<char>) {
    let lines = lines_of(content);
    if lines.len() == 0 || lines[0] != fence() {
        (None, content)
    } else {
        let rest = lines.skip(1);
        let close = fence_at(rest);
        (
            Some(joined(rest.take(close as int))),
            trimmed(joined(lines_after(rest, close))),
        )
    }
}

/// The views of a list of lines.
pub open spec fn lines_view(lines: Seq<Vec<char>>) -> Seq<Seq<char>> {
    lines.map_values(|line: Vec<char>| line@)
}

/// The first line ends where the first line feed stands.
pub proof fn lemma_line_end_is_first_line_feed(text: Seq<char>, position: int)
    requires
        0 <= position <= text.len(),
        forall|j: int| 0 <= j < position ==> text[j] != '\n',
        position == text.len() || text[position] == '\n',
    ensures
        line_end(text) == position,
    decreases position,
{
    if position > 0 {
        assert(text[0] != '\n');
        let rest = text.drop_first();
        assert forall|j: int| 0 <= j < position - 1 implies rest[j] != '\n' by {
            assert(rest[j] == text[j + 1]);
        }
        lemma_line_end_is_first_line_feed(rest, position - 1);
    }
}

/// The header ends where the first fence stands.
pub proof fn lemma_fence_at_is_first_fence(lines: Seq<Seq<char>>, position: int)
    requires
        0 <= position <= lines.len(),
        forall|j: int| 0 <= j < position ==> lines[j] != fence(),
        position == lines.len() || lines[position] == fence(),
    ensures
        fence_at(lines) == position,
    decreases position,
{
    if position > 0 {
        assert(lines[0] != fence());
        let rest = lines.drop_first();
        assert forall|j: int| 0 <= j < position - 1 implies rest[j] != fence() by {
            assert(rest[j] == lines[j + 1]);
        }
        lemma_fence_at_is_first_fence(rest, position - 1);
    }
}

/// Copies the characters from `from` up to `to`.
pub fn copy_range(text: &Vec<char>, from: usize, to: usize) -> (part: Vec<char>)
    requires
        from <= to <= text.len(),
    ensures
        part@ == text@.subrange(from as int, to as int),
{
    let mut part: Vec<char> = Vec::new();
    let mut i: usize = from;
    while i < to
        invariant
            from <= i <= to,
            to <= text.len(),
            part@ == text@.subrange(from as int, i as int),
        decreases to - i,
    {
        part.push(text[i]);
        assert(part@ == text@.subrange(from as int, i + 1));
        i += 1;
    }
    part
}

/// Splits a text into its lines.
pub fn split_lines(text: &Vec<char>) -> (lines: Vec<Vec<char>>)
    ensures
        lines_view(lines@) == lines_of(text@),
{
    let mut lines: Vec<Vec<char>> = Vec::new();
    let mut start: usize = 0;
    let mut i: usize = 0;
    proof {
        assert(text@.skip(0) == text@);
        assert(lines_view(lines@) + lines_of(text@) == lines_of(text@));
    }
    while i < text.len()
        invariant
            start <= i <= text.len(),
            forall|j: int| start <= j < i ==> text@[j] != '\n',
            lines_of(text@) == lines_view(lines@) + lines_of(text@.skip(start as int)),
        decreases text.len() - i,
    {
        if text[i] == '\n' {
            let end = if i > start && text[i - 1] == '\r' {
                i - 1
            } else {
                i
            };
            let line = copy_range(text, start, end);
            proof {
                let rest = text@.skip(start as int);
                assert forall|j: int| 0 <= j < i - start implies rest[j] != '\n' by {
                    assert(rest[j] == text@[start + j]);
                }
                assert(rest[i - start] == '\n');
                lemma_line_end_is_first_line_feed(rest, i - start);
                assert(rest.take(i - start) == text@.subrange(start as int, i as int));
                assert(without_cr(rest.take(i - start)) == line@) by {
                    if i > start && text@[i - 1] == '\r' {
                        assert(text@.subrange(start as int, i as int).drop_last() == text@.subrange(
                            start as int,
                            i - 1,
                        ));
                    }
                }
                assert(rest.skip(i - start + 1) == text@.skip(i + 1));
                assert(lines_view(lines@.push(line)) == lines_view(lines@).push(line@));
                assert(lines_view(lines@).push(line@) + lines_of(text@.skip(i + 1))
                    == lines_view(lines@) + (seq![line@] + lines_of(text@.skip(i + 1))));
            }
            lines.push(line);
            start = i + 1;
        }
        i += 1;
    }
    if start < text.len() {
        let line = copy_range(text, start, text.len());
        proof {
            let rest = text@.skip(start as int);
            assert forall|j: int| 0 <= j < rest.len() implies rest[j] != '\n' by {
                assert(rest[j] == text@[start + j]);
            }
            lemma_line_end_is_first_line_feed(rest, rest.len() as int);
            assert(line@ == rest);
            assert(lines_view(lines@.push(line)) == lines_view(lines@).push(line@));
            assert(lines_view(lines@).push(line@) == lines_view(lines@) + seq![rest]);
        }
        lines.push(line);
    } else {
        proof {
            assert(text@.skip(start as int).len() == 0);
            assert(lines_view(lines@) + Seq::<Seq<char>>::empty() == lines_view(lines@));
        }
    }
    lines
}

/// Puts lines `from` up to `to` together, each followed by a line feed.
pub fn join_lines(lines: &Vec<Vec<char>>, from: usize, to: usize) -> (text: Vec<char>)
    requires
        from <= to <= lines.len(),
    ensures
        text@ == joined(lines_view(lines@).subrange(from as int, to as int)),
{
    let ghost views = lines_view(lines@);
    let mut text: Vec<char> = Vec::new();
    let mut i: usize = from;
    proof {
        assert(views.subrange(from as int, from as int) == Seq::<Seq<char>>::empty());
    }
    while i < to
        invariant
            from <= i <= to,
            to <= lines.len(),
            views == lines_view(lines@),
            text@ == joined(views.subrange(from as int, i as int)),
        decreases to - i,
    {
        let ghost before = text@;
        let line = &lines[i];
        let mut k: usize = 0;
        while k < line.len()
            invariant
                k <= line.len(),
                text@ == before + line@.take(k as int),
            decreases line.len() - k,
        {
            text.push(line[k]);
            assert(line@.take(k + 1) == line@.take(k as int).push(line@[k as int]));
            k += 1;
        }
        text.push('\n');
        proof {
            assert(line@.take(line.len() as int) == line@);
            assert(text@ == before + line@.push('\n'));
            assert(views.subrange(from as int, i + 1).drop_last() == views.subrange(
                from as int,
                i as int,
            ));
            assert(views.subrange(from as int, i + 1).last() == line@);
        }
        i += 1;
    }
    text
}

/// With `position` white characters at its start and none after them, a
/// text starts at `position` once trimmed.
pub proof fn lemma_trimmed_start(text: Seq<char>, position: int)
    requires
        0 <= position <= text.len(),
        forall|j: int| 0 <= j < position ==> unicode_whitespace(text[j]),
        position == text.len() || !unicode_whitespace(text[position]),
    ensures
        trimmed_start(text) == text.skip(position),
    decreases position,
{
    if position > 0 {
        let rest = text.drop_first();
        assert forall|j: int| 0 <= j < position - 1 implies unicode_whitespace(rest[j]) by {
            assert(rest[j] == text[j + 1]);
        }
        lemma_trimmed_start(rest, position - 1);
        assert(rest.skip(position - 1) == text.skip(position));
    } else {
        assert(text.skip(0) == text);
    }
}

/// With only white characters from `position` on and none just before, a
/// text ends at `position` once trimmed.
pub proof fn lemma_trimmed_end(text: Seq<char>, position: int)
    requires
        0 <= position <= text.len(),
        forall|j: int| position <= j < text.len() ==> unicode_whitespace(text[j]),
        position == 0 || !unicode_whitespace(text[position - 1]),
    ensures
        trimmed_end(text) == text.take(position),
    decreases text.len() - position,
{
    if position < text.len() {
        let rest = text.drop_last();
        lemma_trimmed_end(rest, position);
        assert(rest.take(position) == text.take(position));
    } else {
        assert(text.take(position) == text);
    }
}

/// Drops the white space at the start and at the end of a text.
pub fn trim(text: &Vec<char>) -> (kept: Vec<char>)
    ensures
        kept@ == trimmed(text@),
{
    let mut from: usize = 0;
    while from < text.len() && is_whitespace(text[from])
        invariant
            from <= text.len(),
            forall|j: int| 0 <= j < from ==> unicode_whitespace(text@[j]),
        decreases text.len() - from,
    {
        from += 1;
    }
    let mut to: usize = text.len();
    while to > from && is_whitespace(text[to - 1])
        invariant
            from <= to <= text.len(),
            forall|j: int| to <= j < text.len() ==> unicode_whitespace(text@[j]),
        decreases to,
    {
        to -= 1;
    }
    proof {
        lemma_trimmed_start(text@, from as int);
        let tail = text@.skip(from as int);
        assert forall|j: int| to - from <= j < tail.len() implies unicode_whitespace(tail[j]) by {
            assert(tail[j] == text@[from + j]);
        }
        if to > from {
            assert(tail[to - from - 1] == text@[to - 1]);
        }
        lemma_trimmed_end(tail, to - from);
        assert(tail.take(to - from) == text@.subrange(from as int, to as int));
    }
    copy_range(text, from, to)
}

/// A document split into its header and its body.
#[derive(Clone, Debug, PartialEq, Eq)]
pub struct SplitDocument {
    /// The text between the fences, each line ended by a line feed; `None`
    /// where the document does not start with a fence.
    pub header: Option<String>,
    /// The text after the header.
    pub markdown: String,
}

impl Page {
    /// Splits a document into its header and its body.
    pub fn split_frontmatter(content: &str) -> (split: SplitDocument)
        ensures
            optional_text(split.header) == split_of(content@).0,
            split.markdown@ == split_of(content@).1,
    {
        let chars = chars_of(content);
        let lines = split_lines(&chars);
        let fence_line = chars_of("---");
        let ghost views = lines_view(lines@);
        if lines.len() == 0 || !same_chars(&lines[0], &fence_line) {
            return SplitDocument { header: None, markdown: string_of(&chars) };
        }
        let mut close: usize = 1;
        while close < lines.len() && !same_chars(&lines[close], &fence_line)
            invariant
                1 <= close <= lines.len(),
                views == lines_view(lines@),
                fence_line@ == fence(),
                forall|j: int| 1 <= j < close ==> views[j] != fence(),
            decreases lines.len() - close,
        {
            close += 1;
        }
        let header = join_lines(&lines, 1, close);
        let body = if close < lines.len() {
            join_lines(&lines, close + 1, lines.len())
        } else {
            let none: Vec<char> = Vec::new();
            none
        };
        proof {
            let rest = views.skip(1);
            assert forall|j: int| 0 <= j < close - 1 implies rest[j] != fence() by {
                assert(rest[j] == views[j + 1]);
            }
            if close < lines.len() {
                assert(rest[close - 1] == views[close as int]);
            }
            lemma_fence_at_is_first_fence(rest, close - 1);
            assert(rest.take(close - 1) == views.subrange(1, close as int));
            if close < lines.len() {
                assert(rest.skip(close - 1 + 1) == views.subrange(close + 1, lines.len() as int));
            }
        }
        let markdown = trim(&body);
        SplitDocument { header: Some(string_of(&header)), markdown: string_of(&markdown) }
    }
}

/// Whether `text` ends with `suffix`.
pub open spec fn ends_with(text: Seq<char>, suffix: Seq<char>) -> bool {
    suffix.len() <= text.len() && text.skip(text.len() - suffix.len()) == suffix
}

/// Whether `text` starts with `prefix`.
pub open spec fn starts_with(text: Seq<char>, prefix: Seq<char>) -> bool {
    prefix.len() <= text.len() && text.take(prefix.len() as int) == prefix
}

/// The file that a url path stands for, relative to the directory of the
/// documents. The empty path stands for `/`; a path that ends in `/` stands
/// for the `index.md` below it; `.md` is added where it is missing; one
/// leading `/` is dropped.
pub open spec fn page_file_of(url_path: Seq<char>) -> Seq<char> {
    let asked = if url_path.len() == 0 {
        "/"@
    } else {
        url_path
    };
    let file = if ends_with(asked, "/"@) {
        asked + "index.md"@
    } else if !ends_with(asked, ".md"@) {
        asked + ".md"@
    } else {
        asked
    };
    if starts_with(file, "/"@) {
        file.skip(1)
    } else {
        file
    }
}

/// Whether `path` is `root` or lies below it: whether it starts with `root`
/// and goes on, if at all, with a separator.
pub open spec fn lies_within(root: Seq<char>, path: Seq<char>) -> bool {
    starts_with(path, root) && (path.len() == root.len() || ends_with(root, "/"@)
        || path[root.len() as int] == '/')
}

/// Whether `text` ends with `suffix`.
pub fn has_suffix(text: &Vec<char>, suffix: &Vec<char>) -> (found: bool)
    ensures
        found == ends_with(text@, suffix@),
{
    if suffix.len() > text.len() {
        return false;
    }
    let tail = copy_range(text, text.len() - suffix.len(), text.len());
    same_chars(&tail, suffix)
}

/// Whether `text` starts with `prefix`.
pub fn has_prefix(text: &Vec<char>, prefix: &Vec<char>) -> (found: bool)
    ensures
        found == starts_with(text@, prefix@),
{
    if prefix.len() > text.len() {
        return false;
    }
    let head = copy_range(text, 0, prefix.len());
    same_chars(&head, prefix)
}

/// Adds the characters of `more` to `text`.
pub fn extend_chars(text: &mut Vec<char>, more: &Vec<char>)
    ensures
        final(text)@ == old(text)@ + more@,
{
    let mut i: usize = 0;
    while i < more.len()
        invariant
            i <= more.len(),
            text@ == old(text)@ + more@.take(i as int),
        decreases more.len() - i,
    {
        text.push(more[i]);
        assert(more@.take(i + 1) == more@.take(i as int).push(more@[i as int]));
        i += 1;
    }
    assert(more@.take(more.len() as int) == more@);
}

/// Whether a path, made absolute and free of links, is the root or lies
/// below it. A document outside the directory of the documents is not
/// served.
pub fn path_is_within(root: &str, path: &str) -> (within: bool)
    ensures
        within == lies_within(root@, path@),
{
    let root = chars_of(root);
    let path = chars_of(path);
    let separator = chars_of("/");
    proof {
        reveal_strlit("/");
    }
    if !has_prefix(&path, &root) {
        return false;
    }
    path.len() == root.len() || has_suffix(&root, &separator) || path[root.len()] == '/'
}

impl Page {
    /// The file that a url path stands for, relative to the directory of
    /// the documents.
    pub fn relative_path(url_path: &str) -> (file: String)
        ensures
            file@ == page_file_of(url_path@),
    {
        let separator = chars_of("/");
        let extension = chars_of(".md");
        let index = chars_of("index.md");
        proof {
            reveal_strlit("/");
        }
        let mut file = chars_of(url_path);
        if file.len() == 0 {
            extend_chars(&mut file, &separator);
        }
        if has_suffix(&file, &separator) {
            extend_chars(&mut file, &index);
        } else if !has_suffix(&file, &extension) {
            extend_chars(&mut file, &extension);
        }
        if has_prefix(&file, &separator) {
            let kept = copy_range(&file, 1, file.len());
            string_of(&kept)
        } else {
            string_of(&file)
        }
    }

    /// The title of the page as the browser shows it: the page's title and
    /// the site's, or the site's alone where the page has none.
    pub fn formulate_title(&self, site_title: &str) -> (title: String)
        ensures
            title@ == (match self@.title {
                Some(page_title) => page_title + " - "@ + site_title@,
                None => site_title@,
            }),
    {
        match &self.title {
            Some(page_title) => {
                let mut title = page_title.clone();
                title.append(" - ");
                title.append(site_title);
                title
            },
            None => String::from_str(site_title),
        }
    }
}

/// The text of a document with the given header and body: the header
/// between two fences, each on a line of its own, then the body.
pub open spec fn framed(header: Seq<char>, body: Seq<char>) -> Seq<char> {
    "---\n"@ + header + "\n---\n"@ + body
}

/// Writes a header and a body as one document.
pub fn frame_document(header: &str, body: &str) -> (content: String)
    ensures
        content@ == framed(header@, body@),
{
    let mut content = String::from_str("---\n");
    content.append(header);
    content.append("\n---\n");
    content.append(body);
    content
}

} // verus!
