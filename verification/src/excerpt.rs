//! Excerpts of matched documents.
//!
//! The search engine crops the body of a hit around the matched terms and
//! wraps each match in a pair of neutral marker characters. Before such a
//! text is embedded in markup it is flattened to plain text, the markers
//! become `<mark>` elements, and everything else that looks like markup is
//! removed by the sanitizer.

use vstd::prelude::*;
use vstd::string::StringExecFns;
use crate::text::push_char;

verus! {

/// Opens a matched term in the text that the engine formats.
pub const HIGHLIGHT_OPEN: char = '\u{2687}';

/// Closes a matched term in the text that the engine formats.
pub const HIGHLIGHT_CLOSE: char = '\u{2689}';

/// Number of words that the engine keeps around the matches of an excerpt.
pub const CROP_WORDS: usize = 20;

/// One event of a markdown text, as far as excerpts tell events apart.
#[derive(Clone, Debug, PartialEq, Eq)]
pub enum MarkdownEvent {
    /// Running text.
    Text(String),
    /// An inline code span.
    Code(String),
    /// A block of raw HTML.
    Html(String),
    /// Any other event: the start or end of an element, a break, a rule.
    Other,
}

/// What a `MarkdownEvent` holds.
pub enum MarkdownEventView {
    Text(Seq<char>),
    Code(Seq<char>),
    Html(Seq<char>),
    Other,
}

impl View for MarkdownEvent {
    type V = MarkdownEventView;

    open spec fn view(&self) -> MarkdownEventView {
        match self {
            MarkdownEvent::Text(t) => MarkdownEventView::Text(t@),
            MarkdownEvent::Code(t) => MarkdownEventView::Code(t@),
            MarkdownEvent::Html(t) => MarkdownEventView::Html(t@),
            MarkdownEvent::Other => MarkdownEventView::Other,
        }
    }
}

/// The events that `pulldown_cmark` reads from a markdown text with no
/// extension switched on.
pub uninterp spec fn markdown_events(text: Seq<char>) -> Seq<MarkdownEventView>;

/// What `ammonia` leaves of an HTML fragment when only the elements in
/// `tags` are allowed and every other setting is the default one, but for
/// two: comments go where `strip_comments` is set, and links get `link_rel`
/// as their `rel` attribute, or none.
pub uninterp spec fn sanitized_html(
    html: Seq<char>,
    tags: Seq<Seq<char>>,
    strip_comments: bool,
    link_rel: Option<Seq<char>>,
) -> Seq<char>;

/// The views of a sequence of events.
pub open spec fn events_view(events: Seq<MarkdownEvent>) -> Seq<MarkdownEventView> {
    events.map_values(|e: MarkdownEvent| e@)
}

/// The views of a sequence of texts.
pub open spec fn texts_view(texts: Seq<String>) -> Seq<Seq<char>> {
    texts.map_values(|t: String| t@)
}

/// What one event adds to the plain text: its text and a space where it
/// carries text, nothing otherwise.
pub open spec fn event_text(event: MarkdownEventView) -> Seq<char> {
    match event {
        MarkdownEventView::Text(t) => t.push(' '),
        MarkdownEventView::Code(t) => t.push(' '),
        MarkdownEventView::Html(t) => t.push(' '),
        MarkdownEventView::Other => Seq::empty(),
    }
}

/// The plain text of a sequence of events.
pub open spec fn plain_text(events: Seq<MarkdownEventView>) -> Seq<char>
    decreases events.len(),
{
    if events.len() == 0 {
        Seq::empty()
    } else {
        plain_text(events.drop_last()) + event_text(events.last())
    }
}

/// What one character of plain text becomes in markup: the markers become
/// the tags of a `mark` element, square brackets vanish, anything else
/// stays.
pub open spec fn marker_expansion(c: char) -> Seq<char> {
    if c == HIGHLIGHT_OPEN {
        "<mark>"@
    } else if c == HIGHLIGHT_CLOSE {
        "</mark>"@
    } else if c == '[' || c == ']' {
        Seq::empty()
    } else {
        seq![c]
    }
}

/// A plain text with each character replaced by its expansion.
pub open spec fn expanded_markers(text: Seq<char>) -> Seq<char>
    decreases text.len(),
{
    if text.len() == 0 {
        Seq::empty()
    } else {
        expanded_markers(text.drop_last()) + marker_expansion(text.last())
    }
}

/// The elements that an excerpt may hold.
pub open spec fn excerpt_tags() -> Seq<Seq<char>> {
    seq!["mark"@]
}

/// The excerpt that is shown for a text formatted by the engine.
pub open spec fn excerpt_of(formatted: Seq<char>) -> Seq<char> {
    sanitized_html(
        expanded_markers(plain_text(markdown_events(formatted))),
        excerpt_tags(),
        true,
        None,
    )
}

/// Once the markers are expanded, no marker and no square bracket is left in
/// the text.
pub proof fn lemma_no_marker_survives(text: Seq<char>)
    ensures
        forall|i: int|
            0 <= i < expanded_markers(text).len() ==> {
                let c = #[trigger] expanded_markers(text)[i];
                c != HIGHLIGHT_OPEN && c != HIGHLIGHT_CLOSE && c != '[' && c != ']'
            },
    decreases text.len(),
{
    reveal_strlit("<mark>");
    reveal_strlit("</mark>");
    if text.len() > 0 {
        lemma_no_marker_survives(text.drop_last());
        let head = expanded_markers(text.drop_last());
        let tail = marker_expansion(text.last());
        assert forall|i: int| 0 <= i < expanded_markers(text).len() implies {
            let c = #[trigger] expanded_markers(text)[i];
            c != HIGHLIGHT_OPEN && c != HIGHLIGHT_CLOSE && c != '[' && c != ']'
        } by {
            if i < head.len() {
                assert(expanded_markers(text)[i] == head[i]);
            } else {
                assert(expanded_markers(text)[i] == tail[i - head.len()]);
            }
        }
    }
}

/// Runs `pulldown_cmark::Parser::new` over the text and hands back its
/// events, each text-carrying kind that excerpts use with its text. The
/// contract only names the result.
#[verifier::external_body]
fn parse_markdown(input: &str) -> (events: Vec<MarkdownEvent>)
    ensures
        events_view(events@) == markdown_events(input@),
{
    pulldown_cmark::Parser::new(input).map(
        |event| match event {
            pulldown_cmark::Event::Text(t) => MarkdownEvent::Text(t.to_string()),
            pulldown_cmark::Event::Code(t) => MarkdownEvent::Code(t.to_string()),
            pulldown_cmark::Event::Html(t) => MarkdownEvent::Html(t.to_string()),
            _ => MarkdownEvent::Other,
        },
    ).collect()
}

/// Makes an `ammonia::Builder` with its default settings, sets the allowed
/// elements, the comment handling and the `rel` attribute of links, and runs
/// `clean`. `script` and `style` cannot be allowed: by default `ammonia`
/// strips their content, and it panics when they are in the allowed set as
/// well. The contract only names the result.
#[verifier::external_body]
fn sanitize(html: &str, tags: &Vec<String>, strip_comments: bool, link_rel: Option<&str>) -> (clean:
    String)
    requires
        forall|i: int|
            0 <= i < tags@.len() ==> (#[trigger] tags@[i])@ != "script"@ && tags@[i]@
                != "style"@,
    ensures
        clean@ == sanitized_html(
            html@,
            texts_view(tags@),
            strip_comments,
            match link_rel {
                Some(rel) => Some(rel@),
                None => None,
            },
        ),
{
    let mut builder = ammonia::Builder::new();
    builder.tags(tags.iter().map(|t| t.as_str()).collect());
    builder.strip_comments(strip_comments);
    builder.link_rel(link_rel);
    builder.clean(html).to_string()
}

/// Flattens markdown events to plain text: the text of every text, code and
/// HTML event, each followed by one space.
pub fn flatten_events(events: &Vec<MarkdownEvent>) -> (plain: String)
    ensures
        plain@ == plain_text(events_view(events@)),
{
    let mut plain = String::new();
    let mut i: usize = 0;
    while i < events.len()
        invariant
            i <= events.len(),
            plain@ == plain_text(events_view(events@).take(i as int)),
        decreases events.len() - i,
    {
        let ghost views = events_view(events@);
        proof {
            assert(views.take(i + 1).drop_last() == views.take(i as int));
            assert(views.take(i + 1).last() == events@[i as int]@);
        }
        match &events[i] {
            MarkdownEvent::Text(t) => {
                plain.append(t.as_str());
                push_char(&mut plain, ' ');
            },
            MarkdownEvent::Code(t) => {
                plain.append(t.as_str());
                push_char(&mut plain, ' ');
            },
            MarkdownEvent::Html(t) => {
                plain.append(t.as_str());
                push_char(&mut plain, ' ');
            },
            MarkdownEvent::Other => {},
        }
        i += 1;
    }
    proof {
        assert(events_view(events@).take(events.len() as int) == events_view(events@));
    }
    plain
}

/// Turns the markers of a plain text into `mark` elements and drops square
/// brackets.
pub fn expand_markers(plain: &str) -> (marked: String)
    ensures
        marked@ == expanded_markers(plain@),
{
    let mut marked = String::new();
    for c in it: plain.chars()
        invariant
            it.seq() == plain@,
            marked@ == expanded_markers(plain@.take(it.index() as int)),
    {
        proof {
            let k = it.index() as int;
            assert(plain@.take(k + 1).drop_last() == plain@.take(k));
            assert(plain@.take(k + 1).last() == c);
        }
        if c == HIGHLIGHT_OPEN {
            marked.append("<mark>");
        } else if c == HIGHLIGHT_CLOSE {
            marked.append("</mark>");
        } else if c == '[' || c == ']' {
        } else {
            push_char(&mut marked, c);
        }
    }
    proof {
        assert(plain@.take(plain@.len() as int) == plain@);
    }
    marked
}

/// Formats the text that the engine cropped and marked for a hit into the
/// excerpt that is shown: plain text in which the matched terms are `mark`
/// elements and nothing else is markup.
pub fn format_excerpt(input: &str) -> (excerpt: String)
    ensures
        excerpt@ == excerpt_of(input@),
{
    let events = parse_markdown(input);
    let plain = flatten_events(&events);
    let marked = expand_markers(plain.as_str());
    let mut tags: Vec<String> = Vec::new();
    tags.push(String::from_str("mark"));
    proof {
        reveal_strlit("mark");
        reveal_strlit("script");
        reveal_strlit("style");
        assert("mark"@.len() == 4 && "script"@.len() == 6 && "style"@.len() == 5);
        assert(tags@[0]@ == "mark"@);
        assert(texts_view(tags@) == excerpt_tags());
    }
    sanitize(marked.as_str(), &tags, true, None)
}

} // verus!
