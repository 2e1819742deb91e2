//! Documents: what the content source hands over and what the index stores
//! of it.

use vstd::prelude::*;
use crate::hits::{
    body_field, formatted_body_field, hit_of, id_field, modified_field, tags_field, text_of,
    title_field, url_field, StoredFieldView,
};
use crate::ident::{derived_id, encode_id, ulid_from_string, ulid_text, ulid_value};
use crate::text::same_text;

verus! {

/// The header that a document may carry in front of its text.
#[derive(Clone, Debug, PartialEq, Eq)]
pub struct Frontmatter {
    pub id: Option<u128>,
    pub title: Option<String>,
    pub tags: Option<Vec<String>>,
}

/// One document of the collection.
///
/// `modified` is the modification time in nanoseconds since the Unix epoch;
/// `url` is the path under which the document is served. In a well-formed
/// page no tag occurs twice.
#[derive(Clone, Debug, PartialEq, Eq)]
pub struct Page {
    pub id: u128,
    pub title: Option<String>,
    pub modified: i128,
    pub url: String,
    pub tags: Vec<String>,
    pub markdown: String,
    pub html: String,
}

/// What a `Page` holds.
pub struct PageView {
    pub id: u128,
    pub title: Option<Seq<char>>,
    pub modified: int,
    pub url: Seq<char>,
    pub tags: Seq<Seq<char>>,
    pub markdown: Seq<char>,
    pub html: Seq<char>,
}

/// What the index stores of a page. The identifier is written as text and
/// is the primary key; title, body and tags are the searchable fields.
#[derive(Clone, Debug, PartialEq, Eq)]
pub struct IndexRecord {
    pub id: String,
    pub title: Option<String>,
    pub markdown: String,
    pub modified: i128,
    pub url: String,
    pub tags: Vec<String>,
}

/// What an `IndexRecord` holds.
pub struct IndexRecordView {
    pub id: Seq<char>,
    pub title: Option<Seq<char>>,
    pub markdown: Seq<char>,
    pub modified: int,
    pub url: Seq<char>,
    pub tags: Seq<Seq<char>>,
}

/// The views of a sequence of texts.
pub open spec fn texts_of(texts: Seq<String>) -> Seq<Seq<char>> {
    texts.map_values(|t: String| t@)
}

/// The view of an optional text.
pub open spec fn optional_text(text: Option<String>) -> Option<Seq<char>> {
    match text {
        Some(t) => Some(t@),
        None => None,
    }
}

/// Whether no element of a sequence occurs twice.
pub open spec fn distinct(texts: Seq<Seq<char>>) -> bool {
    forall|i: int, j: int| 0 <= i < j < texts.len() ==> texts[i] != texts[j]
}

/// A sequence without its repetitions: each element stays where it first
/// occurs.
pub open spec fn without_repeats(texts: Seq<Seq<char>>) -> Seq<Seq<char>>
    decreases texts.len(),
{
    if texts.len() == 0 {
        Seq::empty()
    } else if without_repeats(texts.drop_last()).contains(texts.last()) {
        without_repeats(texts.drop_last())
    } else {
        without_repeats(texts.drop_last()).push(texts.last())
    }
}

impl View for Page {
    type V = PageView;

    open spec fn view(&self) -> PageView {
        PageView {
            id: self.id,
            title: optional_text(self.title),
            modified: self.modified as int,
            url: self.url@,
            tags: texts_of(self.tags@),
            markdown: self.markdown@,
            html: self.html@,
        }
    }
}

impl View for IndexRecord {
    type V = IndexRecordView;

    open spec fn view(&self) -> IndexRecordView {
        IndexRecordView {
            id: self.id@,
            title: optional_text(self.title),
            markdown: self.markdown@,
            modified: self.modified as int,
            url: self.url@,
            tags: texts_of(self.tags@),
        }
    }
}

impl PageView {
    /// Whether no tag occurs twice.
    pub open spec fn wf(self) -> bool {
        distinct(self.tags)
    }
}

impl IndexRecordView {
    /// Whether this is a record of `page`: its identifier reads back as the
    /// page's, and the other fields are the page's own.
    pub open spec fn is_record_of(self, page: PageView) -> bool {
        &&& ulid_value(self.id) == Some(page.id)
        &&& self.title == page.title
        &&& self.markdown == page.markdown
        &&& self.modified == page.modified
        &&& self.url == page.url
        &&& self.tags == page.tags
    }

    /// The fields of the record as the engine hands them back, in the order
    /// they were written. Only identifier, title, body and url are texts.
    pub open spec fn stored_fields(self) -> Seq<StoredFieldView> {
        seq![
            StoredFieldView { name: id_field(), text: Some(self.id) },
            StoredFieldView { name: title_field(), text: self.title },
            StoredFieldView { name: body_field(), text: Some(self.markdown) },
            StoredFieldView { name: modified_field(), text: None },
            StoredFieldView { name: url_field(), text: Some(self.url) },
            StoredFieldView { name: tags_field(), text: None },
        ]
    }
}

/// The title of a page: the one its header names, else the first heading or
/// paragraph of its text.
pub open spec fn chosen_title(
    header: Option<Seq<char>>,
    heading: Option<Seq<char>>,
) -> Option<Seq<char>> {
    if header is Some {
        header
    } else {
        heading
    }
}

/// The identifier of a page: the one its header names, else the one derived
/// from its title, an absent title counting as the empty text.
pub open spec fn chosen_id(header: Option<u128>, title: Option<Seq<char>>) -> u128 {
    match header {
        Some(id) => id,
        None => derived_id(
            match title {
                Some(t) => t,
                None => Seq::empty(),
            },
        ),
    }
}

/// Whether `texts` holds `wanted`.
pub fn holds_text(texts: &Vec<String>, wanted: &str) -> (found: bool)
    ensures
        found == texts_of(texts@).contains(wanted@),
{
    let mut i: usize = 0;
    while i < texts.len()
        invariant
            i <= texts.len(),
            forall|k: int| 0 <= k < i ==> texts_of(texts@)[k] != wanted@,
        decreases texts.len() - i,
    {
        if same_text(texts[i].as_str(), wanted) {
            assert(texts_of(texts@)[i as int] == wanted@);
            return true;
        }
        i += 1;
    }
    false
}

/// Drops the repetitions from a list of tags, keeping first occurrences in
/// order.
pub fn distinct_tags(tags: Vec<String>) -> (kept: Vec<String>)
    ensures
        texts_of(kept@) == without_repeats(texts_of(tags@)),
        distinct(texts_of(kept@)),
{
    let ghost all = texts_of(tags@);
    let mut kept: Vec<String> = Vec::new();
    let mut i: usize = 0;
    proof {
        assert(texts_of(kept@) == Seq::<Seq<char>>::empty());
    }
    while i < tags.len()
        invariant
            i <= tags.len(),
            all == texts_of(tags@),
            texts_of(kept@) == without_repeats(all.take(i as int)),
            distinct(texts_of(kept@)),
        decreases tags.len() - i,
    {
        proof {
            assert(all.take(i + 1).drop_last() == all.take(i as int));
            assert(all.take(i + 1).last() == tags@[i as int]@);
        }
        if !holds_text(&kept, tags[i].as_str()) {
            let ghost before = texts_of(kept@);
            let tag = tags[i].clone();
            kept.push(tag);
            proof {
                assert(texts_of(kept@) == before.push(tags@[i as int]@));
            }
        }
        i += 1;
    }
    proof {
        assert(all.take(tags.len() as int) == all);
    }
    kept
}

impl Page {
    /// Puts a page together from what was read of it. The title is the one
    /// the header names, else `heading`; the identifier is the one the header
    /// names, else it is derived from the title; the tags are the header's,
    /// each once.
    pub fn assemble(
        frontmatter: Frontmatter,
        heading: Option<String>,
        markdown: String,
        html: String,
        url: String,
        modified: i128,
    ) -> (page: Page)
        ensures
            page@.wf(),
            page@.title == chosen_title(optional_text(frontmatter.title), optional_text(heading)),
            page@.id == chosen_id(frontmatter.id, page@.title),
            page@.tags == without_repeats(
                match frontmatter.tags {
                    Some(tags) => texts_of(tags@),
                    None => Seq::empty(),
                },
            ),
            page@.markdown == markdown@,
            page@.html == html@,
            page@.url == url@,
            page@.modified == modified,
    {
        let Frontmatter { id: header_id, title: header_title, tags: header_tags } = frontmatter;
        let title = match header_title {
            Some(t) => Some(t),
            None => heading,
        };
        let id = match header_id {
            Some(id) => id,
            None => match &title {
                Some(t) => ulid_from_string(t.as_str()),
                None => {
                    proof {
                        reveal_strlit("");
                        assert(""@ == Seq::<char>::empty());
                    }
                    ulid_from_string("")
                },
            },
        };
        let tags = match header_tags {
            Some(tags) => distinct_tags(tags),
            None => {
                let none: Vec<String> = Vec::new();
                proof {
                    assert(texts_of(none@) == Seq::<Seq<char>>::empty());
                    assert(without_repeats(Seq::<Seq<char>>::empty()) == Seq::<Seq<char>>::empty());
                }
                none
            },
        };
        Page { id, title, modified, url, tags, markdown, html }
    }

    /// What the index stores of the page. Whatever text the engine later
    /// crops and marks for it, a hit read from the stored fields refers to
    /// this page.
    pub fn record(&self) -> (record: IndexRecord)
        ensures
            record@.is_record_of(self@),
            record@.id == ulid_text(self.id),
    {
        let title = match &self.title {
            Some(t) => Some(t.clone()),
            None => None,
        };
        let mut tags: Vec<String> = Vec::new();
        let mut i: usize = 0;
        proof {
            assert(texts_of(tags@) == texts_of(self.tags@).take(0));
        }
        while i < self.tags.len()
            invariant
                i <= self.tags.len(),
                texts_of(tags@) == texts_of(self.tags@).take(i as int),
            decreases self.tags.len() - i,
        {
            let ghost before = texts_of(tags@);
            tags.push(self.tags[i].clone());
            proof {
                assert(texts_of(tags@) == before.push(self.tags@[i as int]@));
                assert(texts_of(self.tags@).take(i + 1) == texts_of(self.tags@).take(
                    i as int,
                ).push(self.tags@[i as int]@));
            }
            i += 1;
        }
        proof {
            assert(texts_of(self.tags@).take(self.tags.len() as int) == texts_of(self.tags@));
        }
        IndexRecord {
            id: encode_id(self.id),
            title,
            markdown: self.markdown.clone(),
            modified: self.modified,
            url: self.url.clone(),
            tags,
        }
    }
}

/// A hit read from the stored fields of a page's record, with the body that
/// the engine cropped and marked added to them, refers to that page: it
/// carries the page's identifier and url, and its title where it has one.
pub proof fn lemma_hit_refers_to_page(page: PageView, record: IndexRecordView, formatted: Seq<char>)
    requires
        record.is_record_of(page),
    ensures
        ({
            let fields = record.stored_fields().push(
                StoredFieldView { name: formatted_body_field(), text: Some(formatted) },
            );
            &&& hit_of(fields) matches Some(hit)
            &&& hit.id == page.id
            &&& hit.url == page.url
            &&& hit.title == (match page.title {
                Some(t) => t,
                None => Seq::empty(),
            })
            &&& hit.excerpt == crate::excerpt::excerpt_of(formatted)
        }),
{
    let fields = record.stored_fields().push(
        StoredFieldView { name: formatted_body_field(), text: Some(formatted) },
    );
    reveal_strlit("id");
    reveal_strlit("title");
    reveal_strlit("markdown");
    reveal_strlit("modified");
    reveal_strlit("url");
    reveal_strlit("tags");
    reveal_strlit("_formatted_markdown");
    reveal_with_fuel(text_of, 8);
    assert(fields.len() == 7);
    assert(fields.last().name == formatted_body_field());
    let f6 = fields.drop_last();
    assert(f6 == record.stored_fields());
    let f5 = f6.drop_last();
    let f4 = f5.drop_last();
    let f3 = f4.drop_last();
    let f2 = f3.drop_last();
    let f1 = f2.drop_last();
    assert(f6.last().name == tags_field());
    assert(f5.last().name == url_field());
    assert(f4.last().name == modified_field());
    assert(f3.last().name == body_field());
    assert(f2.last().name == title_field());
    assert(f1.last().name == id_field());
    assert(text_of(fields, formatted_body_field()) == formatted);
    assert(text_of(fields, url_field()) == page.url);
    assert(text_of(fields, id_field()) == record.id);
    assert(text_of(fields, title_field()) == (match page.title {
        Some(t) => t,
        None => Seq::empty(),
    }));
}

} // verus!
