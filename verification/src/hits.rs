//! From the documents that the engine found to the hits that are shown.

use vstd::prelude::*;
use vstd::string::StringExecFns;
use crate::excerpt::{excerpt_of, format_excerpt};
use crate::ident::{decode_id, ulid_value, IdError};
use crate::text::same_text;

verus! {

/// Number of hits that a query asks the engine for, and the most it shows.
pub const SEARCH_LIMIT: usize = 10;

/// What a stored field holds, as far as hits read it.
#[derive(Clone, Debug, PartialEq, Eq)]
pub enum StoredValue {
    /// A text.
    Text(String),
    /// Any other value: a number, a list, nothing.
    Other,
}

/// One named field of a stored document.
#[derive(Clone, Debug, PartialEq, Eq)]
pub struct StoredField {
    pub name: String,
    pub value: StoredValue,
}

/// What a `StoredField` holds: its name and its text, where it holds one.
pub struct StoredFieldView {
    pub name: Seq<char>,
    pub text: Option<Seq<char>>,
}

impl View for StoredField {
    type V = StoredFieldView;

    open spec fn view(&self) -> StoredFieldView {
        StoredFieldView {
            name: self.name@,
            text: match self.value {
                StoredValue::Text(t) => Some(t@),
                StoredValue::Other => None,
            },
        }
    }
}

/// A document as the engine hands it back: its fields in the order they were
/// read. Where a name occurs twice, the later field counts.
#[derive(Clone, Debug, PartialEq, Eq)]
pub struct FoundDocument {
    pub fields: Vec<StoredField>,
}

impl View for FoundDocument {
    type V = Seq<StoredFieldView>;

    open spec fn view(&self) -> Seq<StoredFieldView> {
        self.fields@.map_values(|f: StoredField| f@)
    }
}

/// One entry of a result list.
#[derive(Clone, Debug, PartialEq, Eq)]
pub struct SearchHit {
    pub id: u128,
    pub url: String,
    pub title: String,
    pub excerpt: String,
}

/// What a `SearchHit` holds.
pub struct SearchHitView {
    pub id: u128,
    pub url: Seq<char>,
    pub title: Seq<char>,
    pub excerpt: Seq<char>,
}

impl View for SearchHit {
    type V = SearchHitView;

    open spec fn view(&self) -> SearchHitView {
        SearchHitView { id: self.id, url: self.url@, title: self.title@, excerpt: self.excerpt@ }
    }
}

/// Name of the field that holds the identifier, the index's primary key.
pub open spec fn id_field() -> Seq<char> {
    "id"@
}

/// Name of the field that holds the title.
pub open spec fn title_field() -> Seq<char> {
    "title"@
}

/// Name of the field that holds the body text.
pub open spec fn body_field() -> Seq<char> {
    "markdown"@
}

/// Name of the field that holds the url path.
pub open spec fn url_field() -> Seq<char> {
    "url"@
}

/// Name of the field that holds the tags.
pub open spec fn tags_field() -> Seq<char> {
    "tags"@
}

/// Name of the field that holds the modification time.
pub open spec fn modified_field() -> Seq<char> {
    "modified"@
}

/// Name under which the body, cropped and marked by the engine, is added to
/// a found document.
pub open spec fn formatted_body_field() -> Seq<char> {
    "_formatted_markdown"@
}

/// The text of the last field called `name`; empty where there is no such
/// field or it holds no text.
pub open spec fn text_of(fields: Seq<StoredFieldView>, name: Seq<char>) -> Seq<char>
    decreases fields.len(),
{
    if fields.len() == 0 {
        Seq::empty()
    } else if fields.last().name == name {
        match fields.last().text {
            Some(t) => t,
            None => Seq::empty(),
        }
    } else {
        text_of(fields.drop_last(), name)
    }
}

/// The hit that a found document stands for, where its identifier reads as
/// one.
pub open spec fn hit_of(fields: Seq<StoredFieldView>) -> Option<SearchHitView> {
    match ulid_value(text_of(fields, id_field())) {
        Some(id) => Some(
            SearchHitView {
                id,
                url: text_of(fields, url_field()),
                title: text_of(fields, title_field()),
                excerpt: excerpt_of(text_of(fields, formatted_body_field())),
            },
        ),
        None => None,
    }
}

/// The hits of a list of found documents, in the order of the documents;
/// a document without a readable identifier gives none.
pub open spec fn hits_of(documents: Seq<Seq<StoredFieldView>>) -> Seq<SearchHitView>
    decreases documents.len(),
{
    if documents.len() == 0 {
        Seq::empty()
    } else {
        match hit_of(documents.last()) {
            Some(hit) => hits_of(documents.drop_last()).push(hit),
            None => hits_of(documents.drop_last()),
        }
    }
}

/// The first `limit` documents of a list, or all of them where there are
/// fewer.
pub open spec fn capped(
    documents: Seq<Seq<StoredFieldView>>,
    limit: nat,
) -> Seq<Seq<StoredFieldView>> {
    if limit < documents.len() {
        documents.take(limit as int)
    } else {
        documents
    }
}

/// The views of a list of found documents.
pub open spec fn documents_view(documents: Seq<FoundDocument>) -> Seq<Seq<StoredFieldView>> {
    documents.map_values(|d: FoundDocument| d@)
}

/// The views of a list of hits.
pub open spec fn hits_view(hits: Seq<SearchHit>) -> Seq<SearchHitView> {
    hits.map_values(|h: SearchHit| h@)
}

/// Every found document whose identifier can be read has its hit in the
/// result list, and the list holds no other hits.
pub proof fn lemma_hits_are_the_readable_documents(
    documents: Seq<Seq<StoredFieldView>>,
    hit: SearchHitView,
)
    ensures
        hits_of(documents).contains(hit) <==> exists|i: int|
            0 <= i < documents.len() && hit_of(#[trigger] documents[i]) == Some(hit),
        hits_of(documents).len() <= documents.len(),
    decreases documents.len(),
{
    if documents.len() > 0 {
        let head = documents.drop_last();
        lemma_hits_are_the_readable_documents(head, hit);
        let listed = hits_of(documents);
        if listed.contains(hit) {
            let k = choose|k: int| 0 <= k < listed.len() && listed[k] == hit;
            if hit_of(documents.last()) is Some && k == listed.len() - 1 {
                assert(hit_of(documents[documents.len() - 1]) == Some(hit));
            } else {
                assert(hits_of(head)[k] == hit);
                assert(hits_of(head).contains(hit));
                let i = choose|i: int| 0 <= i < head.len() && hit_of(#[trigger] head[i]) == Some(hit);
                assert(documents[i] == head[i]);
            }
        }
        if exists|i: int| 0 <= i < documents.len() && hit_of(#[trigger] documents[i]) == Some(hit) {
            let i = choose|i: int|
                0 <= i < documents.len() && hit_of(#[trigger] documents[i]) == Some(hit);
            if i == documents.len() - 1 {
                assert(listed.last() == hit);
            } else {
                assert(head[i] == documents[i]);
                assert(hits_of(head).contains(hit));
                let k = choose|k: int| 0 <= k < hits_of(head).len() && hits_of(head)[k] == hit;
                assert(listed[k] == hit);
            }
        }
    }
}

impl StoredField {
    /// The text that the engine is to crop and mark for the excerpt: the
    /// field's text where this is the body field and holds a text.
    pub fn highlight_source(&self) -> (source: Option<&str>)
        ensures
            source is Some <==> self@.name == body_field() && self@.text is Some,
            source matches Some(text) ==> Some(text@) == self@.text,
    {
        if same_text(self.name.as_str(), "markdown") {
            match &self.value {
                StoredValue::Text(t) => Some(t.as_str()),
                StoredValue::Other => None,
            }
        } else {
            None
        }
    }

    /// The field under which the cropped and marked body is added to a found
    /// document.
    pub fn formatted_body(text: String) -> (field: StoredField)
        ensures
            field@.name == formatted_body_field(),
            field@.text == Some(text@),
    {
        StoredField { name: String::from_str("_formatted_markdown"), value: StoredValue::Text(text) }
    }
}

impl FoundDocument {
    /// A document without fields.
    pub fn new() -> (document: FoundDocument)
        ensures
            document@ == Seq::<StoredFieldView>::empty(),
    {
        FoundDocument { fields: Vec::new() }
    }

    /// Adds a field after those already there.
    pub fn push(&mut self, field: StoredField)
        ensures
            final(self)@ == old(self)@.push(field@),
    {
        self.fields.push(field);
        assert(self@ == old(self)@.push(field@));
    }

    /// The text of the last field called `name`; empty where there is no
    /// such field or it holds no text.
    pub fn text_field(&self, name: &str) -> (text: &str)
        ensures
            text@ == text_of(self@, name@),
    {
        let mut found: &str = "";
        proof {
            reveal_strlit("");
            assert(self@.take(0) == Seq::<StoredFieldView>::empty());
            assert(""@ == Seq::<char>::empty());
        }
        let mut i: usize = 0;
        while i < self.fields.len()
            invariant
                i <= self.fields.len(),
                found@ == text_of(self@.take(i as int), name@),
            decreases self.fields.len() - i,
        {
            proof {
                assert(self@.take(i + 1).drop_last() == self@.take(i as int));
                assert(self@.take(i + 1).last() == self.fields@[i as int]@);
                reveal_strlit("");
            }
            if same_text(self.fields[i].name.as_str(), name) {
                match &self.fields[i].value {
                    StoredValue::Text(t) => {
                        found = t.as_str();
                    },
                    StoredValue::Other => {
                        found = "";
                    },
                }
            }
            i += 1;
        }
        proof {
            assert(self@.take(self.fields.len() as int) == self@);
        }
        found
    }
}

impl SearchHit {
    /// Reads a hit from a found document. The identifier, url, title and
    /// formatted body are the texts of the fields of those names; the hit is
    /// refused where the identifier does not read as one.
    pub fn try_from_document(document: &FoundDocument) -> (r: Result<SearchHit, IdError>)
        ensures
            r is Ok <==> hit_of(document@) is Some,
            r matches Ok(hit) ==> Some(hit@) == hit_of(document@),
            r matches Err(e) ==> (e == IdError::InvalidLength <==> vstd::utf8::encode_utf8(
                text_of(document@, id_field()),
            ).len() != 26),
    {
        let id_text = document.text_field("id");
        let url = document.text_field("url");
        let title = document.text_field("title");
        let formatted = document.text_field("_formatted_markdown");
        match decode_id(id_text) {
            Ok(id) => Ok(
                SearchHit {
                    id,
                    url: String::from_str(url),
                    title: String::from_str(title),
                    excerpt: format_excerpt(formatted),
                },
            ),
            Err(e) => Err(e),
        }
    }
}

/// Turns the documents that the engine found into the result list: the hits
/// of the first `limit` documents, in the engine's order. A document whose
/// identifier cannot be read is left out.
pub fn collect_hits(documents: &Vec<FoundDocument>, limit: usize) -> (hits: Vec<SearchHit>)
    ensures
        hits_view(hits@) == hits_of(capped(documents_view(documents@), limit as nat)),
        hits@.len() <= limit,
        hits@.len() <= documents@.len(),
{
    let count = if documents.len() < limit { documents.len() } else { limit };
    let ghost views = documents_view(documents@);
    let mut hits: Vec<SearchHit> = Vec::new();
    let mut i: usize = 0;
    proof {
        assert(hits_view(hits@) == Seq::<SearchHitView>::empty());
    }
    while i < count
        invariant
            i <= count,
            count <= documents.len(),
            views == documents_view(documents@),
            hits_view(hits@) == hits_of(views.take(i as int)),
            hits@.len() <= i,
        decreases count - i,
    {
        proof {
            assert(views.take(i + 1).drop_last() == views.take(i as int));
            assert(views.take(i + 1).last() == documents@[i as int]@);
        }
        let ghost before = hits@;
        match SearchHit::try_from_document(&documents[i]) {
            Ok(hit) => {
                hits.push(hit);
                assert(hits_view(hits@) == hits_view(before).push(hit@));
            },
            Err(_) => {},
        }
        i += 1;
    }
    proof {
        assert(views.take(views.len() as int) == views);
    }
    hits
}

} // verus!
