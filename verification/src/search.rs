//! Putting documents into search indexes and finding similar ones.

use vstd::prelude::*;

use crate::embedding::{flat, flatten, flattening_joins_rows};
use crate::protocol::{Effect, EffectView, SearchQuery, SearchQueryView};
use crate::types::{rows_of, text_of, Document, DocumentView};

verus! {

/// How many similar documents a search returns.
pub const SIMILAR_SIZE: u32 = 3;

/// How many neighbours a search considers.
pub const SIMILAR_K: u32 = 25;

/// The dimension of the vectors of an index.
pub const DIMENSION: u32 = 384;

/// The index of documents that name none.
pub open spec fn default_index() -> Seq<char> {
    "default_index"@
}

/// The search for the documents similar to what has these embeddings.
pub open spec fn similar_effect<N>(
    cluster: usize,
    index: Seq<char>,
    embeddings: Seq<Seq<N>>,
) -> EffectView<N> {
    EffectView::Search {
        cluster,
        index,
        query: SearchQueryView { size: SIMILAR_SIZE, k: SIMILAR_K, vector: flat(embeddings) },
    }
}

/// Searches an index of a cluster for the documents similar to what has these embeddings.
pub fn search_similar<N: Copy>(
    cluster: usize,
    index_name: String,
    query_vector: &Vec<Vec<N>>,
) -> (r: Effect<N>)
    ensures
        r@ == similar_effect::<N>(cluster, index_name@, rows_of(query_vector@)),
        r matches Effect::Search { cluster: c, index, query } && {
            &&& c == cluster
            &&& index == index_name
            &&& query.size == 3
            &&& query.k == 25
            &&& query.vector@ == rows_of(query_vector@).flatten()
        },
{
    let query = SearchQuery { size: SIMILAR_SIZE, k: SIMILAR_K, vector: flatten(query_vector) };
    Effect::Search { cluster, index: index_name, query }
}

/// Puts a document into an index of a cluster: its vector is its embeddings, one behind the
/// other.
pub fn insert_document<N: Copy>(
    cluster: usize,
    index_name: String,
    id: String,
    text: String,
    embedding: &Vec<Vec<N>>,
    filename: Option<String>,
    url: Option<String>,
    source: Option<String>,
    model: Option<String>,
    timestamp: Option<String>,
) -> (r: Effect<N>)
    ensures
        r@ == (EffectView::Insert {
            cluster,
            index: index_name@,
            id: id@,
            document: DocumentView {
                text: text@,
                vector: flat(rows_of(embedding@)),
                filename: text_of(filename),
                url: text_of(url),
                source: text_of(source),
                model: text_of(model),
                timestamp: text_of(timestamp),
            },
        }),
        r matches Effect::Insert { cluster: c, index, id: i, document } && {
            &&& c == cluster
            &&& index == index_name
            &&& i == id
            &&& document.text == text
            &&& document.vector@ == rows_of(embedding@).flatten()
            &&& document.filename == filename
            &&& document.url == url
            &&& document.source == source
            &&& document.model == model
            &&& document.timestamp == timestamp
        },
{
    let vector = flatten(embedding);
    let document = Document { text, vector, filename, url, source, model, timestamp };
    Effect::Insert { cluster, index: index_name, id, document }
}

/// A field of the documents of an index: its name, its type and, of a vector, its dimension.
#[derive(Debug)]
pub struct Property {
    pub name: String,
    pub kind: String,
    pub dimension: Option<u32>,
}

pub struct PropertyView {
    pub name: Seq<char>,
    pub kind: Seq<char>,
    pub dimension: Option<u32>,
}

impl View for Property {
    type V = PropertyView;

    open spec fn view(&self) -> PropertyView {
        PropertyView { name: self.name@, kind: self.kind@, dimension: self.dimension }
    }
}

/// How an index is set up: whether it finds nearest neighbours, and the fields of its documents.
#[derive(Debug)]
pub struct IndexBody {
    pub knn: bool,
    pub properties: Vec<Property>,
}

pub struct IndexBodyView {
    pub knn: bool,
    pub properties: Seq<PropertyView>,
}

impl View for IndexBody {
    type V = IndexBodyView;

    open spec fn view(&self) -> IndexBodyView {
        IndexBodyView {
            knn: self.knn,
            properties: Seq::new(self.properties@.len(), |i: int| self.properties@[i]@),
        }
    }
}

/// A field without a dimension.
pub open spec fn plain_property(name: Seq<char>, kind: Seq<char>) -> PropertyView {
    PropertyView { name, kind, dimension: None }
}

/// How every index is set up.
pub open spec fn index_body() -> IndexBodyView {
    IndexBodyView {
        knn: true,
        properties: seq![
            PropertyView { name: "vector"@, kind: "knn_vector"@, dimension: Some(DIMENSION) },
            plain_property("filename"@, "keyword"@),
            plain_property("text"@, "text"@),
            plain_property("url"@, "keyword"@),
            plain_property("source"@, "keyword"@),
            plain_property("model"@, "text"@),
            plain_property("timestamp"@, "text"@),
        ],
    }
}

/// A field without a dimension.
fn property(name: &str, kind: &str) -> (r: Property)
    ensures
        r@ == plain_property(name@, kind@),
{
    Property { name: name.to_owned(), kind: kind.to_owned(), dimension: None }
}

/// The set-up to create an index with; nothing where the index is there already.
pub fn create_index(present: bool) -> (r: Option<IndexBody>)
    ensures
        present <==> r is None,
        r is Some ==> r->0@ == index_body(),
{
    if present {
        return None;
    }
    let mut properties: Vec<Property> = Vec::new();
    properties.push(
        Property {
            name: "vector".to_owned(),
            kind: "knn_vector".to_owned(),
            dimension: Some(DIMENSION),
        },
    );
    properties.push(property("filename", "keyword"));
    properties.push(property("text", "text"));
    properties.push(property("url", "keyword"));
    properties.push(property("source", "keyword"));
    properties.push(property("model", "text"));
    properties.push(property("timestamp", "text"));
    let r = IndexBody { knn: true, properties };
    assert(r@.properties =~= index_body().properties);
    Some(r)
}

/// The documents similar to a text are searched in the index given, the three nearest of
/// twenty-five, by all numbers of the embedding of the text.
pub proof fn similar_documents_are_the_nearest<N>(
    cluster: usize,
    index: Seq<char>,
    embeddings: Seq<Seq<N>>,
)
    ensures
        similar_effect(cluster, index, embeddings) matches EffectView::Search {
            cluster: c,
            index: i,
            query,
        } && c == cluster && i == index && query.size == 3 && query.k == 25 && query.vector
            == embeddings.flatten(),
{
    flattening_joins_rows(embeddings, Seq::empty());
}

/// An index finds nearest neighbours, and has seven fields, each with its type; the vector has 384
/// numbers, and no other field has a dimension.
pub proof fn indexes_are_set_up_alike()
    ensures
        index_body().knn,
        index_body().properties.len() == 7,
        index_body().properties[0].name == "vector"@,
        index_body().properties[0].kind == "knn_vector"@,
        index_body().properties[0].dimension == Some(384u32),
        index_body().properties[1].name == "filename"@,
        index_body().properties[1].kind == "keyword"@,
        index_body().properties[2].name == "text"@,
        index_body().properties[2].kind == "text"@,
        index_body().properties[3].name == "url"@,
        index_body().properties[3].kind == "keyword"@,
        index_body().properties[4].name == "source"@,
        index_body().properties[4].kind == "keyword"@,
        index_body().properties[5].name == "model"@,
        index_body().properties[5].kind == "text"@,
        index_body().properties[6].name == "timestamp"@,
        index_body().properties[6].kind == "text"@,
        forall|i: int|
            1 <= i < 7 ==> (#[trigger] index_body().properties[i]).dimension is None,
        default_index() == "default_index"@,
{
}

/// The set-up of an index, and a field of it, are seen whole.
pub proof fn set_ups_are_seen_whole(body: IndexBody, p: Property)
    ensures
        body@.knn == body.knn,
        body@.properties.len() == body.properties@.len(),
        forall|i: int|
            0 <= i < body.properties@.len() ==> #[trigger] body@.properties[i]
                == body.properties@[i]@,
        p@.name == p.name@,
        p@.kind == p.kind@,
        p@.dimension == p.dimension,
{
}

} // verus!
