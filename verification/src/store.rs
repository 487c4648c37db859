//! The compressed record store: from a stored payload back to a record.
//!
//! A payload is a Zstandard frame that holds a JSON object. Hydration
//! decompresses it, first with the shared dictionary and then without,
//! reads the JSON, and fills a record from it. What the JSON lacks gets the
//! default of its field.

use crate::error::SearchError;
use crate::json::{
    json_document, parse_json, JsonDocument, JsonDocumentView, JsonField, JsonFieldView, JsonItem,
    JsonItemView,
};
use crate::package::{copy_text, Package, PackageView};
use crate::score::{Ratio, Score};
use crate::text::same_text;
use vstd::prelude::*;
use vstd::utf8::{decode_utf8, valid_utf8};

verus! {

/// The most that one payload may decompress to: the largest buffer that is
/// asked for at once.
pub const MAX_CAPACITY: usize = 0x7fff_ffff;

/// What Zstandard makes of `data` with `dictionary`, given room for
/// `capacity` bytes: the decompressed bytes, or `None` where it fails.
pub uninterp spec fn zstd_decompressed(data: Seq<u8>, dictionary: Seq<u8>, capacity: int) -> Option<
    Seq<u8>,
>;

/// `zstd::bulk::Decompressor::with_dictionary` followed by the
/// decompressor's `decompress`. With the empty dictionary this is
/// `zstd::bulk::decompress`, which makes its decompressor in that way.
///
/// The contract claims only that the result is a function of the three
/// arguments. The capacity is bounded because the call may ask for a buffer
/// of that size at once: it does where a frame does not record its size.
#[verifier::external_body]
pub(crate) fn zstd_decompress(data: &[u8], dictionary: &[u8], capacity: usize) -> (r: Option<
    Vec<u8>,
>)
    requires
        capacity <= MAX_CAPACITY,
    ensures
        match r {
            Some(bytes) => zstd_decompressed(data@, dictionary@, capacity as int) == Some(bytes@),
            None => zstd_decompressed(data@, dictionary@, capacity as int) is None,
        },
{
    let mut decompressor = zstd::bulk::Decompressor::with_dictionary(dictionary).ok()?;
    decompressor.decompress(data, capacity).ok()
}

/// `std::str::from_utf8`: the text that the bytes encode, or `None` where
/// they are not valid UTF-8.
#[verifier::external_body]
pub(crate) fn text_from_utf8(bytes: &[u8]) -> (r: Option<String>)
    ensures
        r is Some <==> valid_utf8(bytes@),
        r matches Some(text) ==> text@ == decode_utf8(bytes@),
{
    std::str::from_utf8(bytes).ok().map(String::from)
}

/// The bytes of a payload: what decompression with the dictionary gives, or
/// else what decompression without a dictionary gives. A payload may
/// decompress to as much as [`MAX_CAPACITY`] bytes, however small it is.
pub open spec fn payload_bytes(data: Seq<u8>, dictionary: Option<Seq<u8>>) -> Option<Seq<u8>> {
    let capacity = MAX_CAPACITY as int;
    let plain = zstd_decompressed(data, Seq::empty(), capacity);
    match dictionary {
        Some(shared) => match zstd_decompressed(data, shared, capacity) {
            Some(bytes) => Some(bytes),
            None => plain,
        },
        None => plain,
    }
}

/// The bytes that an optional buffer holds.
pub open spec fn optional_bytes(buffer: Option<Vec<u8>>) -> Option<Seq<u8>> {
    match buffer {
        Some(bytes) => Some(bytes@),
        None => None,
    }
}

/// Decompresses a payload, with the shared dictionary first and without it
/// if that fails.
pub fn decompress_payload(data: &[u8], dictionary: &Option<Vec<u8>>) -> (r: Option<Vec<u8>>)
    ensures
        optional_bytes(r) == payload_bytes(data@, optional_bytes(*dictionary)),
{
    let capacity: usize = MAX_CAPACITY;
    let empty: Vec<u8> = Vec::new();
    match dictionary {
        Some(shared) => {
            match zstd_decompress(data, shared.as_slice(), capacity) {
                Some(bytes) => Some(bytes),
                None => zstd_decompress(data, empty.as_slice(), capacity),
            }
        },
        None => zstd_decompress(data, empty.as_slice(), capacity),
    }
}

/// `key` names the member at index `i` and none before it.
pub open spec fn member_at(members: Seq<JsonFieldView>, key: Seq<char>, i: int) -> bool {
    &&& 0 <= i < members.len()
    &&& members[i].key == key
    &&& forall|j: int| 0 <= j < i ==> members[j].key != key
}

/// The member of the document that `key` names: the first of that key.
pub open spec fn member(document: JsonDocumentView, key: Seq<char>) -> Option<JsonFieldView> {
    match document.members {
        Some(members) => if exists|i: int| member_at(members, key, i) {
            Some(members[choose|i: int| member_at(members, key, i)])
        } else {
            None
        },
        None => None,
    }
}

/// The string under `key`, or the empty text where there is none.
pub open spec fn text_member(document: JsonDocumentView, key: Seq<char>) -> Seq<char> {
    match optional_text_member(document, key) {
        Some(text) => text,
        None => Seq::empty(),
    }
}

/// The string under `key`, if there is one.
pub open spec fn optional_text_member(document: JsonDocumentView, key: Seq<char>) -> Option<
    Seq<char>,
> {
    match member(document, key) {
        Some(field) => field.text,
        None => None,
    }
}

/// The boolean under `key`, or `absent` where there is none.
pub open spec fn flag_member(document: JsonDocumentView, key: Seq<char>, absent: bool) -> bool {
    match member(document, key) {
        Some(field) => match field.flag {
            Some(flag) => flag,
            None => absent,
        },
        None => absent,
    }
}

/// The license: the string under `"license"`; for a value that is no string
/// its JSON notation; the empty text where the document has no such member.
pub open spec fn license_member(document: JsonDocumentView) -> Seq<char> {
    match member(document, "license"@) {
        Some(field) => match field.text {
            Some(text) => text,
            None => field.json,
        },
        None => Seq::empty(),
    }
}

/// The strings among `items`, in order.
pub open spec fn texts_of(items: Seq<JsonItemView>) -> Seq<Seq<char>> {
    items.filter(|item: JsonItemView| item.text is Some).map_values(
        |item: JsonItemView| item.text->0,
    )
}

/// The JSON notation of each of `items`, in order.
pub open spec fn notations_of(items: Seq<JsonItemView>) -> Seq<Seq<char>> {
    items.map_values(|item: JsonItemView| item.json)
}

/// The strings of the array under `key`, if there is an array.
pub open spec fn text_list_member(document: JsonDocumentView, key: Seq<char>) -> Option<
    Seq<Seq<char>>,
> {
    match member(document, key) {
        Some(field) => match field.items {
            Some(items) => Some(texts_of(items)),
            None => None,
        },
        None => None,
    }
}

/// The elements of the array under `key` in JSON notation, if there is an
/// array.
pub open spec fn notation_list_member(document: JsonDocumentView, key: Seq<char>) -> Option<
    Seq<Seq<char>>,
> {
    match member(document, key) {
        Some(field) => match field.items {
            Some(items) => Some(notations_of(items)),
            None => None,
        },
        None => None,
    }
}

/// The record that a document describes. Its relevance is one: a stored
/// payload knows nothing of a query, and the search sets the score.
pub open spec fn record_of(document: JsonDocumentView) -> PackageView {
    PackageView {
        package_id: text_member(document, "package_id"@),
        package_name: text_member(document, "package_name"@),
        version: text_member(document, "version"@),
        description: text_member(document, "description"@),
        homepage: text_member(document, "homepage"@),
        license: license_member(document),
        attribute_path: text_member(document, "attribute_path"@),
        category: text_member(document, "category"@),
        broken: flag_member(document, "broken"@, false),
        unfree: flag_member(document, "unfree"@, false),
        available: flag_member(document, "available"@, true),
        relevance_score: Ratio::whole(1),
        maintainers: notation_list_member(document, "maintainers"@),
        platforms: text_list_member(document, "platforms"@),
        long_description: optional_text_member(document, "long_description"@),
        main_program: optional_text_member(document, "main_program"@),
        position: optional_text_member(document, "position"@),
        outputs_to_install: text_list_member(document, "outputs_to_install"@),
        last_updated: optional_text_member(document, "last_updated"@),
    }
}

/// Why a payload gave no record.
#[derive(Debug, Clone, Copy, PartialEq, Eq)]
pub enum PayloadFault {
    /// Decompression failed with and without the dictionary.
    Corrupt,
    /// The decompressed bytes are not UTF-8.
    NotText,
    /// The text is not JSON.
    NotJson,
}

/// What hydration makes of a payload.
pub open spec fn hydrated(data: Seq<u8>, dictionary: Option<Seq<u8>>) -> Result<
    PackageView,
    PayloadFault,
> {
    match payload_bytes(data, dictionary) {
        None => Err(PayloadFault::Corrupt),
        Some(bytes) => if !valid_utf8(bytes) {
            Err(PayloadFault::NotText)
        } else {
            match json_document(decode_utf8(bytes)) {
                None => Err(PayloadFault::NotJson),
                Some(document) => Ok(record_of(document)),
            }
        },
    }
}

/// The member of the document that `key` names.
pub fn find_member<'a>(document: &'a JsonDocument, key: &str) -> (r: Option<&'a JsonField>)
    ensures
        match r {
            Some(field) => member(document@, key@) == Some(field@),
            None => member(document@, key@) is None,
        },
{
    match &document.members {
        None => None,
        Some(members) => {
            let ghost all = document@.members->0;
            let mut i: usize = 0;
            while i < members.len()
                invariant
                    i <= members.len(),
                    document.members == Some(*members),
                    all == document@.members->0,
                    all.len() == members.len(),
                    forall|j: int| 0 <= j < i ==> all[j].key != key@,
                decreases members.len() - i,
            {
                assert(all[i as int] == members[i as int]@);
                if same_text(members[i].key.as_str(), key) {
                    proof {
                        let c = choose|c: int| member_at(all, key@, c);
                        assert(member_at(all, key@, i as int));
                        if c < i {
                            assert(all[c].key != key@);
                        } else if i < c {
                            assert(all[i as int].key != key@);
                        }
                    }
                    return Some(&members[i]);
                }
                i += 1;
            }
            None
        },
    }
}

/// The string under `key`, or the empty text.
fn text_of(document: &JsonDocument, key: &str) -> (r: String)
    ensures
        r@ == text_member(document@, key@),
{
    match optional_text_of(document, key) {
        Some(text) => text,
        None => String::new(),
    }
}

/// The string under `key`, if there is one.
fn optional_text_of(document: &JsonDocument, key: &str) -> (r: Option<String>)
    ensures
        r.deep_view() == optional_text_member(document@, key@),
{
    match find_member(document, key) {
        Some(field) => copy_text(&field.text),
        None => None,
    }
}

/// The boolean under `key`, or `absent`.
fn flag_of(document: &JsonDocument, key: &str, absent: bool) -> (r: bool)
    ensures
        r == flag_member(document@, key@, absent),
{
    match find_member(document, key) {
        Some(field) => match field.flag {
            Some(flag) => flag,
            None => absent,
        },
        None => absent,
    }
}

/// The license of the document.
fn license_of(document: &JsonDocument) -> (r: String)
    ensures
        r@ == license_member(document@),
{
    match find_member(document, "license") {
        Some(field) => match &field.text {
            Some(text) => text.clone(),
            None => field.json.clone(),
        },
        None => String::new(),
    }
}

/// The strings among `items`, in order.
fn collect_texts(items: &Vec<JsonItem>) -> (r: Vec<String>)
    ensures
        r.deep_view() == texts_of(crate::json::item_views(items@)),
{
    let ghost all = crate::json::item_views(items@);
    let ghost is_text = |item: JsonItemView| item.text is Some;
    let ghost unwrap = |item: JsonItemView| item.text->0;
    let mut out: Vec<String> = Vec::new();
    let mut i: usize = 0;
    assert(all.take(0).filter(is_text) =~= Seq::empty()) by {
        reveal(Seq::filter);
    }
    while i < items.len()
        invariant
            i <= items.len(),
            all == crate::json::item_views(items@),
            is_text == |item: JsonItemView| item.text is Some,
            unwrap == |item: JsonItemView| item.text->0,
            out.deep_view() == all.take(i as int).filter(is_text).map_values(unwrap),
        decreases items.len() - i,
    {
        proof {
            assert(all.take(i + 1) =~= all.take(i as int).push(all[i as int]));
            all.take(i as int).lemma_filter_push(all[i as int], is_text);
            assert(all[i as int] == items[i as int]@);
        }
        match &items[i].text {
            Some(text) => {
                let ghost before = out.deep_view();
                let copy = text.clone();
                out.push(copy);
                assert(out.deep_view() =~= before.push(copy@));
                assert(all.take(i + 1).filter(is_text).map_values(unwrap) =~= all.take(
                    i as int,
                ).filter(is_text).map_values(unwrap).push(copy@));
            },
            None => {},
        }
        i += 1;
    }
    assert(all.take(items.len() as int) =~= all);
    out
}

/// The JSON notation of each of `items`, in order.
fn collect_notations(items: &Vec<JsonItem>) -> (r: Vec<String>)
    ensures
        r.deep_view() == notations_of(crate::json::item_views(items@)),
{
    let mut out: Vec<String> = Vec::new();
    let mut i: usize = 0;
    while i < items.len()
        invariant
            i <= items.len(),
            out.len() == i,
            forall|j: int| 0 <= j < i ==> out[j]@ == items[j]@.json,
        decreases items.len() - i,
    {
        out.push(items[i].json.clone());
        i += 1;
    }
    assert(out.deep_view() =~= notations_of(crate::json::item_views(items@)));
    out
}

/// The strings of the array under `key`, if there is an array.
fn text_list_of(document: &JsonDocument, key: &str) -> (r: Option<Vec<String>>)
    ensures
        r.deep_view() == text_list_member(document@, key@),
{
    match find_member(document, key) {
        Some(field) => match &field.items {
            Some(items) => Some(collect_texts(items)),
            None => None,
        },
        None => None,
    }
}

/// The elements of the array under `key` in JSON notation, if there is an
/// array.
fn notation_list_of(document: &JsonDocument, key: &str) -> (r: Option<Vec<String>>)
    ensures
        r.deep_view() == notation_list_member(document@, key@),
{
    match find_member(document, key) {
        Some(field) => match &field.items {
            Some(items) => Some(collect_notations(items)),
            None => None,
        },
        None => None,
    }
}

/// Fills a record from a document. A text that the document lacks is empty,
/// a record is broken or unfree only where the document says so, and
/// available unless it says otherwise.
pub fn record_from_document(document: &JsonDocument) -> (r: Package)
    ensures
        r@ == record_of(document@),
        r.relevance_score == (Score { num: 1, den: 1 }),
{
    Package {
        package_id: text_of(document, "package_id"),
        package_name: text_of(document, "package_name"),
        version: text_of(document, "version"),
        description: text_of(document, "description"),
        homepage: text_of(document, "homepage"),
        license: license_of(document),
        attribute_path: text_of(document, "attribute_path"),
        category: text_of(document, "category"),
        broken: flag_of(document, "broken", false),
        unfree: flag_of(document, "unfree", false),
        available: flag_of(document, "available", true),
        relevance_score: Score::one(),
        maintainers: notation_list_of(document, "maintainers"),
        platforms: text_list_of(document, "platforms"),
        long_description: optional_text_of(document, "long_description"),
        main_program: optional_text_of(document, "main_program"),
        position: optional_text_of(document, "position"),
        outputs_to_install: text_list_of(document, "outputs_to_install"),
        last_updated: optional_text_of(document, "last_updated"),
    }
}

/// Rebuilds the record that a payload holds.
pub fn hydrate(data: &[u8], dictionary: &Option<Vec<u8>>) -> (r: Result<Package, PayloadFault>)
    ensures
        match r {
            Ok(record) => hydrated(data@, optional_bytes(*dictionary)) == Ok::<
                PackageView,
                PayloadFault,
            >(record@),
            Err(fault) => hydrated(data@, optional_bytes(*dictionary)) == Err::<
                PackageView,
                PayloadFault,
            >(fault),
        },
{
    match decompress_payload(data, dictionary) {
        None => Err(PayloadFault::Corrupt),
        Some(bytes) => match text_from_utf8(bytes.as_slice()) {
            None => Err(PayloadFault::NotText),
            Some(text) => match parse_json(text.as_str()) {
                None => Err(PayloadFault::NotJson),
                Some(document) => Ok(record_from_document(&document)),
            },
        },
    }
}

} // verus!

verus! {

/// The compressed record store: the shared dictionary, loaded once and never
/// changed afterwards.
#[derive(Debug, Clone, PartialEq, Eq)]
pub struct RecordStore {
    dictionary: Option<Vec<u8>>,
}

/// What hydration makes of one hit: the stored record with the hit's score,
/// or the reason why the hit is dropped.
pub open spec fn hydrated_hit(
    hit: PackageView,
    payload: Option<Seq<u8>>,
    dictionary: Option<Seq<u8>>,
) -> Option<PackageView> {
    match payload {
        None => None,
        Some(data) => match hydrated(data, dictionary) {
            Ok(record) => Some(record.with_score(hit.relevance_score)),
            Err(_) => None,
        },
    }
}

/// The hits that hydrate, in order, each as its stored record with the
/// hit's score.
pub open spec fn hydrated_hits(
    hits: Seq<PackageView>,
    payloads: Seq<Option<Seq<u8>>>,
    dictionary: Option<Seq<u8>>,
) -> Seq<PackageView> {
    Seq::new(hits.len(), |i: int| hydrated_hit(hits[i], payloads[i], dictionary)).filter(
        |r: Option<PackageView>| r is Some,
    ).map_values(|r: Option<PackageView>| r->0)
}

/// The bytes of each payload that was found.
pub open spec fn payload_views(payloads: Seq<Option<Vec<u8>>>) -> Seq<Option<Seq<u8>>> {
    payloads.map_values(|p: Option<Vec<u8>>| optional_bytes(p))
}

/// A payload that decompresses to a JSON text hydrates to the record that
/// the text describes, field for field; and the record of a hit differs
/// from it in the relevance alone, which is that of the hit.
pub proof fn lemma_hydration_is_field_for_field(
    hit: PackageView,
    data: Seq<u8>,
    dictionary: Option<Seq<u8>>,
    bytes: Seq<u8>,
    document: JsonDocumentView,
)
    requires
        payload_bytes(data, dictionary) == Some(bytes),
        valid_utf8(bytes),
        json_document(decode_utf8(bytes)) == Some(document),
    ensures
        hydrated(data, dictionary) == Ok::<PackageView, PayloadFault>(record_of(document)),
        hydrated_hit(hit, Some(data), dictionary) == Some(
            record_of(document).with_score(hit.relevance_score),
        ),
        record_of(document).with_score(hit.relevance_score).with_score(Ratio::whole(1))
            == record_of(document),
{
}

impl RecordStore {
    /// The dictionary that the store decompresses with.
    pub closed spec fn dictionary(self) -> Option<Seq<u8>> {
        optional_bytes(self.dictionary)
    }

    /// A store that decompresses with `dictionary`.
    pub fn new(dictionary: Option<Vec<u8>>) -> (r: RecordStore)
        ensures
            r.dictionary() == optional_bytes(dictionary),
    {
        RecordStore { dictionary }
    }

    /// Whether the store has a dictionary.
    pub fn has_dictionary(&self) -> (r: bool)
        ensures
            r == self.dictionary() is Some,
    {
        self.dictionary.is_some()
    }

    /// Rebuilds the record stored under `id`, given the payload that the
    /// lookup of `id` found.
    ///
    /// A lookup that found nothing gives `RecordNotFound`; a payload that
    /// does not decompress, or does not hold a JSON text, gives
    /// `DecompressionFailed`. Both name `id`.
    pub fn hydrate(&self, id: &String, payload: Option<&[u8]>) -> (r: Result<Package, SearchError>)
        ensures
            match payload {
                None => r matches Err(SearchError::RecordNotFound(named)) && named@ == id@,
                Some(data) => match hydrated(data@, self.dictionary()) {
                    Ok(record) => r matches Ok(found) && found@ == record,
                    Err(_) => r matches Err(SearchError::DecompressionFailed(named)) && named@
                        == id@,
                },
            },
    {
        match payload {
            None => Err(SearchError::RecordNotFound(id.clone())),
            Some(data) => match hydrate(data, &self.dictionary) {
                Ok(record) => Ok(record),
                Err(_) => Err(SearchError::DecompressionFailed(id.clone())),
            },
        }
    }

    /// Rebuilds the records of a list of hits, given for every hit the
    /// payload that the lookup of its identifier found. A hit without a
    /// payload, or with one that gives no record, is dropped; the others
    /// keep their order, and every record gets the score of its hit.
    pub fn hydrate_hits(&self, hits: &Vec<Package>, payloads: &Vec<Option<Vec<u8>>>) -> (out: Vec<
        Package,
    >)
        requires
            hits.len() == payloads.len(),
        ensures
            crate::package::views(out@) == hydrated_hits(
                crate::package::views(hits@),
                payload_views(payloads@),
                self.dictionary(),
            ),
            out.len() <= hits.len(),
    {
        let ghost all = Seq::new(
            hits.len() as nat,
            |i: int|
                hydrated_hit(
                    crate::package::views(hits@)[i],
                    payload_views(payloads@)[i],
                    self.dictionary(),
                ),
        );
        let ghost found = |r: Option<PackageView>| r is Some;
        let ghost unwrap = |r: Option<PackageView>| r->0;
        let mut out: Vec<Package> = Vec::new();
        let mut i: usize = 0;
        assert(all.take(0).filter(found) =~= Seq::empty()) by {
            reveal(Seq::filter);
        }
        while i < hits.len()
            invariant
                i <= hits.len(),
                hits.len() == payloads.len(),
                all.len() == hits.len(),
                forall|j: int|
                    0 <= j < hits.len() ==> all[j] == hydrated_hit(
                        hits[j]@,
                        optional_bytes(payloads[j]),
                        self.dictionary(),
                    ),
                found == |r: Option<PackageView>| r is Some,
                unwrap == |r: Option<PackageView>| r->0,
                crate::package::views(out@) == all.take(i as int).filter(found).map_values(unwrap),
                out.len() <= i,
            decreases hits.len() - i,
        {
            proof {
                assert(all.take(i + 1) =~= all.take(i as int).push(all[i as int]));
                all.take(i as int).lemma_filter_push(all[i as int], found);
            }
            let rebuilt = match &payloads[i] {
                Some(data) => hydrate(data.as_slice(), &self.dictionary),
                None => Err(PayloadFault::Corrupt),
            };
            match rebuilt {
                Ok(record) => {
                    let ghost before = crate::package::views(out@);
                    let mut scored = record;
                    scored.relevance_score = hits[i].relevance_score;
                    out.push(scored);
                    assert(crate::package::views(out@) =~= before.push(scored@));
                    assert(all.take(i + 1).filter(found).map_values(unwrap) =~= all.take(
                        i as int,
                    ).filter(found).map_values(unwrap).push(scored@));
                },
                Err(_) => {},
            }
            i += 1;
        }
        assert(all.take(hits.len() as int) =~= all);
        assert(all =~= Seq::new(
            crate::package::views(hits@).len(),
            |i: int|
                hydrated_hit(
                    crate::package::views(hits@)[i],
                    payload_views(payloads@)[i],
                    self.dictionary(),
                ),
        ));
        out
    }
}

} // verus!
