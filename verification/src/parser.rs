//! From the free text of a reply to its entries: the text between the
//! first `[` and the last `]` is decoded as an array of entries, and a
//! reply that yields none is replaced with numbered samples.

use crate::json::{into_items, is_object, json_model, json_parse, models_of, parse_document, Json};
use crate::placeholder::{generate_fallback_entries, sample_model, sample_models};
use crate::types::{models, DatasetEntry, DatasetFormat};
use vstd::prelude::*;
use vstd::slice::*;
use vstd::string::*;

verus! {

/// The byte `[`.
pub const OPENING: u8 = 0x5b;

/// The byte `]`.
pub const CLOSING: u8 = 0x5d;

/// The part of `bytes` that is decoded: from the first `[` to the last
/// `]`, both kept, where the text has both in this order, and all of it
/// otherwise.
pub open spec fn array_span(bytes: Seq<u8>) -> Seq<u8> {
    match (bytes.index_of_first(OPENING), bytes.index_of_last(CLOSING)) {
        (Some(start), Some(end)) => if start <= end {
            bytes.subrange(start, end + 1)
        } else {
            bytes
        },
        _ => bytes,
    }
}

/// The items of `json`, if `json` is an array and every item of it is an
/// object.
pub open spec fn array_of_objects(json: Json) -> Option<Seq<Json>> {
    match json {
        Json::Array(items) => if forall|i: int|
            0 <= i < items.len() ==> (#[trigger] items[i]) is Object {
            Some(items)
        } else {
            None
        },
        _ => None,
    }
}

/// What the entries hold that `bytes` decode to: the objects of the array
/// that `bytes` spell, if they spell an array of objects.
pub open spec fn decoded_entries(bytes: Seq<u8>) -> Option<Seq<Json>> {
    match json_parse(bytes) {
        Some(document) => array_of_objects(document),
        None => None,
    }
}

/// What the entries hold that a decoded reply stands for: the decoded
/// ones where there are any, and `expected_count` samples where decoding
/// failed or gave an empty array.
pub open spec fn entries_or_samples(
    decoded: Option<Seq<Json>>,
    expected_count: nat,
    format: DatasetFormat,
) -> Seq<Json> {
    match decoded {
        Some(entries) => if entries.len() > 0 {
            entries
        } else {
            sample_models(format, expected_count)
        },
        None => sample_models(format, expected_count),
    }
}

/// What the entries of the reply `bytes` hold.
pub open spec fn reply_entries(bytes: Seq<u8>, expected_count: nat, format: DatasetFormat) -> Seq<
    Json,
> {
    entries_or_samples(decoded_entries(array_span(bytes)), expected_count, format)
}

/// The position of the first `needle` in `bytes`.
pub fn find_first(bytes: &[u8], needle: u8) -> (found: Option<usize>)
    ensures
        found is Some <==> bytes@.index_of_first(needle) is Some,
        found is Some ==> bytes@.index_of_first(needle) == Some(found->Some_0 as int),
        found is Some ==> found->Some_0 < bytes.len() && bytes[found->Some_0 as int] == needle,
{
    proof {
        bytes@.index_of_first_ensures(needle);
    }
    let mut i: usize = 0;
    while i < bytes.len()
        invariant
            i <= bytes.len(),
            forall|j: int| 0 <= j < i ==> bytes[j] != needle,
        decreases bytes.len() - i,
    {
        if bytes[i] == needle {
            proof {
                assert(bytes@.contains(needle));
                bytes@.index_of_first_ensures(needle);
            }
            return Some(i);
        }
        i = i + 1;
    }
    assert(!bytes@.contains(needle));
    None
}

/// The position of the last `needle` in `bytes`.
pub fn find_last(bytes: &[u8], needle: u8) -> (found: Option<usize>)
    ensures
        found is Some <==> bytes@.index_of_last(needle) is Some,
        found is Some ==> bytes@.index_of_last(needle) == Some(found->Some_0 as int),
        found is Some ==> found->Some_0 < bytes.len() && bytes[found->Some_0 as int] == needle,
{
    proof {
        bytes@.index_of_last_ensures(needle);
    }
    let mut i: usize = bytes.len();
    while i > 0
        invariant
            i <= bytes.len(),
            forall|j: int| i <= j < bytes.len() ==> bytes[j] != needle,
        decreases i,
    {
        i = i - 1;
        if bytes[i] == needle {
            proof {
                assert(bytes@.contains(needle));
                bytes@.index_of_last_ensures(needle);
            }
            return Some(i);
        }
    }
    assert(!bytes@.contains(needle));
    None
}

/// The part of a reply that is decoded.
pub fn extract_array(bytes: &[u8]) -> (span: &[u8])
    ensures
        span@ == array_span(bytes@),
{
    match find_first(bytes, OPENING) {
        Some(start) => match find_last(bytes, CLOSING) {
            Some(end) => if start <= end {
                slice_subrange(bytes, start, end + 1)
            } else {
                bytes
            },
            None => bytes,
        },
        None => bytes,
    }
}

/// Makes an entry of each of `items` if every one of them is an object.
pub fn entries_of(items: Vec<serde_json::Value>) -> (entries: Option<Vec<DatasetEntry>>)
    ensures
        entries is Some <==> array_of_objects(Json::Array(models_of(items@))) is Some,
        entries is Some ==> models(entries->Some_0@) == models_of(items@),
{
    let mut entries: Vec<DatasetEntry> = Vec::new();
    for value in it: items
        invariant
            entries.len() == it.index(),
            it.seq() == items@,
            forall|k: int| 0 <= k < entries.len() ==> (#[trigger] entries[k]).data == items[k],
            forall|k: int| 0 <= k < entries.len() ==> (#[trigger] models_of(items@)[k]) is Object,
    {
        if !is_object(&value) {
            assert(!(models_of(items@)[entries.len() as int] is Object));
            return None;
        }
        entries.push(DatasetEntry { data: value });
    }
    assert(models(entries@) =~= models_of(items@));
    Some(entries)
}

/// Decodes `bytes` as an array of entries: a JSON array of which every
/// item is an object.
pub fn decode_entries(bytes: &[u8]) -> (entries: Option<Vec<DatasetEntry>>)
    ensures
        entries is Some <==> decoded_entries(bytes@) is Some,
        entries is Some ==> Some(models(entries->Some_0@)) == decoded_entries(bytes@),
{
    match parse_document(bytes) {
        Ok(document) => match into_items(document) {
            Some(items) => entries_of(items),
            None => None,
        },
        Err(_) => None,
    }
}

/// Chooses between what was decoded and the samples that replace it.
pub fn entries_or_fallback(
    decoded: Option<Vec<DatasetEntry>>,
    expected_count: usize,
    format: DatasetFormat,
) -> (entries: Vec<DatasetEntry>)
    ensures
        models(entries@) == entries_or_samples(
            match decoded {
                Some(d) => Some(models(d@)),
                None => None,
            },
            expected_count as nat,
            format,
        ),
        decoded is Some && decoded->Some_0.len() > 0 ==> entries@ == decoded->Some_0@,
        !(decoded is Some && decoded->Some_0.len() > 0) ==> models(entries@) == sample_models(
            format,
            expected_count as nat,
        ),
{
    match decoded {
        Some(entries) => if entries.len() > 0 {
            entries
        } else {
            generate_fallback_entries(format, expected_count)
        },
        None => generate_fallback_entries(format, expected_count),
    }
}

/// The entries of a reply. A reply that cannot be decoded is never an
/// error: it yields `expected_count` samples.
pub fn parse_generated_entries(text: &str, expected_count: usize, format: DatasetFormat) -> (entries:
    Vec<DatasetEntry>)
    ensures
        models(entries@) == reply_entries(text.spec_bytes(), expected_count as nat, format),
        decoded_entries(array_span(text.spec_bytes())) is None ==> models(entries@)
            == sample_models(format, expected_count as nat),
        forall|k: int| 0 <= k < entries.len() ==> (#[trigger] entries[k])@ is Object,
{
    let span: &[u8] = extract_array(text.as_bytes());
    let decoded: Option<Vec<DatasetEntry>> = decode_entries(span);
    let entries: Vec<DatasetEntry> = entries_or_fallback(decoded, expected_count, format);
    proof {
        assert forall|k: int| 0 <= k < entries.len() implies (#[trigger] entries[k])@ is Object by {
            if decoded is Some && decoded->Some_0.len() > 0 {
                assert(models(entries@)[k] is Object);
            } else {
                let samples = sample_models(format, expected_count as nat);
                assert(models(entries@) == samples);
                assert(samples.len() == entries.len());
                assert(samples[k] == sample_model(format, (k + 1) as nat));
                assert(entries[k]@ == models(entries@)[k]);
            }
        }
    }
    entries
}

} // verus!
