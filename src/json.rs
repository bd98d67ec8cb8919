//! JSON values and the conversion of reply values into them.
use vstd::prelude::*;
use crate::reply::{ReplyKey, ReplyValue};
use crate::text::{int_string, int_text};

verus! {

/// A JSON value. Object entries keep their order and have distinct keys.
#[derive(Debug, PartialEq)]
pub enum Json {
    Null,
    Bool(bool),
    Int(i64),
    /// A finite double, held as its IEEE 754 bit pattern.
    Float(u64),
    Str(String),
    Array(Vec<Json>),
    Object(Vec<(String, Json)>),
}

/// The mathematical content of a [`Json`] value.
pub enum JsonModel {
    Null,
    Bool(bool),
    Int(int),
    Float(u64),
    Str(Seq<char>),
    Array(Seq<JsonModel>),
    Object(Seq<(Seq<char>, JsonModel)>),
}

pub open spec fn json_view(j: Json) -> JsonModel
    decreases j,
{
    match j {
        Json::Null => JsonModel::Null,
        Json::Bool(b) => JsonModel::Bool(b),
        Json::Int(i) => JsonModel::Int(i as int),
        Json::Float(f) => JsonModel::Float(f),
        Json::Str(s) => JsonModel::Str(s@),
        Json::Array(items) => JsonModel::Array(json_seq_view(items@)),
        Json::Object(entries) => JsonModel::Object(entries_view(entries@)),
    }
}

pub open spec fn json_seq_view(s: Seq<Json>) -> Seq<JsonModel>
    decreases s,
{
    if s.len() == 0 {
        Seq::empty()
    } else {
        json_seq_view(s.subrange(0, s.len() - 1)).push(json_view(s[s.len() - 1]))
    }
}

pub open spec fn entries_view(s: Seq<(String, Json)>) -> Seq<(Seq<char>, JsonModel)>
    decreases s,
{
    if s.len() == 0 {
        Seq::empty()
    } else {
        entries_view(s.subrange(0, s.len() - 1)).push(
            (s[s.len() - 1].0@, json_view(s[s.len() - 1].1)),
        )
    }
}

impl Json {
    pub open spec fn view(&self) -> JsonModel {
        json_view(*self)
    }
}

/// No two entries of an object share a key.
pub open spec fn keys_unique(e: Seq<(Seq<char>, JsonModel)>) -> bool {
    forall|i: int, j: int|
        0 <= i < e.len() && 0 <= j < e.len() && i != j ==> #[trigger] e[i].0 != #[trigger] e[j].0
}

pub open spec fn has_key(e: Seq<(Seq<char>, JsonModel)>, k: Seq<char>) -> bool {
    exists|i: int| 0 <= i < e.len() && #[trigger] e[i].0 == k
}

/// Setting key `k` of an object: an entry with that key takes the new value in
/// place, otherwise the entry goes at the end.
pub open spec fn obj_insert(e: Seq<(Seq<char>, JsonModel)>, k: Seq<char>, v: JsonModel) -> Seq<
    (Seq<char>, JsonModel),
> {
    if has_key(e, k) {
        e.update(choose|i: int| 0 <= i < e.len() && #[trigger] e[i].0 == k, (k, v))
    } else {
        e.push((k, v))
    }
}

/// What `String::from_utf8` gives for these bytes: the text when they are
/// valid UTF-8, else nothing.
pub uninterp spec fn utf8_decoded(b: Seq<u8>) -> Option<Seq<char>>;

/// What `{:?}` gives for a byte vector.
pub uninterp spec fn bytes_debug_text(b: Seq<u8>) -> Seq<char>;

/// The JSON text of a string value, quotes and escapes included.
pub uninterp spec fn json_quoted(s: Seq<char>) -> Seq<char>;

/// Relies on `String::from_utf8`: the decoded text exactly when the bytes are
/// valid UTF-8.
#[verifier::external_body]
fn decode_utf8(b: &Vec<u8>) -> (r: Option<String>)
    ensures
        match r {
            Some(s) => utf8_decoded(b@) == Some(s@),
            None => utf8_decoded(b@) is None,
        },
{
    String::from_utf8(b.clone()).ok()
}

/// Relies on the `Debug` formatting of `Vec<u8>`, a function of the bytes.
#[verifier::external_body]
fn debug_bytes(b: &Vec<u8>) -> (r: String)
    ensures
        r@ == bytes_debug_text(b@),
{
    format!("{:?}", b)
}

/// Relies on `serde_json::Value::String` and its `Display`, which writes the
/// string as JSON text.
#[verifier::external_body]
fn quote_json(s: &String) -> (r: String)
    ensures
        r@ == json_quoted(s@),
{
    serde_json::Value::String(s.clone()).to_string()
}

/// Text of a binary blob: its UTF-8 decoding, or a stable debug rendering of
/// the bytes when they are not valid UTF-8.
pub open spec fn blob_text(b: Seq<u8>) -> Seq<char> {
    match utf8_decoded(b) {
        Some(t) => t,
        None => bytes_debug_text(b),
    }
}

/// Whether a double's bit pattern denotes a finite number.
pub open spec fn float_is_finite(bits: u64) -> bool {
    (bits >> 52u64) & 0x7ffu64 != 0x7ffu64
}

/// The text that a non-finite double displays as.
pub open spec fn float_special_text(bits: u64) -> Seq<char> {
    if bits & 0xf_ffff_ffff_ffffu64 != 0 {
        "NaN"@
    } else if bits >> 63u64 == 1 {
        "-inf"@
    } else {
        "inf"@
    }
}

pub open spec fn key_json(k: ReplyKey) -> JsonModel {
    match k {
        ReplyKey::Integer(i) => JsonModel::Int(i as int),
        ReplyKey::String(s) => JsonModel::Str(s@),
        ReplyKey::BinaryBlob(b) => JsonModel::Str(blob_text(b@)),
        ReplyKey::Boolean(b) => JsonModel::Bool(b),
    }
}

/// The JSON text of a key's JSON value, used as an object key.
pub open spec fn key_text(k: ReplyKey) -> Seq<char> {
    match k {
        ReplyKey::Integer(i) => int_text(i as int),
        ReplyKey::String(s) => json_quoted(s@),
        ReplyKey::BinaryBlob(b) => json_quoted(blob_text(b@)),
        ReplyKey::Boolean(b) => if b {
            "true"@
        } else {
            "false"@
        },
    }
}

pub open spec fn key_seq_json(s: Seq<ReplyKey>) -> Seq<JsonModel> {
    s.map_values(|k: ReplyKey| key_json(k))
}

/// The JSON value of a reply.
pub open spec fn reply_json(v: ReplyValue) -> JsonModel
    decreases v,
{
    match v {
        ReplyValue::Null => JsonModel::Null,
        ReplyValue::NoReply => JsonModel::Null,
        ReplyValue::Boolean(b) => JsonModel::Bool(b),
        ReplyValue::Integer(i) => JsonModel::Int(i as int),
        ReplyValue::Float(bits) => if float_is_finite(bits) {
            JsonModel::Float(bits)
        } else {
            JsonModel::Str(float_special_text(bits))
        },
        ReplyValue::SimpleString(s) => JsonModel::Str(s@),
        ReplyValue::BulkString(s) => JsonModel::Str(s@),
        ReplyValue::BinaryBlob(b) => JsonModel::Str(blob_text(b@)),
        ReplyValue::BigNumber(s) => JsonModel::Str(s@),
        ReplyValue::VerbatimString(s) => JsonModel::Str(s@),
        ReplyValue::Error(s) => JsonModel::Str(s@),
        ReplyValue::Array(items) => JsonModel::Array(reply_seq_json(items@)),
        ReplyValue::UnorderedSet(keys) => JsonModel::Array(key_seq_json(keys@)),
        ReplyValue::UnorderedMap(entries) => JsonModel::Object(object_of(entries@)),
        ReplyValue::OrderedMap(entries) => JsonModel::Object(object_of(entries@)),
        ReplyValue::OrderedSet(keys) => JsonModel::Array(key_seq_json(keys@)),
    }
}

pub open spec fn reply_seq_json(s: Seq<ReplyValue>) -> Seq<JsonModel>
    decreases s,
{
    if s.len() == 0 {
        Seq::empty()
    } else {
        reply_seq_json(s.subrange(0, s.len() - 1)).push(reply_json(s[s.len() - 1]))
    }
}

/// The object that a sequence of entries builds, each entry set in turn.
pub open spec fn object_of(s: Seq<(ReplyKey, ReplyValue)>) -> Seq<(Seq<char>, JsonModel)>
    decreases s,
{
    if s.len() == 0 {
        Seq::empty()
    } else {
        obj_insert(
            object_of(s.subrange(0, s.len() - 1)),
            key_text(s[s.len() - 1].0),
            reply_json(s[s.len() - 1].1),
        )
    }
}

proof fn lemma_json_seq_view(s: Seq<Json>)
    ensures
        json_seq_view(s).len() == s.len(),
        forall|i: int| 0 <= i < s.len() ==> #[trigger] json_seq_view(s)[i] == json_view(s[i]),
    decreases s.len(),
{
    if s.len() > 0 {
        lemma_json_seq_view(s.subrange(0, s.len() - 1));
    }
}

pub(crate) proof fn lemma_entries_view(s: Seq<(String, Json)>)
    ensures
        entries_view(s).len() == s.len(),
        forall|i: int|
            0 <= i < s.len() ==> #[trigger] entries_view(s)[i] == (s[i].0@, json_view(s[i].1)),
    decreases s.len(),
{
    if s.len() > 0 {
        lemma_entries_view(s.subrange(0, s.len() - 1));
    }
}

proof fn lemma_reply_seq_json(s: Seq<ReplyValue>)
    ensures
        reply_seq_json(s).len() == s.len(),
        forall|i: int| 0 <= i < s.len() ==> #[trigger] reply_seq_json(s)[i] == reply_json(s[i]),
    decreases s.len(),
{
    if s.len() > 0 {
        lemma_reply_seq_json(s.subrange(0, s.len() - 1));
    }
}

proof fn lemma_obj_insert_unique(e: Seq<(Seq<char>, JsonModel)>, k: Seq<char>, v: JsonModel)
    requires
        keys_unique(e),
    ensures
        keys_unique(obj_insert(e, k, v)),
{
    let r = obj_insert(e, k, v);
    if has_key(e, k) {
        let c = choose|i: int| 0 <= i < e.len() && #[trigger] e[i].0 == k;
        assert forall|i: int| 0 <= i < r.len() implies #[trigger] r[i].0 == e[i].0 by {
            if i == c {
                assert(r[i].0 == k);
            }
        }
    } else {
        assert forall|i: int, j: int|
            0 <= i < r.len() && 0 <= j < r.len() && i != j implies #[trigger] r[i].0
            != #[trigger] r[j].0 by {
            if i == e.len() {
                assert(e[j].0 != k);
            } else if j == e.len() {
                assert(e[i].0 != k);
            } else {
                assert(e[i].0 != e[j].0);
            }
        }
    }
}

/// Sets key `k` of an object to `v`, in place when the key is there already.
fn object_set(entries: &mut Vec<(String, Json)>, k: String, v: Json)
    requires
        keys_unique(entries_view(old(entries)@)),
    ensures
        entries_view(final(entries)@) == obj_insert(entries_view(old(entries)@), k@, json_view(v)),
        keys_unique(entries_view(final(entries)@)),
{
    let ghost ev = entries_view(entries@);
    proof {
        lemma_entries_view(entries@);
        lemma_obj_insert_unique(ev, k@, json_view(v));
    }
    let mut j: usize = 0;
    while j < entries.len()
        invariant
            j <= entries@.len(),
            entries@ == old(entries)@,
            ev == entries_view(entries@),
            ev.len() == entries@.len(),
            keys_unique(ev),
            forall|i: int| 0 <= i < entries@.len() ==> #[trigger] ev[i] == (entries@[i].0@, json_view(entries@[i].1)),
            forall|i: int| 0 <= i < j ==> #[trigger] ev[i].0 != k@,
        decreases entries@.len() - j,
    {
        if entries[j].0 == k {
            let ghost old_seq = entries@;
            assert(ev[j as int].0 == k@);
            assert(has_key(ev, k@));
            let ghost c = choose|i: int| 0 <= i < ev.len() && #[trigger] ev[i].0 == k@;
            assert(c == j);
            let ghost jv = json_view(v);
            entries.set(j, (k, v));
            proof {
                lemma_entries_view(entries@);
                assert(entries_view(entries@) =~= ev.update(j as int, (k@, jv)));
            }
            return;
        }
        j = j + 1;
    }
    assert(!has_key(ev, k@));
    let ghost old_seq = entries@;
    entries.push((k, v));
    assert(entries@.subrange(0, entries@.len() - 1) =~= old_seq);
}

/// Text of a binary blob: its UTF-8 decoding when valid, else the debug
/// rendering of its bytes.
pub fn blob_string(b: &Vec<u8>) -> (r: String)
    ensures
        r@ == blob_text(b@),
{
    match decode_utf8(b) {
        Some(s) => s,
        None => debug_bytes(b),
    }
}

/// The JSON value of a set member or map key.
pub fn key_to_json(k: &ReplyKey) -> (r: Json)
    ensures
        json_view(r) == key_json(*k),
{
    match k {
        ReplyKey::Integer(i) => Json::Int(*i),
        ReplyKey::String(s) => Json::Str(s.clone()),
        ReplyKey::BinaryBlob(b) => Json::Str(blob_string(b)),
        ReplyKey::Boolean(b) => Json::Bool(*b),
    }
}

/// The object key for a map key: the JSON text of the key's JSON value.
pub fn key_json_text(k: &ReplyKey) -> (r: String)
    ensures
        r@ == key_text(*k),
{
    match k {
        ReplyKey::Integer(i) => int_string(*i),
        ReplyKey::String(s) => quote_json(s),
        ReplyKey::BinaryBlob(b) => quote_json(&blob_string(b)),
        ReplyKey::Boolean(b) => if *b {
            String::from_str("true")
        } else {
            String::from_str("false")
        },
    }
}

fn keys_to_json(keys: &Vec<ReplyKey>) -> (r: Vec<Json>)
    ensures
        json_seq_view(r@) == key_seq_json(keys@),
{
    let mut out: Vec<Json> = Vec::new();
    let mut i: usize = 0;
    while i < keys.len()
        invariant
            i <= keys@.len(),
            out@.len() == i,
            forall|j: int| 0 <= j < i ==> #[trigger] json_view(out@[j]) == key_json(keys@[j]),
        decreases keys@.len() - i,
    {
        let x = key_to_json(&keys[i]);
        out.push(x);
        i = i + 1;
    }
    proof {
        lemma_json_seq_view(out@);
        assert(json_seq_view(out@) =~= key_seq_json(keys@));
    }
    out
}

/// The JSON value of a double given by its bit pattern: the number when it is
/// finite, else the text it displays as.
pub fn float_to_json(bits: u64) -> (r: Json)
    ensures
        json_view(r) == (if float_is_finite(bits) {
            JsonModel::Float(bits)
        } else {
            JsonModel::Str(float_special_text(bits))
        }),
{
    if (bits >> 52u64) & 0x7ffu64 != 0x7ffu64 {
        Json::Float(bits)
    } else if bits & 0xf_ffff_ffff_ffffu64 != 0 {
        Json::Str(String::from_str("NaN"))
    } else if bits >> 63u64 == 1 {
        Json::Str(String::from_str("-inf"))
    } else {
        Json::Str(String::from_str("inf"))
    }
}

fn entries_to_object(entries: &Vec<(ReplyKey, ReplyValue)>) -> (r: Vec<(String, Json)>)
    ensures
        entries_view(r@) == object_of(entries@),
    decreases entries,
{
    let mut out: Vec<(String, Json)> = Vec::new();
    let mut i: usize = 0;
    assert(entries@.subrange(0, 0) =~= Seq::<(ReplyKey, ReplyValue)>::empty());
    while i < entries.len()
        invariant
            i <= entries@.len(),
            entries_view(out@) == object_of(entries@.subrange(0, i as int)),
            keys_unique(entries_view(out@)),
        decreases entries@.len() - i,
    {
        let k = key_json_text(&entries[i].0);
        assert(decreases_to!(entries => entries@[i as int].1));
        let v = to_json(&entries[i].1);
        object_set(&mut out, k, v);
        assert(entries@.subrange(0, i + 1).subrange(0, i as int) =~= entries@.subrange(0, i as int));
        i = i + 1;
    }
    assert(entries@.subrange(0, entries@.len() as int) =~= entries@);
    out
}

fn items_to_json(items: &Vec<ReplyValue>) -> (r: Vec<Json>)
    ensures
        json_seq_view(r@) == reply_seq_json(items@),
    decreases items,
{
    let mut out: Vec<Json> = Vec::new();
    let mut i: usize = 0;
    while i < items.len()
        invariant
            i <= items@.len(),
            out@.len() == i,
            forall|j: int| 0 <= j < i ==> #[trigger] json_view(out@[j]) == reply_json(items@[j]),
        decreases items@.len() - i,
    {
        assert(decreases_to!(items => items@[i as int]));
        let x = to_json(&items[i]);
        out.push(x);
        i = i + 1;
    }
    proof {
        lemma_json_seq_view(out@);
        lemma_reply_seq_json(items@);
        assert(json_seq_view(out@) =~= reply_seq_json(items@));
    }
    out
}

/// Converts a reply into its JSON value.
///
/// Nulls become null, numbers and booleans stay as they are, text becomes a
/// JSON string, arrays and sets become arrays in their order, and maps become
/// objects keyed by the JSON text of each key; a later entry whose key text
/// equals an earlier one's replaces its value.
pub fn to_json(v: &ReplyValue) -> (r: Json)
    ensures
        json_view(r) == reply_json(*v),
    decreases v,
{
    match v {
        ReplyValue::Null => Json::Null,
        ReplyValue::NoReply => Json::Null,
        ReplyValue::Boolean(b) => Json::Bool(*b),
        ReplyValue::Integer(i) => Json::Int(*i),
        ReplyValue::Float(bits) => float_to_json(*bits),
        ReplyValue::SimpleString(s) => Json::Str(s.clone()),
        ReplyValue::BulkString(s) => Json::Str(s.clone()),
        ReplyValue::BinaryBlob(b) => Json::Str(blob_string(b)),
        ReplyValue::BigNumber(s) => Json::Str(s.clone()),
        ReplyValue::VerbatimString(s) => Json::Str(s.clone()),
        ReplyValue::Error(s) => Json::Str(s.clone()),
        ReplyValue::Array(items) => Json::Array(items_to_json(items)),
        ReplyValue::UnorderedSet(keys) => Json::Array(keys_to_json(keys)),
        ReplyValue::UnorderedMap(entries) => Json::Object(entries_to_object(entries)),
        ReplyValue::OrderedMap(entries) => Json::Object(entries_to_object(entries)),
        ReplyValue::OrderedSet(keys) => Json::Array(keys_to_json(keys)),
    }
}

/// The entries of an object built from map entries whose keys have distinct
/// JSON texts: one per entry, in the same order.
pub open spec fn entries_in_order(s: Seq<(ReplyKey, ReplyValue)>) -> Seq<(Seq<char>, JsonModel)> {
    Seq::new(s.len(), |i: int| (key_text(s[i].0), reply_json(s[i].1)))
}

pub open spec fn key_texts_distinct(s: Seq<(ReplyKey, ReplyValue)>) -> bool {
    forall|i: int, j: int|
        0 <= i < s.len() && 0 <= j < s.len() && i != j ==> key_text(#[trigger] s[i].0)
            != key_text(#[trigger] s[j].0)
}

proof fn lemma_object_in_order(s: Seq<(ReplyKey, ReplyValue)>)
    requires
        key_texts_distinct(s),
    ensures
        object_of(s) == entries_in_order(s),
    decreases s.len(),
{
    if s.len() > 0 {
        let n = s.len() - 1;
        let p = s.subrange(0, n);
        assert(key_texts_distinct(p)) by {
            assert forall|i: int, j: int|
                0 <= i < p.len() && 0 <= j < p.len() && i != j implies key_text(#[trigger] p[i].0)
                != key_text(#[trigger] p[j].0) by {
                assert(p[i] == s[i] && p[j] == s[j]);
            }
        }
        lemma_object_in_order(p);
        let e = object_of(p);
        let k = key_text(s[n].0);
        assert(!has_key(e, k)) by {
            if has_key(e, k) {
                let c = choose|i: int| 0 <= i < e.len() && #[trigger] e[i].0 == k;
                assert(e[c].0 == key_text(s[c].0));
                assert(s[c] == p[c]);
            }
        }
        assert(object_of(s) =~= entries_in_order(s));
    }
}

/// An array converts element by element, in order.
pub proof fn law_array_order_kept(items: Vec<ReplyValue>)
    ensures
        reply_json(ReplyValue::Array(items)) matches JsonModel::Array(js) && js.len() == items@.len()
            && forall|i: int| 0 <= i < items@.len() ==> #[trigger] js[i] == reply_json(items@[i]),
{
    lemma_reply_seq_json(items@);
}

/// An ordered map whose keys have distinct JSON texts converts to an object
/// with one entry per map entry, in the map's order.
pub proof fn law_ordered_map_order_kept(entries: Vec<(ReplyKey, ReplyValue)>)
    requires
        key_texts_distinct(entries@),
    ensures
        reply_json(ReplyValue::OrderedMap(entries)) == JsonModel::Object(entries_in_order(entries@)),
{
    lemma_object_in_order(entries@);
}

/// A double that is NaN or infinite converts to a string, never a number.
pub proof fn law_non_finite_float_is_text(bits: u64)
    requires
        !float_is_finite(bits),
    ensures
        reply_json(ReplyValue::Float(bits)) matches JsonModel::Str(t) && (t == "NaN"@ || t == "inf"@
            || t == "-inf"@),
{
}

/// A binary blob converts to a string that depends on its bytes alone, valid
/// UTF-8 or not.
pub proof fn law_blob_deterministic(a: Vec<u8>, b: Vec<u8>)
    requires
        a@ == b@,
    ensures
        reply_json(ReplyValue::BinaryBlob(a)) is Str,
        reply_json(ReplyValue::BinaryBlob(a)) == reply_json(ReplyValue::BinaryBlob(b)),
{
}

} // verus!
