use vstd::prelude::*;

use crate::record::{lemma_skip_step, pairs_view};

verus! {

// ---------------------------------------------------------------------------
// The helper's result contract: its standard output is one JSON document,
// either `{"env": {...}, "shellvars": {...}, "error": null}` or
// `{"error": "<message>"}`.  Parsing is delegated to serde_json; what this
// module owns is the shape rule and the precedence of the error member.
// ---------------------------------------------------------------------------

#[verifier::external_type_specification]
#[verifier::external_body]
pub struct ExJsonValue(serde_json::Value);

/// Whether the text parses as a JSON document.
pub uninterp spec fn is_json_doc(s: Seq<char>) -> bool;

/// The document that parsing the text yields.  Parsing is a deterministic
/// function of the text alone; the document itself is opaque and is only
/// read through the member functions below.
pub uninterp spec fn json_doc_of(s: Seq<char>) -> serde_json::Value;

/// A member of a JSON object, read as text.  A `Null` member counts as
/// missing, because the success form of the helper's reply carries
/// `"error": null`.
pub enum TextFieldView {
    Missing,
    Text(Seq<char>),
    NotText,
}

/// A member of a JSON object, read as a nested object; `Entries` holds the
/// members of that nested object in document order, values unread.
pub enum ObjFieldView {
    Missing,
    Entries(Seq<(Seq<char>, serde_json::Value)>),
    NotObject,
}

/// What the `key` member of `v` holds when read as text.
pub uninterp spec fn text_member_of(v: serde_json::Value, key: Seq<char>) -> TextFieldView;

/// What the `key` member of `v` holds when read as an object.
pub uninterp spec fn obj_member_of(v: serde_json::Value, key: Seq<char>) -> ObjFieldView;

/// What a JSON value holds when read as text: a string's characters, and
/// nothing for any other kind of value.
pub uninterp spec fn text_of(x: serde_json::Value) -> Option<Seq<char>>;

/// Relies on serde_json::from_str::<serde_json::Value>: parsing succeeds or
/// fails, and yields its document, as a function of the input text alone.
#[verifier::external_body]
fn parse_json(s: &str) -> (r: Option<serde_json::Value>)
    ensures
        r is Some <==> is_json_doc(s@),
        r matches Some(v) ==> v == json_doc_of(s@),
{
    serde_json::from_str(s).ok()
}

/// The `key` member of a document, read as text.
pub enum TextMember {
    Missing,
    Text(String),
    NotText,
}

/// Relies on serde_json::Value::get with a string index, which yields
/// nothing when `v` is not an object or has no such member, and on matching
/// the member against the `Null` and `String` variants of
/// serde_json::Value.  Reading is a function of the value and key alone.
#[verifier::external_body]
fn read_text_member(v: &serde_json::Value, key: &str) -> (r: TextMember)
    ensures
        (match r {
            TextMember::Missing => text_member_of(*v, key@) is Missing,
            TextMember::Text(m) => text_member_of(*v, key@) == TextFieldView::Text(m@),
            TextMember::NotText => text_member_of(*v, key@) is NotText,
        }),
{
    match v.get(key) {
        None => TextMember::Missing,
        Some(serde_json::Value::Null) => TextMember::Missing,
        Some(serde_json::Value::String(m)) => TextMember::Text(m.clone()),
        Some(_) => TextMember::NotText,
    }
}

/// The `key` member of a document, read as a nested object.
pub enum ObjMember {
    Missing,
    Entries(Vec<(String, serde_json::Value)>),
    NotObject,
}

/// Relies on serde_json::Value::get with a string index and on iteration
/// over serde_json::Map, which with the preserve_order feature yields the
/// members in document order; each member is handed out as an owned pair,
/// its value untouched.  Reading is a function of the value and key alone.
#[verifier::external_body]
fn read_object_member(v: &serde_json::Value, key: &str) -> (r: ObjMember)
    ensures
        (match r {
            ObjMember::Missing => obj_member_of(*v, key@) is Missing,
            ObjMember::Entries(es) => obj_member_of(*v, key@) == ObjFieldView::Entries(
                es@.map_values(|p: (String, serde_json::Value)| (p.0@, p.1)),
            ),
            ObjMember::NotObject => obj_member_of(*v, key@) is NotObject,
        }),
{
    match v.get(key) {
        None => ObjMember::Missing,
        Some(serde_json::Value::Null) => ObjMember::Missing,
        Some(serde_json::Value::Object(m)) => ObjMember::Entries(
            m.iter().map(|(k, x)| (k.clone(), x.clone())).collect(),
        ),
        Some(_) => ObjMember::NotObject,
    }
}

/// Relies on serde_json::Value::as_str: text exactly when the value is a
/// JSON string, as a function of the value alone.
#[verifier::external_body]
fn value_text(x: &serde_json::Value) -> (r: Option<String>)
    ensures
        (match r {
            Some(t) => text_of(*x) == Some(t@),
            None => text_of(*x) is None,
        }),
{
    match x.as_str() {
        Some(t) => Some(t.to_owned()),
        None => None,
    }
}

/// The view of an owned entry list.
pub open spec fn entries_view(es: Seq<(String, serde_json::Value)>) -> Seq<
    (Seq<char>, serde_json::Value),
> {
    es.map_values(|p: (String, serde_json::Value)| (p.0@, p.1))
}

/// Read every entry's value as text, in order; nothing if any value is not
/// a JSON string.
pub open spec fn texts_of(es: Seq<(Seq<char>, serde_json::Value)>) -> Option<
    Seq<(Seq<char>, Seq<char>)>,
>
    decreases es.len(),
{
    if es.len() == 0 {
        Some(Seq::empty())
    } else {
        match text_of(es[0].1) {
            None => None,
            Some(t) => match texts_of(es.drop_first()) {
                None => None,
                Some(rest) => Some(seq![(es[0].0, t)] + rest),
            },
        }
    }
}

/// The decode outcome: not JSON at all, JSON of the wrong shape, the
/// helper's reported failure, or the two variable mappings.
pub enum DecodeView {
    NotJson,
    BadShape,
    Failure(Seq<char>),
    Success(Seq<(Seq<char>, Seq<char>)>, Seq<(Seq<char>, Seq<char>)>),
}

/// What decoding the helper's output text must yield: a parse failure is
/// `NotJson`; an error member holding text takes precedence over any data
/// members and yields `Failure`; otherwise both the `env` and `shellvars`
/// members must be objects whose values are all strings, yielding
/// `Success`; every other shape is `BadShape`.
pub open spec fn decode_spec(s: Seq<char>) -> DecodeView {
    if !is_json_doc(s) {
        DecodeView::NotJson
    } else {
        let v = json_doc_of(s);
        match text_member_of(v, "error"@) {
            TextFieldView::Text(m) => DecodeView::Failure(m),
            TextFieldView::NotText => DecodeView::BadShape,
            TextFieldView::Missing => match (
                obj_member_of(v, "env"@),
                obj_member_of(v, "shellvars"@),
            ) {
                (ObjFieldView::Entries(es), ObjFieldView::Entries(ss)) => match (
                    texts_of(es),
                    texts_of(ss),
                ) {
                    (Some(env), Some(sh)) => DecodeView::Success(env, sh),
                    _ => DecodeView::BadShape,
                },
                _ => DecodeView::BadShape,
            },
        }
    }
}

/// An error member holding a message always decodes to `Failure` with that
/// message, whatever the data members hold.
pub proof fn lemma_error_field_wins(s: Seq<char>, m: Seq<char>)
    ensures
        (is_json_doc(s) && text_member_of(json_doc_of(s), "error"@) == TextFieldView::Text(m))
            ==> decode_spec(s) == DecodeView::Failure(m),
{
}

/// The decoded form of the helper's output.
#[derive(Debug, PartialEq, Eq)]
pub enum Decoded {
    NotJson,
    BadShape,
    Failure(String),
    Success(Vec<(String, String)>, Vec<(String, String)>),
}

/// The view of a decode result.
pub open spec fn decoded_view(d: Decoded) -> DecodeView {
    match d {
        Decoded::NotJson => DecodeView::NotJson,
        Decoded::BadShape => DecodeView::BadShape,
        Decoded::Failure(m) => DecodeView::Failure(m@),
        Decoded::Success(env, sh) => DecodeView::Success(pairs_view(env@), pairs_view(sh@)),
    }
}

/// Read every entry's value as text, in order; nothing if some value is
/// not a JSON string.
fn collect_texts(es: &Vec<(String, serde_json::Value)>) -> (r: Option<Vec<(String, String)>>)
    ensures
        (match r {
            Some(out) => texts_of(entries_view(es@)) == Some(pairs_view(out@)),
            None => texts_of(entries_view(es@)) is None,
        }),
{
    let ghost ev = entries_view(es@);
    let mut out: Vec<(String, String)> = Vec::new();
    proof {
        assert(ev.skip(0) =~= ev);
        assert(pairs_view(out@) =~= Seq::<(Seq<char>, Seq<char>)>::empty());
    }
    let mut i: usize = 0;
    while i < es.len()
        invariant
            i <= es.len(),
            ev == entries_view(es@),
            (match texts_of(ev.skip(i as int)) {
                Some(rest) => texts_of(ev) == Some(pairs_view(out@) + rest),
                None => texts_of(ev) is None,
            }),
        decreases es.len() - i,
    {
        proof {
            lemma_skip_step(ev, i as int);
        }
        let t = match value_text(&es[i].1) {
            Some(t) => t,
            None => {
                proof {
                    assert(text_of(ev[i as int].1) is None);
                    assert(texts_of(ev.skip(i as int)) is None);
                }
                return None;
            },
        };
        let ghost before = pairs_view(out@);
        let k = es[i].0.clone();
        let ghost gt = t@;
        let ghost gk = k@;
        out.push((k, t));
        proof {
            assert(pairs_view(out@) =~= before.push((gk, gt)));
            assert(gk == ev[i as int].0);
            match texts_of(ev.skip(i as int + 1)) {
                Some(rest) => {
                    assert(texts_of(ev.skip(i as int)) == Some(
                        seq![(ev[i as int].0, gt)] + rest,
                    ));
                    assert(before.push((gk, gt)) + rest =~= before + (seq![(ev[i as int].0, gt)]
                        + rest));
                },
                None => {},
            }
        }
        i = i + 1;
    }
    proof {
        assert(ev.skip(es.len() as int) =~= Seq::<(Seq<char>, serde_json::Value)>::empty());
        assert(texts_of(ev) == Some(pairs_view(out@) + Seq::<(Seq<char>, Seq<char>)>::empty()));
        assert(pairs_view(out@) + Seq::<(Seq<char>, Seq<char>)>::empty() =~= pairs_view(out@));
    }
    Some(out)
}

/// Decode the helper's standard output.
pub fn decode(raw: &str) -> (r: Decoded)
    ensures
        decoded_view(r) == decode_spec(raw@),
{
    let v = match parse_json(raw) {
        Some(v) => v,
        None => {
            return Decoded::NotJson;
        },
    };
    match read_text_member(&v, "error") {
        TextMember::Text(m) => Decoded::Failure(m),
        TextMember::NotText => Decoded::BadShape,
        TextMember::Missing => {
            let envm = read_object_member(&v, "env");
            let shm = read_object_member(&v, "shellvars");
            match (envm, shm) {
                (ObjMember::Entries(es), ObjMember::Entries(ss)) => {
                    match collect_texts(&es) {
                        None => Decoded::BadShape,
                        Some(env) => match collect_texts(&ss) {
                            None => Decoded::BadShape,
                            Some(sh) => Decoded::Success(env, sh),
                        },
                    }
                },
                _ => Decoded::BadShape,
            }
        },
    }
}

} // verus!
