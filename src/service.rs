use vstd::prelude::*;
use crate::record::owned;

verus! {

/// A JSON value, as the translation service's reply is read.
#[derive(Debug, PartialEq, Eq)]
pub enum JsonValue {
    Null,
    Bool(bool),
    /// A number, as its text.
    Number(String),
    Str(String),
    Array(Vec<JsonValue>),
    /// An object's members in order.
    Object(Vec<(String, JsonValue)>),
}

/// The value of the first member named `key`.
pub open spec fn member(fields: Seq<(String, JsonValue)>, key: Seq<char>) -> Option<JsonValue>
    decreases fields.len(),
{
    if fields.len() == 0 {
        None
    } else if fields[0].0@ == key {
        Some(fields[0].1)
    } else {
        member(fields.drop_first(), key)
    }
}

/// The member `key` of `v`; nothing where `v` is not an object.
pub open spec fn member_of(v: JsonValue, key: Seq<char>) -> Option<JsonValue> {
    match v {
        JsonValue::Object(fields) => member(fields@, key),
        _ => None,
    }
}

/// The text of the first translation in the reply: the string at
/// `translations[0].text`, or the empty text where the reply has no such
/// string.
pub open spec fn translation_of(reply: JsonValue) -> Seq<char> {
    match member_of(reply, "translations"@) {
        Some(JsonValue::Array(items)) => if items@.len() > 0 {
            match member_of(items@[0], "text"@) {
                Some(JsonValue::Str(t)) => t@,
                _ => Seq::empty(),
            }
        } else {
            Seq::empty()
        },
        _ => Seq::empty(),
    }
}

fn find_member<'a>(v: &'a JsonValue, key: &String) -> (r: Option<&'a JsonValue>)
    ensures
        match r {
            Some(m) => member_of(*v, key@) == Some(*m),
            None => member_of(*v, key@) is None,
        },
{
    match v {
        JsonValue::Object(fields) => {
            let mut i: usize = 0;
            assert(fields@.subrange(0, fields@.len() as int) =~= fields@);
            while i < fields.len()
                invariant
                    i <= fields@.len(),
                    member_of(*v, key@) == member(fields@, key@),
                    member(fields@, key@) == member(fields@.subrange(i as int, fields@.len() as int), key@),
                decreases fields@.len() - i,
            {
                let ghost rest = fields@.subrange(i as int, fields@.len() as int);
                assert(rest[0] == fields@[i as int]);
                if fields[i].0 == *key {
                    return Some(&fields[i].1);
                }
                assert(rest.drop_first() =~= fields@.subrange(i + 1, fields@.len() as int));
                i = i + 1;
            }
            None
        },
        _ => None,
    }
}

/// Reads the translated text out of the service's reply. A reply without
/// `translations`, with an empty list, or of another shape gives the empty
/// text: it is no error.
pub fn translation_text(reply: &JsonValue) -> (r: String)
    ensures
        r@ == translation_of(*reply),
        member_of(*reply, "translations"@) is None ==> r@ == Seq::<char>::empty(),
{
    let key = owned("translations");
    match find_member(reply, &key) {
        Some(JsonValue::Array(items)) => {
            if items.len() > 0 {
                let text_key = owned("text");
                match find_member(&items[0], &text_key) {
                    Some(JsonValue::Str(t)) => t.clone(),
                    _ => String::new(),
                }
            } else {
                String::new()
            }
        },
        _ => String::new(),
    }
}

/// The source language the service is told the text is in.
pub open spec fn source_language() -> Seq<char> {
    "FR"@
}

pub open spec fn pair_views(v: Seq<(String, String)>) -> Seq<(Seq<char>, Seq<char>)> {
    v.map_values(|p: (String, String)| (p.0@, p.1@))
}

/// The form fields of one request to the translation service.
pub open spec fn form_of(text: Seq<char>, target_lang: Seq<char>, api_key: Seq<char>) -> Seq<
    (Seq<char>, Seq<char>),
> {
    seq![
        ("auth_key"@, api_key),
        ("text"@, text),
        ("source_lang"@, source_language()),
        ("target_lang"@, target_lang),
    ]
}

/// The form-encoded fields that ask the service to translate `text` from
/// French into `target_lang`, with the credential passed as it is.
pub fn request_form(text: &str, target_lang: &str, api_key: &str) -> (r: Vec<(String, String)>)
    ensures
        pair_views(r@) == form_of(text@, target_lang@, api_key@),
{
    let mut r: Vec<(String, String)> = Vec::new();
    r.push((owned("auth_key"), owned(api_key)));
    r.push((owned("text"), owned(text)));
    r.push((owned("source_lang"), owned("FR")));
    r.push((owned("target_lang"), owned(target_lang)));
    assert(pair_views(r@) =~= form_of(text@, target_lang@, api_key@));
    r
}

} // verus!
