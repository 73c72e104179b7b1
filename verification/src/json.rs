//! JSON documents, and the JSON encoder that the notifications are written
//! with.

use vstd::prelude::*;
use vstd::string::*;

use crate::error::NotifyError;

verus! {

/// The error of the JSON encoder. Nothing is known of what is inside.
#[verifier::external_type_specification]
#[verifier::external_body]
pub struct ExJsonError(serde_json::Error);

/// The JSON string literal for a text, quotes included, as
/// `serde_json::to_string` writes it.
pub uninterp spec fn json_text(text: Seq<char>) -> Seq<char>;

/// Calls `serde_json::to_string` on a string slice. Trusted: the encoder
/// succeeds, and what it returns is the literal that `json_text` names,
/// which depends on the text alone. The encoder writes a string into a
/// byte vector, and it can fail only where its writer does, which a byte
/// vector never does.
#[verifier::external_body]
pub(crate) fn json_string(text: &str) -> (literal: Result<String, serde_json::Error>)
    ensures
        literal is Ok,
        literal matches Ok(t) ==> t@ == json_text(text@),
{
    serde_json::to_string(text)
}

/// What a formatter hands on once the encoder has answered: the encoder's
/// output as it is, or a format error in place of the encoder's own.
pub fn encoded<T>(outcome: Result<T, serde_json::Error>) -> (message: Result<T, NotifyError>)
    ensures
        outcome matches Ok(value) ==> message matches Ok(same) && same == value,
        outcome is Err ==> message matches Err(NotifyError::Format { .. }),
{
    match outcome {
        Ok(value) => Ok(value),
        Err(error) => Err(NotifyError::Format { message: error.to_string() }),
    }
}

/// A JSON document.
#[derive(Debug, PartialEq, Eq)]
pub enum Json {
    Null,
    Bool(bool),
    /// A number, as it is written.
    Number(String),
    Text(String),
    List(Vec<Json>),
    /// An object: its keys with their values, in the order in which they
    /// are written.
    Object(Vec<(String, Json)>),
}

/// A JSON document as a mathematical value.
pub enum JsonView {
    Null,
    Bool(bool),
    Number(Seq<char>),
    Text(Seq<char>),
    List(Seq<JsonView>),
    Object(Seq<(Seq<char>, JsonView)>),
}

/// The document that a value stands for.
pub open spec fn document_view(document: Json) -> JsonView
    decreases document,
{
    match document {
        Json::Null => JsonView::Null,
        Json::Bool(b) => JsonView::Bool(b),
        Json::Number(n) => JsonView::Number(n@),
        Json::Text(t) => JsonView::Text(t@),
        Json::List(items) => JsonView::List(
            Seq::new(
                items@.len(),
                |i: int|
                    if 0 <= i < items@.len() {
                        document_view(items@[i])
                    } else {
                        JsonView::Null
                    },
            ),
        ),
        Json::Object(fields) => JsonView::Object(
            Seq::new(
                fields@.len(),
                |i: int|
                    if 0 <= i < fields@.len() {
                        let field = fields@[i];
                        (field.0@, document_view(field.1))
                    } else {
                        (Seq::empty(), JsonView::Null)
                    },
            ),
        ),
    }
}

/// The documents of a list's items, in order.
pub open spec fn items_view(items: Seq<Json>) -> Seq<JsonView> {
    Seq::new(items.len(), |i: int| document_view(items[i]))
}

/// The keys of an object with the documents of their values, in order.
pub open spec fn fields_view(fields: Seq<(String, Json)>) -> Seq<(Seq<char>, JsonView)> {
    Seq::new(fields.len(), |i: int| (fields[i].0@, document_view(fields[i].1)))
}

/// A list stands for the list of what its items stand for.
pub proof fn lemma_list_view(items: Vec<Json>)
    ensures
        Json::List(items).deep_view() == JsonView::List(items_view(items@)),
{
    assert(Json::List(items).deep_view()->List_0 =~= items_view(items@));
}

/// An object stands for its keys with what their values stand for.
pub proof fn lemma_object_view(fields: Vec<(String, Json)>)
    ensures
        Json::Object(fields).deep_view() == JsonView::Object(fields_view(fields@)),
{
    assert(Json::Object(fields).deep_view()->Object_0 =~= fields_view(fields@));
}

impl DeepView for Json {
    type V = JsonView;

    open spec fn deep_view(&self) -> JsonView {
        document_view(*self)
    }
}

/// The text of a document, written without any space. Strings and keys are
/// written as `json_text` has them.
pub open spec fn document_text(document: JsonView) -> Seq<char>
    decreases document,
{
    match document {
        JsonView::Null => "null"@,
        JsonView::Bool(b) => if b {
            "true"@
        } else {
            "false"@
        },
        JsonView::Number(n) => n,
        JsonView::Text(t) => json_text(t),
        JsonView::List(items) => "["@ + items_text(items) + "]"@,
        JsonView::Object(fields) => "{"@ + fields_text(fields) + "}"@,
    }
}

/// The texts of the items of a list, with a comma between each two.
pub open spec fn items_text(items: Seq<JsonView>) -> Seq<char>
    decreases items,
{
    if items.len() == 0 {
        Seq::empty()
    } else if items.len() == 1 {
        document_text(items[0])
    } else {
        items_text(items.drop_last()) + ","@ + document_text(items.last())
    }
}

/// One field of an object: the key, a colon, the value.
pub open spec fn field_text(field: (Seq<char>, JsonView)) -> Seq<char>
    decreases field,
{
    json_text(field.0) + ":"@ + document_text(field.1)
}

/// The texts of the fields of an object, with a comma between each two.
pub open spec fn fields_text(fields: Seq<(Seq<char>, JsonView)>) -> Seq<char>
    decreases fields,
{
    if fields.len() == 0 {
        Seq::empty()
    } else if fields.len() == 1 {
        field_text(fields[0])
    } else {
        fields_text(fields.drop_last()) + ","@ + field_text(fields.last())
    }
}

/// The value of the first field of an object that has the given key.
pub open spec fn field_value(fields: Seq<(Seq<char>, JsonView)>, key: Seq<char>) -> Option<JsonView>
    decreases fields.len(),
{
    if fields.len() == 0 {
        None
    } else if fields[0].0 == key {
        Some(fields[0].1)
    } else {
        field_value(fields.skip(1), key)
    }
}

/// The value of the first field with the given key, if the object has one.
pub fn find_field<'a>(fields: &'a Vec<(String, Json)>, key: &str) -> (value: Option<&'a Json>)
    ensures
        match value {
            Some(found) => field_value(fields_view(fields@), key@) == Some(found.deep_view()),
            None => field_value(fields_view(fields@), key@) is None,
        },
{
    let wanted = String::from_str(key);
    let ghost views = fields_view(fields@);
    let mut i: usize = 0;
    assert(views.skip(0) =~= views);
    while i < fields.len()
        invariant
            i <= fields.len(),
            wanted@ == key@,
            views == fields_view(fields@),
            field_value(views, key@) == field_value(views.skip(i as int), key@),
        decreases fields.len() - i,
    {
        proof {
            let rest = views.skip(i as int);
            assert(rest[0] == views[i as int]);
            assert(rest.skip(1) =~= views.skip(i + 1));
        }
        if fields[i].0 == wanted {
            return Some(&fields[i].1);
        }
        i += 1;
    }
    None
}

impl Json {
    /// Writes the document at the end of `text`. It always succeeds.
    pub fn write(&self, text: &mut String) -> (done: Result<(), NotifyError>)
        ensures
            done is Ok,
            final(text)@ == old(text)@ + document_text(self.deep_view()),
        decreases self,
    {
        match self {
            Json::Null => {
                text.append("null");
            },
            Json::Bool(b) => {
                if *b {
                    text.append("true");
                } else {
                    text.append("false");
                }
            },
            Json::Number(n) => {
                text.append(n.as_str());
            },
            Json::Text(t) => {
                let literal = encoded(json_string(t.as_str()))?;
                text.append(literal.as_str());
            },
            Json::List(items) => {
                let ghost views = self.deep_view()->List_0;
                text.append("[");
                let ghost head = text@;
                let mut i: usize = 0;
                assert(views.take(0) =~= Seq::<JsonView>::empty());
                assert(text@ =~= head + items_text(views.take(0)));
                while i < items.len()
                    invariant
                        i <= items.len(),
                        *self == Json::List(*items),
                        views == self.deep_view()->List_0,
                        views.len() == items.len(),
                        text@ == head + items_text(views.take(i as int)),
                    decreases items.len() - i,
                {
                    if i > 0 {
                        text.append(",");
                    }
                    items[i].write(text)?;
                    proof {
                        let next = views.take(i + 1);
                        assert(next.drop_last() =~= views.take(i as int));
                        assert(next.last() == items[i as int].deep_view());
                        assert(text@ =~= head + items_text(next));
                    }
                    i += 1;
                }
                assert(views.take(i as int) =~= views);
                text.append("]");
                assert(text@ =~= old(text)@ + ("["@ + items_text(views) + "]"@));
            },
            Json::Object(fields) => {
                let ghost views = self.deep_view()->Object_0;
                text.append("{");
                let ghost head = text@;
                let mut i: usize = 0;
                assert(views.take(0) =~= Seq::<(Seq<char>, JsonView)>::empty());
                assert(text@ =~= head + fields_text(views.take(0)));
                while i < fields.len()
                    invariant
                        i <= fields.len(),
                        *self == Json::Object(*fields),
                        views == self.deep_view()->Object_0,
                        views.len() == fields.len(),
                        text@ == head + fields_text(views.take(i as int)),
                    decreases fields.len() - i,
                {
                    let ghost before = text@;
                    if i > 0 {
                        text.append(",");
                    }
                    let ghost separated = text@;
                    let key = encoded(json_string(fields[i].0.as_str()))?;
                    text.append(key.as_str());
                    text.append(":");
                    fields[i].1.write(text)?;
                    proof {
                        let next = views.take(i + 1);
                        let field = (fields[i as int].0@, fields[i as int].1.deep_view());
                        assert(next.drop_last() =~= views.take(i as int));
                        assert(next.last() == field);
                        assert(field_text(field) == json_text(field.0) + ":"@ + document_text(
                            field.1,
                        ));
                        assert(text@ =~= separated + field_text(field));
                        if i > 0 {
                            assert(separated =~= before + ","@);
                            assert(fields_text(next) == fields_text(next.drop_last()) + ","@
                                + field_text(field));
                        } else {
                            assert(fields_text(next) == field_text(field));
                            assert(fields_text(views.take(0)) =~= Seq::<char>::empty());
                        }
                        assert(text@ =~= head + fields_text(next));
                    }
                    i += 1;
                }
                assert(views.take(i as int) =~= views);
                text.append("}");
                assert(text@ =~= old(text)@ + ("{"@ + fields_text(views) + "}"@));
            },
        }
        Ok(())
    }
}

} // verus!
