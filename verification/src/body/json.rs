//! The JSON body adapter: a flat object carried as a JSON body. Conversion
//! to a response serializes it and marks the content type; consumption
//! buffers the body, checks it is UTF-8, and parses it, turning anything
//! undecodable into a typed error.
use vstd::prelude::*;
use vstd::utf8::{decode_utf8, encode_utf8, valid_utf8};
use crate::json::{
    enc_object, encode_object, lemma_object_round_trip, lemma_parse_object_wf, parse_object,
    parse_object_full, value_is_wf, text_is_wf, wf_object, FieldsRep, JsonValue,
};
use crate::request::{Consume, Modeled, ReqRep, Request};
use crate::response::{
    rep_status_only, HttpResponse, IntoResponse, RespRep, STATUS_BAD_REQUEST, STATUS_OK,
};

verus! {

/// What went wrong with a JSON body: it could not be built for sending, or
/// it could not be read back.
#[derive(Clone, Copy, PartialEq, Eq, Structural, Debug)]
pub enum JsonError {
    Serialize,
    Deserialize,
}

impl DeepView for JsonError {
    type V = JsonError;

    open spec fn deep_view(&self) -> JsonError {
        *self
    }
}

impl Modeled for JsonError {
    type Rep = JsonError;

    open spec fn rep(&self) -> JsonError {
        *self
    }
}

/// A bad JSON body answers with a 400 and an empty body.
impl IntoResponse for JsonError {
    open spec fn spec_response_of(rep: JsonError) -> RespRep {
        rep_status_only(STATUS_BAD_REQUEST)
    }

    fn into_response(self) -> (r: HttpResponse) {
        HttpResponse::new_empty(STATUS_BAD_REQUEST)
    }
}

/// A flat JSON object: ordered fields holding null, booleans, integers or
/// plain text. Every value of this type can be carried on the wire; text
/// that would need escaping is turned away at construction.
pub struct Json {
    fields: Vec<(String, JsonValue)>,
}

impl DeepView for Json {
    type V = FieldsRep;

    closed spec fn deep_view(&self) -> FieldsRep {
        self.fields.deep_view()
    }
}

impl Modeled for Json {
    type Rep = FieldsRep;

    open spec fn rep(&self) -> FieldsRep {
        self.deep_view()
    }
}

/// Relies on `String::from_utf8`: accepts exactly the valid UTF-8 byte
/// strings and decodes them.
#[verifier::external_body]
fn bytes_to_string(v: Vec<u8>) -> (r: Option<String>)
    ensures
        r is Some <==> valid_utf8(v@),
        r matches Some(s) ==> s@ == decode_utf8(v@),
{
    match String::from_utf8(v) {
        Ok(s) => Some(s),
        Err(_) => None,
    }
}

impl Json {
    #[verifier::type_invariant]
    spec fn wf(&self) -> bool {
        wf_object(self.fields.deep_view())
    }

    /// Take custody of an object's fields for sending. Fields whose key or
    /// text would need escaping cannot be serialized by this adapter and
    /// are reported as a serialization error.
    pub fn new(fields: Vec<(String, JsonValue)>) -> (r: Result<Json, JsonError>)
        ensures
            match r {
                Ok(j) => wf_object(fields.deep_view()) && j.deep_view() == fields.deep_view(),
                Err(e) => !wf_object(fields.deep_view()) && e == JsonError::Serialize,
            },
    {
        let n = fields.len();
        for i in 0..n
            invariant
                n == fields@.len(),
                forall|j: int|
                    0 <= j < i ==> crate::json::wf_text(
                        (#[trigger] fields.deep_view()[j]).0,
                    ) && crate::json::wf_value(fields.deep_view()[j].1),
        {
            proof {
                assert(fields.deep_view()[i as int].0 == fields@[i as int].0@);
                assert(fields.deep_view()[i as int].1 == fields@[i as int].1.deep_view());
            }
            if !text_is_wf(fields[i].0.as_str()) {
                return Err(JsonError::Serialize);
            }
            if !value_is_wf(&fields[i].1) {
                return Err(JsonError::Serialize);
            }
        }
        Ok(Json { fields })
    }

    /// The object's fields, in order.
    pub fn fields(&self) -> (r: &Vec<(String, JsonValue)>)
        ensures
            r.deep_view() == self.deep_view(),
            wf_object(self.deep_view()),
    {
        proof {
            use_type_invariant(&*self);
        }
        &self.fields
    }
}

impl IntoResponse for Json {
    /// The response carries the object's compact text as UTF-8 and says so
    /// in its content type.
    open spec fn spec_response_of(rep: FieldsRep) -> RespRep {
        RespRep {
            status: STATUS_OK,
            headers: seq![("content-type"@, "application/json"@)],
            body: encode_utf8(enc_object(rep)),
        }
    }

    fn into_response(self) -> (r: HttpResponse) {
        proof {
            use_type_invariant(&self);
        }
        let text = encode_object(&self.fields);
        let body = text.as_str().as_bytes_vec();
        let mut headers: Vec<(String, String)> = Vec::new();
        headers.push((String::from_str("content-type"), String::from_str("application/json")));
        let r = HttpResponse { status: STATUS_OK, headers, body };
        proof {
            assert(r.headers.deep_view() =~= seq![("content-type"@, "application/json"@)]);
            assert(r.body.deep_view() =~= encode_utf8(enc_object(self.deep_view())));
        }
        r
    }
}

impl Consume for Json {
    type Error = JsonError;

    /// Consuming a request reads its whole body as one compact JSON object:
    /// exactly the valid UTF-8 bodies whose text parses are accepted, and
    /// everything else is a deserialization error.
    open spec fn spec_consume(req: ReqRep) -> Result<FieldsRep, JsonError> {
        if !valid_utf8(req.body) {
            Err(JsonError::Deserialize)
        } else {
            match parse_object_full(decode_utf8(req.body)) {
                Some(fs) => Ok(fs),
                None => Err(JsonError::Deserialize),
            }
        }
    }

    fn consume(request: Request) -> (r: Result<Self, Self::Error>) {
        proof {
            assert(request.body.deep_view() =~= request.body@);
        }
        match bytes_to_string(request.body) {
            None => Err(JsonError::Deserialize),
            Some(text) => {
                match parse_object(text.as_str()) {
                    None => Err(JsonError::Deserialize),
                    Some(fields) => {
                        proof {
                            lemma_parse_object_wf(text@);
                        }
                        Ok(Json { fields })
                    },
                }
            },
        }
    }
}

/// The JSON body round-trips: a request whose body is the serialized form
/// of a carriable object consumes back to that object's fields. Every
/// [`Json`] value is carriable, as its `fields` accessor attests.
pub proof fn lemma_json_round_trip(fields: FieldsRep, req: ReqRep)
    requires
        wf_object(fields),
        req.body == encode_utf8(enc_object(fields)),
    ensures
        <Json as Consume>::spec_consume(req) == Ok::<FieldsRep, JsonError>(fields),
{
    broadcast use vstd::utf8::encode_utf8_valid_utf8, vstd::utf8::encode_utf8_decode_utf8;

    lemma_object_round_trip(fields);
}

} // verus!
