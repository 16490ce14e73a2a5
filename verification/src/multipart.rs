//! The [`Multipart`] body builder and its [`Part`].

use reqwest::multipart::Part as MultipartPart;
use vstd::prelude::*;
use vstd::string::StringExecFns;
use vstd::utf8::encode_utf8;

use crate::error::Error;
use crate::render::{concat, debug_str, str_debug};

verus! {

/// What `mime_str` makes of `mime` (it parses it as a `mime::Mime`): the
/// rendering of the parsed MIME type (`type/subtype` with optional parameters,
/// the names in lowercase), or `None` when `mime` does not parse as one.
pub uninterp spec fn mime_parse(mime: Seq<char>) -> Option<Seq<char>>;

/// What a part holds: the bytes of its body, its file name, and the rendering of
/// its MIME type, the last two when set.
pub uninterp spec fn part_content(part: MultipartPart) -> (Seq<u8>, Option<Seq<char>>, Option<
    Seq<char>,
>);

/// The fields a form holds, in the order they were added: for each, its name and
/// the content of its part (body bytes, file name, MIME type).
pub uninterp spec fn form_fields(form: reqwest::multipart::Form) -> Seq<
    (Seq<char>, Seq<u8>, Option<Seq<char>>, Option<Seq<char>>),
>;

/// An empty form (`reqwest::multipart::Form::new`).
///
/// Trusted: the form holds no field. Its boundary, which is random, is not
/// specified.
#[verifier::external_body]
fn form_new() -> (r: reqwest::multipart::Form)
    ensures
        form_fields(r) == Seq::<(Seq<char>, Seq<u8>, Option<Seq<char>>, Option<Seq<char>>)>::empty(),
{
    reqwest::multipart::Form::new()
}

/// Adds a text field to a form (`reqwest::multipart::Form::text`).
///
/// Trusted: the field is added after the existing ones, under `name`, as a part
/// whose body is the UTF-8 encoding of `value`, with no file name or MIME type.
#[verifier::external_body]
fn form_text(form: reqwest::multipart::Form, name: String, value: String) -> (r:
    reqwest::multipart::Form)
    ensures
        form_fields(r) == form_fields(form).push((name@, encode_utf8(value@), None, None)),
{
    form.text(name, value)
}

/// Adds a part to a form (`reqwest::multipart::Form::part`).
///
/// Trusted: the part is added after the existing fields, under `name`, as it is.
#[verifier::external_body]
fn form_part(form: reqwest::multipart::Form, name: String, part: MultipartPart) -> (r:
    reqwest::multipart::Form)
    ensures
        form_fields(r) == form_fields(form).push(
            (name@, part_content(part).0, part_content(part).1, part_content(part).2),
        ),
{
    form.part(name, part)
}

/// A part holding `bytes` (`MultipartPart::bytes`).
///
/// Trusted: the part's body is `bytes`, with no file name or MIME type.
#[verifier::external_body]
fn part_bytes(bytes: Vec<u8>) -> (r: MultipartPart)
    ensures
        part_content(r) == (bytes@, None::<Seq<char>>, None::<Seq<char>>),
{
    MultipartPart::bytes(bytes)
}

/// Sets a part's file name (`MultipartPart::file_name`).
///
/// Trusted: the file name becomes `file_name`; the body and MIME type stay.
#[verifier::external_body]
fn part_file_name(part: MultipartPart, file_name: String) -> (r: MultipartPart)
    ensures
        part_content(r) == (part_content(part).0, Some(file_name@), part_content(part).2),
{
    part.file_name(file_name)
}

/// Sets a part's MIME type (`MultipartPart::mime_str`).
///
/// Trusted: the call fails exactly when `mime` does not parse as a MIME type, as
/// named by `mime_parse`, with a builder error, which renders as `builder error`.
/// Otherwise the MIME type becomes the parsed one; the body and file name stay.
#[verifier::external_body]
fn part_mime(part: MultipartPart, mime: &str) -> (r: Result<MultipartPart, String>)
    ensures
        r is Ok <==> mime_parse(mime@) is Some,
        r matches Ok(p) ==> part_content(p) == (part_content(part).0, part_content(part).1,
            mime_parse(mime@)),
        r matches Err(e) ==> e@ == "builder error"@,
{
    match part.mime_str(mime) {
        Ok(p) => Ok(p),
        Err(e) => Err(e.to_string()),
    }
}

/// A single file part of a [`Multipart`] body: its bytes, with an optional file
/// name and MIME type.
#[derive(Debug, Clone)]
pub struct Part {
    bytes: Vec<u8>,
    file_name: Option<String>,
    mime: Option<String>,
}

/// The content of a [`Part`]: bytes, file name and MIME type.
pub struct PartView {
    /// The part's bytes.
    pub bytes: Seq<u8>,
    /// The file name, if set.
    pub file_name: Option<Seq<char>>,
    /// The MIME type, if set.
    pub mime: Option<Seq<char>>,
}

/// The text of an optional string.
pub open spec fn opt_view(s: Option<String>) -> Option<Seq<char>> {
    match s {
        Some(t) => Some(t@),
        None => None,
    }
}

impl View for Part {
    type V = PartView;

    closed spec fn view(&self) -> PartView {
        PartView { bytes: self.bytes@, file_name: opt_view(self.file_name), mime: opt_view(self.mime) }
    }
}

/// Whether a part's MIME type, if set, is accepted.
pub open spec fn part_mime_ok(p: PartView) -> bool {
    match p.mime {
        Some(m) => mime_parse(m) is Some,
        None => true,
    }
}

/// What the transport's part built from `p` holds: its bytes, its file name, and
/// its MIME type as parsed.
pub open spec fn part_entry(p: PartView) -> (Seq<u8>, Option<Seq<char>>, Option<Seq<char>>) {
    (
        p.bytes,
        p.file_name,
        match p.mime {
            Some(m) => mime_parse(m),
            None => None,
        },
    )
}

impl Part {
    /// Creates a part from its raw bytes, with no file name or MIME type.
    pub fn new(bytes: Vec<u8>) -> (r: Part)
        ensures
            r@.bytes == bytes@,
            r@.file_name is None,
            r@.mime is None,
    {
        Part { bytes, file_name: None, mime: None }
    }

    /// Sets the part's file name.
    pub fn with_file_name(self, file_name: &str) -> (r: Part)
        ensures
            r@.bytes == self@.bytes,
            r@.file_name == Some(file_name@),
            r@.mime == self@.mime,
    {
        Part { file_name: Some(file_name.to_owned()), ..self }
    }

    /// Sets the part's MIME type, e.g. `"image/jpeg"`. It is validated when the
    /// body is built.
    pub fn with_mime(self, mime: &str) -> (r: Part)
        ensures
            r@.bytes == self@.bytes,
            r@.file_name == self@.file_name,
            r@.mime == Some(mime@),
    {
        Part { mime: Some(mime.to_owned()), ..self }
    }

    /// Builds the transport's part, validating the MIME type if set. An invalid
    /// one gives an `InvalidRequest` error `invalid part mime <mime:?>`.
    fn into_reqwest(self) -> (r: Result<MultipartPart, Error>)
        ensures
            r is Ok <==> part_mime_ok(self@),
            r matches Ok(p) ==> part_content(p) == part_entry(self@),
            r matches Err(e) ==> (e matches Error::InvalidRequest { message: msg, source: Some(s) }
                && msg@ == "invalid part mime "@ + str_debug(self@.mime.unwrap()) && s@
                == "builder error"@),
    {
        let mut part = part_bytes(self.bytes);
        if let Some(file_name) = self.file_name {
            part = part_file_name(part, file_name);
        }
        if let Some(mime) = self.mime {
            match part_mime(part, mime.as_str()) {
                Ok(p) => {
                    part = p;
                },
                Err(e) => {
                    let d = debug_str(mime.as_str());
                    let msg = concat("invalid part mime ", d.as_str());
                    return Err(Error::invalid_request(msg, e));
                },
            }
        }
        Ok(part)
    }
}

/// The form field of a text field: its name, and the UTF-8 encoding of its JSON
/// text, with no file name or MIME type.
pub open spec fn text_entry(f: (Seq<char>, Seq<char>)) -> (Seq<char>, Seq<u8>, Option<Seq<char>>, Option<
    Seq<char>,
>) {
    (f.0, encode_utf8(f.1), None, None)
}

/// The form field of a file part: its name, and what the transport's part holds.
pub open spec fn part_field(p: (Seq<char>, PartView)) -> (Seq<char>, Seq<u8>, Option<Seq<char>>, Option<
    Seq<char>,
>) {
    (p.0, part_entry(p.1).0, part_entry(p.1).1, part_entry(p.1).2)
}

/// The fields of a body's form: each text field, in order, as a part holding the
/// UTF-8 encoding of its JSON text, then each file part, in order.
pub open spec fn body_form_fields(
    fields: Seq<(Seq<char>, Seq<char>)>,
    parts: Seq<(Seq<char>, PartView)>,
) -> Seq<(Seq<char>, Seq<u8>, Option<Seq<char>>, Option<Seq<char>>)> {
    Seq::new(fields.len(), |j: int| text_entry(fields[j]))
        + Seq::new(
        parts.len(),
        |j: int| part_field(parts[j]),
    )
}

/// A built form holds one field per text field, then one per part, in order: a
/// text field's name with the whole UTF-8 encoding of its JSON text and no file
/// name or MIME type, and a part's name with exactly the bytes it was made from,
/// its file name, and its MIME type as parsed.
pub proof fn lemma_form_carries_every_byte(
    fields: Seq<(Seq<char>, Seq<char>)>,
    parts: Seq<(Seq<char>, PartView)>,
)
    ensures
        body_form_fields(fields, parts).len() == fields.len() + parts.len(),
        forall|j: int|
            0 <= j < fields.len() ==> #[trigger] body_form_fields(fields, parts)[j] == (
                fields[j].0,
                encode_utf8(fields[j].1),
                None::<Seq<char>>,
                None::<Seq<char>>,
            ),
        forall|k: int|
            0 <= k < parts.len() ==> {
                &&& (#[trigger] body_form_fields(fields, parts)[fields.len() + k]).0 == parts[k].0
                &&& body_form_fields(fields, parts)[fields.len() + k].1 == parts[k].1.bytes
                &&& body_form_fields(fields, parts)[fields.len() + k].2 == parts[k].1.file_name
                &&& body_form_fields(fields, parts)[fields.len() + k].3 == match parts[k].1.mime {
                    Some(m) => mime_parse(m),
                    None => None,
                }
            },
{
}

/// The index of the first part whose MIME type is rejected, or `-1`.
pub open spec fn first_bad_part(parts: Seq<(Seq<char>, PartView)>) -> int
    decreases parts.len(),
{
    if parts.len() == 0 {
        -1
    } else if !part_mime_ok(parts[0].1) {
        0
    } else {
        let rest = first_bad_part(parts.drop_first());
        if rest < 0 {
            -1
        } else {
            rest + 1
        }
    }
}

proof fn lemma_first_bad_part(parts: Seq<(Seq<char>, PartView)>)
    ensures
        -1 <= first_bad_part(parts) < parts.len(),
        first_bad_part(parts) >= 0 ==> !part_mime_ok(parts[first_bad_part(parts)].1),
        forall|j: int|
            0 <= j < parts.len() && (first_bad_part(parts) < 0 || j < first_bad_part(parts))
                ==> part_mime_ok(#[trigger] parts[j].1),
    decreases parts.len(),
{
    if parts.len() > 0 && part_mime_ok(parts[0].1) {
        lemma_first_bad_part(parts.drop_first());
        assert forall|j: int|
            0 <= j < parts.len() && (first_bad_part(parts) < 0 || j < first_bad_part(parts))
                implies part_mime_ok(#[trigger] parts[j].1) by {
            if j > 0 {
                assert(parts[j] == parts.drop_first()[j - 1]);
            }
        }
    }
}

/// A `multipart/form-data` body for endpoints that take file or image inputs.
///
/// BentoML maps each parameter to its own form field: non-file parameters are sent
/// as JSON-encoded text fields (named by parameter name), and files as separate
/// file parts. Builder methods are infallible; a field that failed to serialize,
/// or a part with an invalid MIME type, surfaces as an error when the body is
/// built.
#[derive(Debug, Clone)]
pub struct Multipart {
    fields: Vec<(String, String)>,
    parts: Vec<(String, Part)>,
    error: Option<String>,
}

impl Multipart {
    /// The text fields added so far, as (name, JSON text) pairs.
    pub closed spec fn spec_fields(&self) -> Seq<(Seq<char>, Seq<char>)> {
        self.fields@.map_values(|f: (String, String)| (f.0@, f.1@))
    }

    /// The file parts added so far, as (name, part) pairs.
    pub closed spec fn spec_parts(&self) -> Seq<(Seq<char>, PartView)> {
        self.parts@.map_values(|p: (String, Part)| (p.0@, p.1@))
    }

    /// The first field failure recorded, if any.
    pub closed spec fn spec_error(&self) -> Option<Seq<char>> {
        opt_view(self.error)
    }

    /// Creates an empty multipart body.
    pub fn new() -> (r: Multipart)
        ensures
            r.spec_fields() == Seq::<(Seq<char>, Seq<char>)>::empty(),
            r.spec_parts() == Seq::<(Seq<char>, PartView)>::empty(),
            r.spec_error() is None,
    {
        let r = Multipart { fields: Vec::new(), parts: Vec::new(), error: None };
        assert(r.spec_fields() =~= Seq::<(Seq<char>, Seq<char>)>::empty());
        assert(r.spec_parts() =~= Seq::<(Seq<char>, PartView)>::empty());
        r
    }

    /// Adds a non-file parameter, given its JSON encoding (or the serializer's
    /// failure), as its own form field.
    ///
    /// This matches how BentoML expects scalar/structured parameters in a multipart
    /// request (each `json.dumps`'d into a field named by the parameter). A failed
    /// encoding is recorded as `field <name:?>: <failure>`; once a failure is
    /// recorded, later fields are ignored.
    pub fn field(self, name: &str, json: Result<String, String>) -> (r: Multipart)
        ensures
            r.spec_parts() == self.spec_parts(),
            self.spec_error() is Some ==> r.spec_fields() == self.spec_fields() && r.spec_error()
                == self.spec_error(),
            self.spec_error() is None ==> match json {
                Ok(j) => r.spec_fields() == self.spec_fields().push((name@, j@)) && r.spec_error()
                    is None,
                Err(e) => r.spec_fields() == self.spec_fields() && r.spec_error() == Some(
                    "field "@ + str_debug(name@) + ": "@ + e@,
                ),
            },
    {
        let mut m = self;
        if m.error.is_none() {
            match json {
                Ok(j) => {
                    let ghost before = m.spec_fields();
                    let ghost n = name@;
                    let ghost jv = j@;
                    m.fields.push((name.to_owned(), j));
                    assert(m.spec_fields() =~= before.push((n, jv)));
                },
                Err(e) => {
                    let d = debug_str(name);
                    let a = concat("field ", d.as_str());
                    let b = concat(a.as_str(), ": ");
                    m.error = Some(concat(b.as_str(), e.as_str()));
                },
            }
        }
        m
    }

    /// Adds a file [`Part`] under the given parameter name.
    pub fn part(self, name: &str, part: Part) -> (r: Multipart)
        ensures
            r.spec_fields() == self.spec_fields(),
            r.spec_parts() == self.spec_parts().push((name@, part@)),
            r.spec_error() == self.spec_error(),
    {
        let mut m = self;
        let ghost before = m.spec_parts();
        let ghost n = name@;
        let ghost pv = part@;
        m.parts.push((name.to_owned(), part));
        assert(m.spec_parts() =~= before.push((n, pv)));
        m
    }

    /// Consumes the builder into the transport's form.
    ///
    /// A recorded field failure gives `invalid multipart body: <failure>`; otherwise
    /// the first part with a rejected MIME type gives `invalid part mime <mime:?>`;
    /// both are `InvalidRequest` errors. Otherwise the form holds the text fields,
    /// then the parts, in the order they were added.
    pub fn into_form(self) -> (r: Result<reqwest::multipart::Form, Error>)
        ensures
            self.spec_error() matches Some(e) ==> (r matches Err(
                Error::InvalidRequest { message: msg, source: None },
            ) && msg@ == "invalid multipart body: "@ + e),
            self.spec_error() is None && first_bad_part(self.spec_parts()) >= 0 ==> (r matches Err(
                Error::InvalidRequest { message: msg, source: Some(s) },
            ) && msg@ == "invalid part mime "@ + str_debug(
                self.spec_parts()[first_bad_part(self.spec_parts())].1.mime.unwrap(),
            ) && s@ == "builder error"@),
            self.spec_error() is None && first_bad_part(self.spec_parts()) < 0 ==> (r matches Ok(
                form,
            ) && form_fields(form) == body_form_fields(self.spec_fields(), self.spec_parts())),
    {
        let ghost parts_view = self.spec_parts();
        let ghost fields_view = self.spec_fields();
        let ghost err = self.spec_error();
        proof {
            lemma_first_bad_part(parts_view);
        }
        if let Some(error) = self.error {
            return Err(Error::invalid_message(concat("invalid multipart body: ", error.as_str())));
        }
        let mut form = form_new();
        let mut fields = self.fields;
        let nf = fields.len();
        let mut i: usize = 0;
        while i < nf
            invariant
                i <= nf,
                nf == fields_view.len(),
                fields@.len() == nf - i,
                forall|j: int| 0 <= j < nf - i ==> (#[trigger] fields@[j]).0@ == fields_view[i + j].0
                    && fields@[j].1@ == fields_view[i + j].1,
                form_fields(form) == Seq::new(
                    i as nat,
                    |j: int| text_entry(fields_view[j]),
                ),
            decreases nf - i,
        {
            let (name, value) = fields.remove(0);
            let ghost n = name@;
            let ghost v = value@;
            assert(n == fields_view[i as int].0);
            assert(v == fields_view[i as int].1);
            form = form_text(form, name, value);
            i = i + 1;
            assert(form_fields(form) =~= Seq::new(
                i as nat,
                |j: int| text_entry(fields_view[j]),
            ));
        }
        let mut parts = self.parts;
        let np = parts.len();
        let mut k: usize = 0;
        while k < np
            invariant
                k <= np,
                err is None,
                err == self.spec_error(),
                parts_view == self.spec_parts(),
                fields_view == self.spec_fields(),
                np == parts_view.len(),
                form_fields(form) == Seq::new(
                    fields_view.len(),
                    |j: int| text_entry(fields_view[j]),
                ) + Seq::new(
                    k as nat,
                    |j: int|
                        part_field(parts_view[j]),
                ),
                parts@.len() == np - k,
                forall|j: int| 0 <= j < np - k ==> (#[trigger] parts@[j]).0@ == parts_view[k + j].0
                    && parts@[j].1@ == parts_view[k + j].1,
                forall|j: int| 0 <= j < k ==> part_mime_ok(#[trigger] parts_view[j].1),
                -1 <= first_bad_part(parts_view) < parts_view.len(),
                first_bad_part(parts_view) >= 0 ==> !part_mime_ok(
                    parts_view[first_bad_part(parts_view)].1,
                ),
                forall|j: int|
                    0 <= j < parts_view.len() && (first_bad_part(parts_view) < 0 || j
                        < first_bad_part(parts_view)) ==> part_mime_ok(#[trigger] parts_view[j].1),
            decreases np - k,
        {
            let (name, part) = parts.remove(0);
            let ghost pv = part@;
            assert(pv == parts_view[k as int].1);
            let ghost n = name@;
            match part.into_reqwest() {
                Ok(p) => {
                    form = form_part(form, name, p);
                    assert(form_fields(form) =~= Seq::new(
                        fields_view.len(),
                        |j: int| text_entry(fields_view[j]),
                    ) + Seq::new(
                        (k + 1) as nat,
                        |j: int|
                            part_field(parts_view[j]),
                    ));
                },
                Err(e) => {
                    assert(first_bad_part(parts_view) == k as int);
                    return Err(e);
                },
            }
            k = k + 1;
        }
        assert(first_bad_part(parts_view) < 0) by {
            if first_bad_part(parts_view) >= 0 {
                assert(part_mime_ok(parts_view[first_bad_part(parts_view)].1));
            }
        }
        assert(form_fields(form) =~= body_form_fields(fields_view, parts_view));
        Ok(form)
    }
}

} // verus!
